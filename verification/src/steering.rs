//! Index lookup in the key tables of a speed-dependent steering ratio table.
//!
//! A steering table maps (steering-wheel angle, car speed) to a road-wheel
//! angle.  Its rows and columns are labelled by integer keys that strictly
//! increase; a lookup first finds, for each axis, the pair of neighbouring
//! keys between which the query lies, and then interpolates between the
//! table cells there.
use vstd::prelude::*;

verus! {

/// Every key is smaller than every key after it.
pub open spec fn strictly_increasing(keys: Seq<i32>) -> bool {
    forall|i: int, j: int| 0 <= i < j < keys.len() ==> keys[i] < keys[j]
}

/// `r` is the lower bracket of `t` among `keys`: the last key that is not
/// above `t`, or the first key when every key lies above `t`.
pub open spec fn is_lower_bracket(keys: Seq<i32>, t: int, r: int) -> bool {
    &&& 0 <= r < keys.len()
    &&& (r == 0 || keys[r] <= t)
    &&& (r + 1 < keys.len() ==> t < keys[r + 1])
}

/// The upper neighbour of the lower bracket `r`: the next key, or `r` itself
/// at the last key.
pub open spec fn upper_of(keys: Seq<i32>, r: int) -> int {
    if r + 1 < keys.len() {
        r + 1
    } else {
        r
    }
}

/// Finds the neighbouring keys between which `target` lies.
///
/// The lower index is the one a binary search over `keys` gives: the index of
/// `target` when it is a key, else the insertion point less one (saturating at
/// zero).  The upper index is the next one, capped at the last key.
pub fn bracket(keys: &[i32], target: i32) -> (r: (usize, usize))
    requires
        keys@.len() > 0,
        strictly_increasing(keys@),
    ensures
        is_lower_bracket(keys@, target as int, r.0 as int),
        r.1 == upper_of(keys@, r.0 as int),
        r.0 + 1 < keys@.len() ==> r.1 == r.0 + 1,
        r.0 + 1 >= keys@.len() ==> r.1 == r.0,
{
    // Binary search for the insertion point: every key before `lo` is below
    // `target`, every key from `hi` on is not.
    let mut lo: usize = 0;
    let mut hi: usize = keys.len();
    while lo < hi
        invariant
            0 <= lo <= hi <= keys@.len(),
            strictly_increasing(keys@),
            forall|i: int| 0 <= i < lo ==> keys@[i] < target,
            forall|i: int| hi <= i < keys@.len() ==> keys@[i] >= target,
        decreases hi - lo,
    {
        let mid = lo + (hi - lo) / 2;
        if keys[mid] < target {
            lo = mid + 1;
        } else {
            hi = mid;
        }
    }
    let lower = if lo < keys.len() && keys[lo] == target {
        lo
    } else if lo == 0 {
        0
    } else {
        lo - 1
    };
    let upper = if lower + 1 < keys.len() {
        lower + 1
    } else {
        lower
    };
    (lower, upper)
}

/// Two lower brackets of one query in strictly increasing keys are the same
/// index: the lower bracket is unique.
pub proof fn lemma_bracket_unique(keys: Seq<i32>, t: int, r1: int, r2: int)
    requires
        strictly_increasing(keys),
        is_lower_bracket(keys, t, r1),
        is_lower_bracket(keys, t, r2),
    ensures
        r1 == r2,
{
    if r1 < r2 {
        assert(keys[r1 + 1] <= keys[r2]);
    } else if r2 < r1 {
        assert(keys[r2 + 1] <= keys[r1]);
    }
}

/// The lower bracket is the last key not above the query: no later key is at
/// or below it, and when it lies above the query, so does every key.
pub proof fn lemma_bracket_is_last_not_above(keys: Seq<i32>, t: int, r: int)
    requires
        strictly_increasing(keys),
        is_lower_bracket(keys, t, r),
    ensures
        forall|j: int| 0 <= j < keys.len() && #[trigger] keys[j] <= t ==> j <= r,
        keys[r] > t ==> forall|j: int| 0 <= j < keys.len() ==> #[trigger] keys[j] > t,
{
    assert forall|j: int| 0 <= j < keys.len() && #[trigger] keys[j] <= t implies j <= r by {
        if j > r {
            assert(keys[r + 1] <= keys[j]);
        }
    }
}

/// The upper neighbour is the key just above the lower one: it lies above
/// it, and no key lies strictly between them; at the last key it is the last
/// key itself.
pub proof fn lemma_upper_is_next_key(keys: Seq<i32>, r: int)
    requires
        strictly_increasing(keys),
        0 <= r < keys.len(),
    ensures
        0 <= upper_of(keys, r) < keys.len(),
        r + 1 < keys.len() ==> keys[r] < keys[upper_of(keys, r)],
        forall|j: int| 0 <= j < keys.len() && keys[r] < #[trigger] keys[j] ==> keys[upper_of(keys, r)] <= keys[j],
        r == keys.len() - 1 ==> upper_of(keys, r) == r,
{
    assert forall|j: int| 0 <= j < keys.len() && keys[r] < #[trigger] keys[j] implies keys[upper_of(keys, r)] <= keys[j] by {
        if j <= r {
            if j < r {
                assert(keys[j] < keys[r]);
            }
        }
    }
}

/// A larger query never gets a smaller lower bracket: the lookup index is
/// monotone in the query.
pub proof fn lemma_bracket_monotone(keys: Seq<i32>, t1: int, t2: int, r1: int, r2: int)
    requires
        strictly_increasing(keys),
        t1 <= t2,
        is_lower_bracket(keys, t1, r1),
        is_lower_bracket(keys, t2, r2),
    ensures
        r1 <= r2,
{
    if r2 < r1 {
        assert(keys[r2 + 1] <= keys[r1]);
    }
}

/// Within the range of the keys, the lower bracket and its upper neighbour
/// enclose the query, so that the interpolation weight between them lies in
/// [0, 1].
pub proof fn lemma_bracket_spans(keys: Seq<i32>, t: int, r: int)
    requires
        strictly_increasing(keys),
        keys.len() > 0,
        keys[0] <= t <= keys[keys.len() - 1],
        is_lower_bracket(keys, t, r),
    ensures
        keys[r] <= t <= keys[upper_of(keys, r)],
{
    if r + 1 >= keys.len() {
        lemma_bracket_unique(keys, t, r, keys.len() - 1);
    }
}

/// A query that equals a key is bracketed below by that very key.
pub proof fn lemma_bracket_at_key(keys: Seq<i32>, i: int, r: int)
    requires
        strictly_increasing(keys),
        0 <= i < keys.len(),
        is_lower_bracket(keys, keys[i] as int, r),
    ensures
        r == i,
{
    lemma_bracket_unique(keys, keys[i] as int, r, i);
}

/// A query at or above the last key is bracketed by the last key, and its
/// upper neighbour is the last key too.
pub proof fn lemma_bracket_beyond_last(keys: Seq<i32>, t: int, r: int)
    requires
        strictly_increasing(keys),
        keys.len() > 0,
        keys[keys.len() - 1] <= t,
        is_lower_bracket(keys, t, r),
    ensures
        r == keys.len() - 1,
        upper_of(keys, r) == r,
{
    lemma_bracket_unique(keys, t, r, keys.len() - 1);
}


/// The car models for which a steering table is known.
#[derive(Clone, Copy, Debug, PartialEq, Eq, Structural)]
pub enum SteeringModel {
    A424,
}

/// The steering-wheel angle keys (degrees) of the A424 table.
pub open spec fn a424_key_steer_angle() -> Seq<i32> {
    seq![0i32, 10, 20, 30, 40, 50, 60, 75, 90, 110, 140, 180, 230]
}

/// The car speed keys (km/h) of the A424 table.
pub open spec fn a424_key_speed() -> Seq<i32> {
    seq![0i32, 30, 40, 50, 60, 70, 90, 110, 130, 160, 200, 250, 300, 350]
}

impl SteeringModel {
    /// The model named `model`; only "A424" is known.
    pub fn from_name(model: &str) -> (m: Option<SteeringModel>)
        ensures
            m == (if model@ == "A424"@ {
                Some(SteeringModel::A424)
            } else {
                None
            }),
    {
        let given = model.to_owned();
        let known = "A424".to_owned();
        if given == known {
            Some(SteeringModel::A424)
        } else {
            None
        }
    }

    /// The steering-wheel angle keys of this model's table.
    pub fn key_steer_angle(&self) -> (keys: [i32; 13])
        ensures
            keys@ == a424_key_steer_angle(),
            strictly_increasing(keys@),
    {
        let keys: [i32; 13] = [0, 10, 20, 30, 40, 50, 60, 75, 90, 110, 140, 180, 230];
        assert(keys@ =~= a424_key_steer_angle());
        keys
    }

    /// The car speed keys of this model's table.
    pub fn key_speed(&self) -> (keys: [i32; 14])
        ensures
            keys@ == a424_key_speed(),
            strictly_increasing(keys@),
    {
        let keys: [i32; 14] = [0, 30, 40, 50, 60, 70, 90, 110, 130, 160, 200, 250, 300, 350];
        assert(keys@ =~= a424_key_speed());
        keys
    }
}

} // verus!
