//! Names read from fixed-size, NUL-terminated character buffers, and the
//! search for the steering wheel among the game controllers that are attached.
use vstd::prelude::*;

verus! {

/// `n` is where the name held in `buf` ends: the index of the first NUL,
/// or the whole buffer when it holds none.
pub open spec fn is_name_end<T>(buf: Seq<T>, zero: T, n: int) -> bool {
    &&& 0 <= n <= buf.len()
    &&& forall|i: int| 0 <= i < n ==> buf[i] != zero
    &&& n < buf.len() ==> buf[n] == zero
}

/// A buffer has one name end: the first NUL, or the end of the buffer.
pub proof fn lemma_name_end_unique<T>(buf: Seq<T>, zero: T, n1: int, n2: int)
    requires
        is_name_end(buf, zero, n1),
        is_name_end(buf, zero, n2),
    ensures
        n1 == n2,
{
}

/// A name with no NUL in it, stored followed by a NUL and anything else, or
/// filling the whole buffer, ends exactly where the name does.
pub proof fn lemma_name_end_of_stored_name<T>(name: Seq<T>, zero: T, rest: Seq<T>)
    requires
        forall|i: int| 0 <= i < name.len() ==> name[i] != zero,
    ensures
        is_name_end(name + seq![zero] + rest, zero, name.len() as int),
        is_name_end(name, zero, name.len() as int),
{
    let b = name + seq![zero] + rest;
    assert(b[name.len() as int] == zero);
    assert forall|i: int| 0 <= i < name.len() implies b[i] != zero by {
        assert(b[i] == name[i]);
    }
}

/// Length of the name held in a NUL-terminated buffer of bytes
/// (such as the car model in a vehicle-info record).
pub fn name_len(buf: &[u8]) -> (n: usize)
    ensures
        is_name_end(buf@, 0u8, n as int),
{
    let mut i: usize = 0;
    while i < buf.len()
        invariant
            i <= buf@.len(),
            forall|j: int| 0 <= j < i ==> buf@[j] != 0u8,
        decreases buf@.len() - i,
    {
        if buf[i] == 0 {
            return i;
        }
        i = i + 1;
    }
    i
}

/// Length of the name held in a NUL-terminated buffer of UTF-16 code units
/// (such as the instance name of an input device).
pub fn wide_name_len(buf: &[u16]) -> (n: usize)
    ensures
        is_name_end(buf@, 0u16, n as int),
{
    let mut i: usize = 0;
    while i < buf.len()
        invariant
            i <= buf@.len(),
            forall|j: int| 0 <= j < i ==> buf@[j] != 0u16,
        decreases buf@.len() - i,
    {
        if buf[i] == 0 {
            return i;
        }
        i = i + 1;
    }
    i
}

/// The bytes of the name held in a NUL-terminated buffer: everything before
/// the first NUL.
pub fn name_bytes(buf: &[u8]) -> (name: Vec<u8>)
    ensures
        exists|n: int| #[trigger] is_name_end(buf@, 0u8, n) && name@ == buf@.take(n),
{
    let n = name_len(buf);
    let mut name: Vec<u8> = Vec::new();
    let mut i: usize = 0;
    while i < n
        invariant
            i <= n <= buf@.len(),
            name@ == buf@.take(i as int),
        decreases n - i,
    {
        name.push(buf[i]);
        i = i + 1;
        assert(name@ == buf@.take(i as int));
    }
    assert(is_name_end(buf@, 0u8, n as int));
    name
}

/// `needle` occurs in `hay` starting at position `i`.
pub open spec fn occurs_at(hay: Seq<char>, needle: Seq<char>, i: int) -> bool {
    &&& 0 <= i
    &&& i + needle.len() <= hay.len()
    &&& hay.subrange(i, i + needle.len()) == needle
}

/// `needle` occurs somewhere in `hay` as a contiguous run of characters.
pub open spec fn contains_text(hay: Seq<char>, needle: Seq<char>) -> bool {
    exists|i: int| occurs_at(hay, needle, i)
}

/// `needle` is contained in `hay` exactly when `hay` splits into some text,
/// then `needle` itself, then some more text.
pub proof fn lemma_contains_text_iff_split(hay: Seq<char>, needle: Seq<char>)
    ensures
        contains_text(hay, needle) <==> exists|pre: Seq<char>, post: Seq<char>|
            #![trigger pre + needle + post]
            hay == pre + needle + post,
{
    if contains_text(hay, needle) {
        let i = choose|i: int| occurs_at(hay, needle, i);
        let pre = hay.take(i);
        let post = hay.skip(i + needle.len());
        assert(hay =~= pre + needle + post);
    }
    if exists|pre: Seq<char>, post: Seq<char>| #![trigger pre + needle + post] hay == pre + needle + post {
        let (pre, post) = choose|pre: Seq<char>, post: Seq<char>| #![trigger pre + needle + post] hay
            == pre + needle + post;
        assert(hay.subrange(pre.len() as int, (pre.len() + needle.len()) as int) =~= needle);
        assert(occurs_at(hay, needle, pre.len() as int));
    }
}

/// Every character of a contained text is matched, in order, at the position
/// where it occurs; a text holding a character that `hay` lacks is not
/// contained in it.
pub proof fn lemma_contained_chars_match(hay: Seq<char>, needle: Seq<char>, i: int)
    requires
        occurs_at(hay, needle, i),
    ensures
        forall|k: int| 0 <= k < needle.len() ==> hay[i + k] == #[trigger] needle[k],
        forall|k: int| 0 <= k < needle.len() ==> hay.contains(#[trigger] needle[k]),
{
    assert forall|k: int| 0 <= k < needle.len() implies hay[i + k] == #[trigger] needle[k] by {
        assert(hay.subrange(i, i + needle.len())[k] == hay[i + k]);
    }
    assert forall|k: int| 0 <= k < needle.len() implies hay.contains(#[trigger] needle[k]) by {
        assert(hay.subrange(i, i + needle.len())[k] == hay[i + k]);
        assert(hay[i + k] == needle[k]);
    }
}

/// The characters of `s`, in order.
pub fn chars_of(s: &str) -> (v: Vec<char>)
    ensures
        v@ == s@,
{
    let mut v: Vec<char> = Vec::new();
    for c in it: s.chars()
        invariant
            v@ == it.seq().take(it.index()),
    {
        v.push(c);
    }
    v
}

fn occurs_at_exec(hay: &Vec<char>, needle: &Vec<char>, i: usize) -> (b: bool)
    requires
        i + needle@.len() <= hay@.len(),
    ensures
        b == occurs_at(hay@, needle@, i as int),
{
    let hay_len = hay.len();
    let mut j: usize = 0;
    while j < needle.len()
        invariant
            i + needle@.len() <= hay@.len(),
            hay_len == hay@.len(),
            j <= needle@.len(),
            forall|k: int| 0 <= k < j ==> hay@[i + k] == needle@[k],
        decreases needle@.len() - j,
    {
        if hay[i + j] != needle[j] {
            assert(hay@.subrange(i as int, i + needle@.len())[j as int] != needle@[j as int]);
            return false;
        }
        j = j + 1;
    }
    assert(hay@.subrange(i as int, i + needle@.len()) =~= needle@);
    true
}

/// Whether `needle` occurs in `hay` (`str::contains` with a string pattern).
pub fn text_contains(hay: &str, needle: &str) -> (b: bool)
    ensures
        b == contains_text(hay@, needle@),
{
    let h = chars_of(hay);
    let n = chars_of(needle);
    if n.len() > h.len() {
        return false;
    }
    let last = h.len() - n.len();
    let mut i: usize = 0;
    while i <= last
        invariant
            last + n@.len() == h@.len(),
            h@ == hay@,
            n@ == needle@,
            forall|k: int| 0 <= k < i ==> !occurs_at(hay@, needle@, k),
        decreases last + 1 - i,
    {
        if occurs_at_exec(&h, &n, i) {
            return true;
        }
        if i == last {
            return false;
        }
        i = i + 1;
    }
    false
}

/// The product name by which the steering wheel is recognised among the
/// attached game controllers.
pub open spec fn wheel_product_name() -> Seq<char> {
    "Simucube 2 Pro"@
}

/// The device at `i` is the first one whose name names the wheel.
pub open spec fn is_first_wheel(names: Seq<Seq<char>>, i: int) -> bool {
    &&& 0 <= i < names.len()
    &&& contains_text(names[i], wheel_product_name())
    &&& forall|k: int| 0 <= k < i ==> !contains_text(names[k], wheel_product_name())
}

/// Picks the steering wheel among the attached game controllers, given their
/// instance names in enumeration order: the first whose name contains
/// "Simucube 2 Pro", or `None` when no device does.
pub fn find_wheel(names: &Vec<String>) -> (found: Option<usize>)
    ensures
        found matches Some(i) ==> {
            &&& i < names@.len()
            &&& contains_text(names@[i as int]@, "Simucube 2 Pro"@)
            &&& forall|k: int| 0 <= k < i ==> !contains_text(#[trigger] names@[k]@, "Simucube 2 Pro"@)
        },
        found is None ==> forall|k: int|
            0 <= k < names@.len() ==> !contains_text(#[trigger] names@[k]@, "Simucube 2 Pro"@),
        match found {
            Some(i) => is_first_wheel(names@.map_values(|s: String| s@), i as int),
            None => forall|k: int|
                0 <= k < names@.len() ==> !contains_text(#[trigger] names@[k]@, wheel_product_name()),
        },
{
    let ghost views = names@.map_values(|s: String| s@);
    let wheel = "Simucube 2 Pro";
    let mut i: usize = 0;
    while i < names.len()
        invariant
            i <= names@.len(),
            views == names@.map_values(|s: String| s@),
            wheel@ == wheel_product_name(),
            forall|k: int| 0 <= k < i ==> !contains_text(#[trigger] names@[k]@, wheel_product_name()),
        decreases names@.len() - i,
    {
        if text_contains(names[i].as_str(), wheel) {
            assert(forall|k: int| 0 <= k < i ==> views[k] == names@[k]@);
            return Some(i);
        }
        i = i + 1;
    }
    None
}

} // verus!
