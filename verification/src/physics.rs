//! The physics page that the simulator publishes in shared memory
//! (`Local\acpmf_physics`).
//!
//! The page is a C struct of 592 bytes made of 4-byte fields (`i32` and
//! `f32`), stored little-endian.  The controllers read three of them: the
//! steering angle, the car speed and the force-feedback value that the game
//! computed for the wheel.  Floating-point fields are carried as the bit
//! patterns of their `f32` values.
use vstd::prelude::*;
use crate::bytes::{le_u32, lemma_u32_le_roundtrip, read_u32_le, u32_le_bytes};

verus! {

/// Size in bytes of the physics page.
pub const PHYSICS_PAGE_SIZE: usize = 592;

/// Offset of `steerAngle` in the page.
pub const STEER_ANGLE_OFFSET: usize = 24;

/// Offset of `speedKmh` in the page.
pub const SPEED_KMH_OFFSET: usize = 28;

/// Offset of `finalFF` in the page.
pub const FINAL_FF_OFFSET: usize = 308;

/// The fields of the physics page that the controllers read.
#[derive(Clone, Copy, Debug, PartialEq, Eq, Structural)]
pub struct SPageFilePhysics {
    /// Steering angle (bit pattern of an `f32`).
    pub steer_angle_bits: u32,
    /// Car speed in km/h (bit pattern of an `f32`).
    pub speed_kmh_bits: u32,
    /// Force feedback sent to the wheel (bit pattern of an `f32`).
    pub final_ff_bits: u32,
}

/// `p` holds the fields that `page` stores at their offsets.
pub open spec fn is_physics_of(page: Seq<u8>, p: SPageFilePhysics) -> bool {
    &&& page.len() >= PHYSICS_PAGE_SIZE
    &&& p.steer_angle_bits == le_u32(page, STEER_ANGLE_OFFSET as int)
    &&& p.speed_kmh_bits == le_u32(page, SPEED_KMH_OFFSET as int)
    &&& p.final_ff_bits == le_u32(page, FINAL_FF_OFFSET as int)
}

/// Reads the fields the controllers use from a copy of the physics page.
///
/// Returns `None` when `page` is shorter than the page.
pub fn read_physics(page: &[u8]) -> (r: Option<SPageFilePhysics>)
    ensures
        r is Some <==> page@.len() >= PHYSICS_PAGE_SIZE,
        r matches Some(p) ==> is_physics_of(page@, p),
{
    if page.len() < PHYSICS_PAGE_SIZE {
        return None;
    }
    Some(
        SPageFilePhysics {
            steer_angle_bits: read_u32_le(page, STEER_ANGLE_OFFSET),
            speed_kmh_bits: read_u32_le(page, SPEED_KMH_OFFSET),
            final_ff_bits: read_u32_le(page, FINAL_FF_OFFSET),
        },
    )
}

/// The fields are read from the first 592 bytes alone: bytes appended after
/// the page do not change them.
pub proof fn lemma_physics_ignores_trailing(page: Seq<u8>, extra: Seq<u8>, p: SPageFilePhysics)
    requires
        is_physics_of(page, p),
    ensures
        is_physics_of(page + extra, p),
{
    let q = page + extra;
    assert forall|off: int| 0 <= off <= PHYSICS_PAGE_SIZE - 4 implies le_u32(q, off) == le_u32(page, off) by {
        assert(q[off] == page[off] && q[off + 1] == page[off + 1] && q[off + 2] == page[off + 2]
            && q[off + 3] == page[off + 3]);
    }
}

/// Whatever `f32` values (as bit patterns) the game wrote at the page's
/// `steerAngle` (bytes 24..28), `speedKmh` (28..32) and `finalFF`
/// (308..312) fields, little-endian, are the values read back, sign bit
/// included; the other bytes of the page do not matter.
pub proof fn lemma_physics_reads_written_fields(
    page: Seq<u8>,
    steer: u32,
    speed: u32,
    force: u32,
    p: SPageFilePhysics,
)
    requires
        page.len() >= 592,
        page.subrange(24, 28) == u32_le_bytes(steer),
        page.subrange(28, 32) == u32_le_bytes(speed),
        page.subrange(308, 312) == u32_le_bytes(force),
        is_physics_of(page, p),
    ensures
        p == (SPageFilePhysics { steer_angle_bits: steer, speed_kmh_bits: speed, final_ff_bits: force }),
{
    lemma_u32_le_roundtrip(page.take(24), steer, page.skip(28));
    assert(page =~= page.take(24) + u32_le_bytes(steer) + page.skip(28));
    lemma_u32_le_roundtrip(page.take(28), speed, page.skip(32));
    assert(page =~= page.take(28) + u32_le_bytes(speed) + page.skip(32));
    lemma_u32_le_roundtrip(page.take(308), force, page.skip(312));
    assert(page =~= page.take(308) + u32_le_bytes(force) + page.skip(312));
}

} // verus!
