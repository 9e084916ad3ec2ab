//! The per-car telemetry record that the telemetry server broadcasts to its
//! clients as a binary WebSocket message.
//!
//! The record is a packed C struct of 228 bytes, with every multi-byte field
//! stored little-endian.  Floating-point fields are carried as the bit
//! patterns of their `f32` values.
use vstd::prelude::*;
use crate::bytes::{
    i32_le_bytes, le_i32, le_u32, lemma_i32_le_roundtrip, lemma_u32_le_roundtrip, read_bytes_64,
    read_i32_le, read_u32_le, read_u32x4_le, u32_le_bytes,
};
use crate::names::{is_name_end, name_bytes};

verus! {

/// Size in bytes of an encoded vehicle-info record.
pub const VEHICLE_INFO_SIZE: usize = 228;

/// A three-component vector of `f32` values, held as their bit patterns.
#[derive(Clone, Copy, Debug)]
pub struct Vec3 {
    pub x_bits: u32,
    pub y_bits: u32,
    pub z_bits: u32,
}

/// Telemetry of one car, as broadcast by the server.
#[derive(Clone, Copy, Debug)]
pub struct AcsVehicleInfo {
    pub car_id: i32,
    /// NUL-terminated driver name.
    pub driver_name: [u8; 64],
    /// NUL-terminated car model name.
    pub car_model: [u8; 64],
    /// Speed in m/s (bit pattern of an `f32`).
    pub speed_ms_bits: u32,
    pub best_lap_ms: i32,
    pub lap_count: i32,
    pub current_lap_invalid: i32,
    pub current_lap_time_ms: i32,
    pub last_lap_time_ms: i32,
    pub world_position: Vec3,
    pub is_car_in_pitline: i32,
    pub is_car_in_pit: i32,
    pub car_leaderboard_position: i32,
    pub car_realtime_leaderboard_position: i32,
    /// Normalised position along the track spline (bit pattern of an `f32`).
    pub sp_line_length_bits: u32,
    pub is_connected: i32,
    /// Suspension damage per wheel (bit patterns of `f32` values).
    pub suspension_damage_bits: [u32; 4],
    /// Engine life left (bit pattern of an `f32`).
    pub engine_life_left_bits: u32,
    /// Tyre inflation per wheel (bit patterns of `f32` values).
    pub tyre_inflation_bits: [u32; 4],
}

/// `info` is the record whose encoding starts `b`: each field equals the
/// little-endian value at its offset in the packed layout.
pub open spec fn is_vehicle_info_of(b: Seq<u8>, info: AcsVehicleInfo) -> bool {
    &&& b.len() >= VEHICLE_INFO_SIZE
    &&& info.car_id == le_i32(b, 0)
    &&& info.driver_name@ == b.subrange(4, 68)
    &&& info.car_model@ == b.subrange(68, 132)
    &&& info.speed_ms_bits == le_u32(b, 132)
    &&& info.best_lap_ms == le_i32(b, 136)
    &&& info.lap_count == le_i32(b, 140)
    &&& info.current_lap_invalid == le_i32(b, 144)
    &&& info.current_lap_time_ms == le_i32(b, 148)
    &&& info.last_lap_time_ms == le_i32(b, 152)
    &&& info.world_position.x_bits == le_u32(b, 156)
    &&& info.world_position.y_bits == le_u32(b, 160)
    &&& info.world_position.z_bits == le_u32(b, 164)
    &&& info.is_car_in_pitline == le_i32(b, 168)
    &&& info.is_car_in_pit == le_i32(b, 172)
    &&& info.car_leaderboard_position == le_i32(b, 176)
    &&& info.car_realtime_leaderboard_position == le_i32(b, 180)
    &&& info.sp_line_length_bits == le_u32(b, 184)
    &&& info.is_connected == le_i32(b, 188)
    &&& (forall|i: int| 0 <= i < 4 ==> info.suspension_damage_bits@[i] == le_u32(b, 192 + 4 * i))
    &&& info.engine_life_left_bits == le_u32(b, 208)
    &&& (forall|i: int| 0 <= i < 4 ==> info.tyre_inflation_bits@[i] == le_u32(b, 212 + 4 * i))
}

/// Decodes a vehicle-info record from the start of `bytes`.
///
/// Returns `None` when `bytes` is shorter than a record; bytes past the
/// record are ignored.
pub fn parse_vehicle_info(bytes: &[u8]) -> (r: Option<AcsVehicleInfo>)
    ensures
        r is Some <==> bytes@.len() >= VEHICLE_INFO_SIZE,
        r matches Some(info) ==> is_vehicle_info_of(bytes@, info),
{
    if bytes.len() < VEHICLE_INFO_SIZE {
        return None;
    }
    let info = AcsVehicleInfo {
        car_id: read_i32_le(bytes, 0),
        driver_name: read_bytes_64(bytes, 4),
        car_model: read_bytes_64(bytes, 68),
        speed_ms_bits: read_u32_le(bytes, 132),
        best_lap_ms: read_i32_le(bytes, 136),
        lap_count: read_i32_le(bytes, 140),
        current_lap_invalid: read_i32_le(bytes, 144),
        current_lap_time_ms: read_i32_le(bytes, 148),
        last_lap_time_ms: read_i32_le(bytes, 152),
        world_position: Vec3 {
            x_bits: read_u32_le(bytes, 156),
            y_bits: read_u32_le(bytes, 160),
            z_bits: read_u32_le(bytes, 164),
        },
        is_car_in_pitline: read_i32_le(bytes, 168),
        is_car_in_pit: read_i32_le(bytes, 172),
        car_leaderboard_position: read_i32_le(bytes, 176),
        car_realtime_leaderboard_position: read_i32_le(bytes, 180),
        sp_line_length_bits: read_u32_le(bytes, 184),
        is_connected: read_i32_le(bytes, 188),
        suspension_damage_bits: read_u32x4_le(bytes, 192),
        engine_life_left_bits: read_u32_le(bytes, 208),
        tyre_inflation_bits: read_u32x4_le(bytes, 212),
    };
    Some(info)
}

impl AcsVehicleInfo {
    /// The bytes of the car model name: those before its first NUL.
    pub fn car_model_name(&self) -> (name: Vec<u8>)
        ensures
            exists|n: int| #[trigger] is_name_end(self.car_model@, 0u8, n) && name@ == self.car_model@.take(n),
    {
        name_bytes(&self.car_model)
    }

    /// The bytes of the driver name: those before its first NUL.
    pub fn driver_name(&self) -> (name: Vec<u8>)
        ensures
            exists|n: int| #[trigger] is_name_end(self.driver_name@, 0u8, n) && name@ == self.driver_name@.take(n),
    {
        name_bytes(&self.driver_name)
    }
}

/// A record is decoded from its first 228 bytes alone: bytes appended after
/// them do not change what is decoded.
pub proof fn lemma_vehicle_info_ignores_trailing(b: Seq<u8>, extra: Seq<u8>, info: AcsVehicleInfo)
    requires
        is_vehicle_info_of(b, info),
    ensures
        is_vehicle_info_of(b + extra, info),
{
    let c = b + extra;
    assert(c.subrange(4, 68) =~= b.subrange(4, 68));
    assert(c.subrange(68, 132) =~= b.subrange(68, 132));
    assert forall|off: int| 0 <= off <= VEHICLE_INFO_SIZE - 4 implies le_u32(c, off) == le_u32(b, off) by {
        assert(c[off] == b[off] && c[off + 1] == b[off + 1] && c[off + 2] == b[off + 2] && c[off + 3] == b[off + 3]);
    }
}

/// The bytes of a record determine it: two records decoded from the same
/// bytes are equal.
pub proof fn lemma_vehicle_info_unique(b: Seq<u8>, i1: AcsVehicleInfo, i2: AcsVehicleInfo)
    requires
        is_vehicle_info_of(b, i1),
        is_vehicle_info_of(b, i2),
    ensures
        i1 == i2,
{
    assert(i1.driver_name =~= i2.driver_name);
    assert(i1.car_model =~= i2.car_model);
    assert(i1.suspension_damage_bits =~= i2.suspension_damage_bits);
    assert(i1.tyre_inflation_bits =~= i2.tyre_inflation_bits);
}

/// The encoding of four `f32` bit patterns, one after another.
pub open spec fn u32x4_le_bytes(a: [u32; 4]) -> Seq<u8> {
    u32_le_bytes(a@[0]) + u32_le_bytes(a@[1]) + u32_le_bytes(a@[2]) + u32_le_bytes(a@[3])
}

/// The first three fields of an encoded record: car id and the two names.
#[verifier::opaque]
pub open spec fn encode_head(info: AcsVehicleInfo) -> Seq<u8> {
    i32_le_bytes(info.car_id) + info.driver_name@ + info.car_model@
}

/// The encoded record up to the lap times.
#[verifier::opaque]
pub open spec fn encode_laps(info: AcsVehicleInfo) -> Seq<u8> {
    encode_head(info) + u32_le_bytes(info.speed_ms_bits) + i32_le_bytes(info.best_lap_ms)
        + i32_le_bytes(info.lap_count) + i32_le_bytes(info.current_lap_invalid) + i32_le_bytes(
        info.current_lap_time_ms,
    ) + i32_le_bytes(info.last_lap_time_ms)
}

/// The encoded record up to the world position.
#[verifier::opaque]
pub open spec fn encode_position(info: AcsVehicleInfo) -> Seq<u8> {
    encode_laps(info) + u32_le_bytes(info.world_position.x_bits) + u32_le_bytes(
        info.world_position.y_bits,
    ) + u32_le_bytes(info.world_position.z_bits)
}

/// The encoded record up to the leaderboard positions.
#[verifier::opaque]
pub open spec fn encode_standing(info: AcsVehicleInfo) -> Seq<u8> {
    encode_position(info) + i32_le_bytes(info.is_car_in_pitline) + i32_le_bytes(
        info.is_car_in_pit,
    ) + i32_le_bytes(info.car_leaderboard_position) + i32_le_bytes(
        info.car_realtime_leaderboard_position,
    )
}

/// The encoded record up to the connection flag.
#[verifier::opaque]
pub open spec fn encode_track(info: AcsVehicleInfo) -> Seq<u8> {
    encode_standing(info) + u32_le_bytes(info.sp_line_length_bits) + i32_le_bytes(
        info.is_connected,
    )
}

/// The encoding of a record as the server sends it: its fields in
/// declaration order, packed with no padding, each multi-byte value
/// little-endian.
pub open spec fn encode_vehicle_info(info: AcsVehicleInfo) -> Seq<u8> {
    encode_track(info) + u32x4_le_bytes(info.suspension_damage_bits) + u32_le_bytes(
        info.engine_life_left_bits,
    ) + u32x4_le_bytes(info.tyre_inflation_bits)
}

proof fn lemma_u32_field(b: Seq<u8>, off: int, x: u32)
    requires
        0 <= off,
        off + 4 <= b.len(),
        b.subrange(off, off + 4) == u32_le_bytes(x),
    ensures
        le_u32(b, off) == x,
{
    lemma_u32_le_roundtrip(b.take(off), x, b.skip(off + 4));
    assert(b =~= b.take(off) + u32_le_bytes(x) + b.skip(off + 4));
}

proof fn lemma_i32_field(b: Seq<u8>, off: int, x: i32)
    requires
        0 <= off,
        off + 4 <= b.len(),
        b.subrange(off, off + 4) == i32_le_bytes(x),
    ensures
        le_i32(b, off) == x,
{
    lemma_i32_le_roundtrip(b.take(off), x, b.skip(off + 4));
    assert(b =~= b.take(off) + i32_le_bytes(x) + b.skip(off + 4));
}

/// Fields read within a prefix read the same in the whole buffer.
proof fn lemma_prefix_reads(big: Seq<u8>, small: Seq<u8>)
    requires
        small.len() <= big.len(),
        big.take(small.len() as int) == small,
    ensures
        forall|off: int|
            0 <= off && off + 4 <= small.len() ==> #[trigger] le_u32(big, off) == le_u32(small, off),
        forall|off: int|
            0 <= off && off + 4 <= small.len() ==> #[trigger] le_i32(big, off) == le_i32(small, off),
        forall|i: int, j: int|
            0 <= i <= j <= small.len() ==> #[trigger] big.subrange(i, j) == small.subrange(i, j),
{
    assert forall|off: int| 0 <= off && off + 4 <= small.len() implies #[trigger] le_u32(big, off)
        == le_u32(small, off) by {
        assert(big[off] == small[off] && big[off + 1] == small[off + 1] && big[off + 2] == small[off
            + 2] && big[off + 3] == small[off + 3]);
    }
    assert forall|i: int, j: int| 0 <= i <= j <= small.len() implies #[trigger] big.subrange(i, j)
        == small.subrange(i, j) by {
        assert(big.subrange(i, j) =~= small.subrange(i, j));
    }
}

proof fn lemma_encode_head(info: AcsVehicleInfo)
    ensures
        encode_head(info).len() == 132,
        le_i32(encode_head(info), 0) == info.car_id,
        encode_head(info).subrange(4, 68) == info.driver_name@,
        encode_head(info).subrange(68, 132) == info.car_model@,
{
    reveal(encode_head);
    let e = encode_head(info);
    lemma_i32_le_roundtrip(Seq::empty(), info.car_id, Seq::empty());
    assert(e.subrange(0, 4) =~= i32_le_bytes(info.car_id));
    lemma_i32_field(e, 0, info.car_id);
    assert(e.subrange(4, 68) =~= info.driver_name@);
    assert(e.subrange(68, 132) =~= info.car_model@);
}

proof fn lemma_encode_laps(info: AcsVehicleInfo)
    ensures
        encode_laps(info).len() == 156,
        encode_laps(info).take(132) == encode_head(info),
        le_u32(encode_laps(info), 132) == info.speed_ms_bits,
        le_i32(encode_laps(info), 136) == info.best_lap_ms,
        le_i32(encode_laps(info), 140) == info.lap_count,
        le_i32(encode_laps(info), 144) == info.current_lap_invalid,
        le_i32(encode_laps(info), 148) == info.current_lap_time_ms,
        le_i32(encode_laps(info), 152) == info.last_lap_time_ms,
{
    reveal(encode_laps);
    lemma_encode_head(info);
    let e = encode_laps(info);
    lemma_u32_le_roundtrip(Seq::empty(), 0, Seq::empty());
    lemma_i32_le_roundtrip(Seq::empty(), 0, Seq::empty());
    assert(e.take(132) =~= encode_head(info));
    assert(e.subrange(132, 136) =~= u32_le_bytes(info.speed_ms_bits));
    lemma_u32_field(e, 132, info.speed_ms_bits);
    assert(e.subrange(136, 140) =~= i32_le_bytes(info.best_lap_ms));
    lemma_i32_field(e, 136, info.best_lap_ms);
    assert(e.subrange(140, 144) =~= i32_le_bytes(info.lap_count));
    lemma_i32_field(e, 140, info.lap_count);
    assert(e.subrange(144, 148) =~= i32_le_bytes(info.current_lap_invalid));
    lemma_i32_field(e, 144, info.current_lap_invalid);
    assert(e.subrange(148, 152) =~= i32_le_bytes(info.current_lap_time_ms));
    lemma_i32_field(e, 148, info.current_lap_time_ms);
    assert(e.subrange(152, 156) =~= i32_le_bytes(info.last_lap_time_ms));
    lemma_i32_field(e, 152, info.last_lap_time_ms);
}

proof fn lemma_encode_position(info: AcsVehicleInfo)
    ensures
        encode_position(info).len() == 168,
        encode_position(info).take(156) == encode_laps(info),
        le_u32(encode_position(info), 156) == info.world_position.x_bits,
        le_u32(encode_position(info), 160) == info.world_position.y_bits,
        le_u32(encode_position(info), 164) == info.world_position.z_bits,
{
    reveal(encode_position);
    lemma_encode_laps(info);
    let e = encode_position(info);
    lemma_u32_le_roundtrip(Seq::empty(), 0, Seq::empty());
    assert(e.take(156) =~= encode_laps(info));
    assert(e.subrange(156, 160) =~= u32_le_bytes(info.world_position.x_bits));
    lemma_u32_field(e, 156, info.world_position.x_bits);
    assert(e.subrange(160, 164) =~= u32_le_bytes(info.world_position.y_bits));
    lemma_u32_field(e, 160, info.world_position.y_bits);
    assert(e.subrange(164, 168) =~= u32_le_bytes(info.world_position.z_bits));
    lemma_u32_field(e, 164, info.world_position.z_bits);
}

proof fn lemma_encode_standing(info: AcsVehicleInfo)
    ensures
        encode_standing(info).len() == 184,
        encode_standing(info).take(168) == encode_position(info),
        le_i32(encode_standing(info), 168) == info.is_car_in_pitline,
        le_i32(encode_standing(info), 172) == info.is_car_in_pit,
        le_i32(encode_standing(info), 176) == info.car_leaderboard_position,
        le_i32(encode_standing(info), 180) == info.car_realtime_leaderboard_position,
{
    reveal(encode_standing);
    lemma_encode_position(info);
    let e = encode_standing(info);
    lemma_i32_le_roundtrip(Seq::empty(), 0, Seq::empty());
    assert(e.take(168) =~= encode_position(info));
    assert(e.subrange(168, 172) =~= i32_le_bytes(info.is_car_in_pitline));
    lemma_i32_field(e, 168, info.is_car_in_pitline);
    assert(e.subrange(172, 176) =~= i32_le_bytes(info.is_car_in_pit));
    lemma_i32_field(e, 172, info.is_car_in_pit);
    assert(e.subrange(176, 180) =~= i32_le_bytes(info.car_leaderboard_position));
    lemma_i32_field(e, 176, info.car_leaderboard_position);
    assert(e.subrange(180, 184) =~= i32_le_bytes(info.car_realtime_leaderboard_position));
    lemma_i32_field(e, 180, info.car_realtime_leaderboard_position);
}

proof fn lemma_encode_track(info: AcsVehicleInfo)
    ensures
        encode_track(info).len() == 192,
        encode_track(info).take(184) == encode_standing(info),
        le_u32(encode_track(info), 184) == info.sp_line_length_bits,
        le_i32(encode_track(info), 188) == info.is_connected,
{
    reveal(encode_track);
    lemma_encode_standing(info);
    let e = encode_track(info);
    lemma_u32_le_roundtrip(Seq::empty(), 0, Seq::empty());
    lemma_i32_le_roundtrip(Seq::empty(), 0, Seq::empty());
    assert(e.take(184) =~= encode_standing(info));
    assert(e.subrange(184, 188) =~= u32_le_bytes(info.sp_line_length_bits));
    lemma_u32_field(e, 184, info.sp_line_length_bits);
    assert(e.subrange(188, 192) =~= i32_le_bytes(info.is_connected));
    lemma_i32_field(e, 188, info.is_connected);
}

proof fn lemma_encode_tail(info: AcsVehicleInfo)
    ensures
        encode_vehicle_info(info).len() == VEHICLE_INFO_SIZE,
        encode_vehicle_info(info).take(192) == encode_track(info),
        forall|i: int| 0 <= i < 4 ==> info.suspension_damage_bits@[i] == le_u32(encode_vehicle_info(info), 192 + 4 * i),
        le_u32(encode_vehicle_info(info), 208) == info.engine_life_left_bits,
        forall|i: int| 0 <= i < 4 ==> info.tyre_inflation_bits@[i] == le_u32(encode_vehicle_info(info), 212 + 4 * i),
{
    lemma_encode_track(info);
    let e = encode_vehicle_info(info);
    lemma_u32_le_roundtrip(Seq::empty(), 0, Seq::empty());
    assert(e.take(192) =~= encode_track(info));
    assert forall|i: int| 0 <= i < 4 implies info.suspension_damage_bits@[i] == le_u32(e, 192 + 4 * i) by {
        assert(e.subrange(192 + 4 * i, 196 + 4 * i) =~= u32_le_bytes(info.suspension_damage_bits@[i]));
        lemma_u32_field(e, 192 + 4 * i, info.suspension_damage_bits@[i]);
    }
    assert(e.subrange(208, 212) =~= u32_le_bytes(info.engine_life_left_bits));
    lemma_u32_field(e, 208, info.engine_life_left_bits);
    assert forall|i: int| 0 <= i < 4 implies info.tyre_inflation_bits@[i] == le_u32(e, 212 + 4 * i) by {
        assert(e.subrange(212 + 4 * i, 216 + 4 * i) =~= u32_le_bytes(info.tyre_inflation_bits@[i]));
        lemma_u32_field(e, 212 + 4 * i, info.tyre_inflation_bits@[i]);
    }
}

/// Decoding the encoding of any record, with any bytes after it, gives that
/// record back, and nothing else.
pub proof fn lemma_vehicle_info_roundtrip(info: AcsVehicleInfo, extra: Seq<u8>)
    ensures
        encode_vehicle_info(info).len() == VEHICLE_INFO_SIZE,
        is_vehicle_info_of(encode_vehicle_info(info) + extra, info),
        forall|other: AcsVehicleInfo|
            is_vehicle_info_of(encode_vehicle_info(info) + extra, other) ==> other == info,
{
    let e = encode_vehicle_info(info);
    lemma_encode_tail(info);
    lemma_encode_track(info);
    lemma_encode_standing(info);
    lemma_encode_position(info);
    lemma_encode_laps(info);
    lemma_encode_head(info);
    lemma_prefix_reads(e, encode_track(info));
    lemma_prefix_reads(encode_track(info), encode_standing(info));
    lemma_prefix_reads(encode_standing(info), encode_position(info));
    lemma_prefix_reads(encode_position(info), encode_laps(info));
    lemma_prefix_reads(encode_laps(info), encode_head(info));
    assert(is_vehicle_info_of(e, info));
    lemma_vehicle_info_ignores_trailing(e, extra, info);
    assert forall|other: AcsVehicleInfo|
        is_vehicle_info_of(e + extra, other) implies other == info by {
        lemma_vehicle_info_unique(e + extra, other, info);
    }
}

} // verus!
