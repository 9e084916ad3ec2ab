use simwheel::vehicle::{parse_vehicle_info, VEHICLE_INFO_SIZE};

fn put_i32(b: &mut [u8], off: usize, v: i32) {
    b[off..off + 4].copy_from_slice(&v.to_le_bytes());
}

fn put_f32(b: &mut [u8], off: usize, v: f32) {
    b[off..off + 4].copy_from_slice(&v.to_le_bytes());
}

fn sample() -> Vec<u8> {
    let mut b = vec![0u8; VEHICLE_INFO_SIZE];
    put_i32(&mut b, 0, 7);
    b[4..4 + 5].copy_from_slice(b"Alice");
    b[68..68 + 9].copy_from_slice(b"ks_ferrar");
    put_f32(&mut b, 132, 42.5);
    put_i32(&mut b, 136, 91_234);
    put_i32(&mut b, 140, 3);
    put_i32(&mut b, 144, 1);
    put_i32(&mut b, 148, 45_000);
    put_i32(&mut b, 152, -1);
    put_f32(&mut b, 156, 1.0);
    put_f32(&mut b, 160, -2.0);
    put_f32(&mut b, 164, 3.5);
    put_i32(&mut b, 168, 0);
    put_i32(&mut b, 172, 1);
    put_i32(&mut b, 176, 2);
    put_i32(&mut b, 180, 4);
    put_f32(&mut b, 184, 0.25);
    put_i32(&mut b, 188, 1);
    for i in 0..4 {
        put_f32(&mut b, 192 + 4 * i, i as f32 * 0.1);
        put_f32(&mut b, 212 + 4 * i, 27.0 + i as f32);
    }
    put_f32(&mut b, 208, 0.75);
    b
}

#[test]
fn record_size_is_packed_layout() {
    assert_eq!(VEHICLE_INFO_SIZE, 228);
}

#[test]
fn parse_decodes_every_field() {
    let info = parse_vehicle_info(&sample()).expect("record");
    assert_eq!(info.car_id, 7);
    assert_eq!(info.driver_name(), b"Alice".to_vec());
    assert_eq!(info.car_model_name(), b"ks_ferrar".to_vec());
    assert_eq!(f32::from_bits(info.speed_ms_bits), 42.5);
    assert_eq!(info.best_lap_ms, 91_234);
    assert_eq!(info.lap_count, 3);
    assert_eq!(info.current_lap_invalid, 1);
    assert_eq!(info.current_lap_time_ms, 45_000);
    assert_eq!(info.last_lap_time_ms, -1);
    assert_eq!(f32::from_bits(info.world_position.x_bits), 1.0);
    assert_eq!(f32::from_bits(info.world_position.y_bits), -2.0);
    assert_eq!(f32::from_bits(info.world_position.z_bits), 3.5);
    assert_eq!(info.is_car_in_pitline, 0);
    assert_eq!(info.is_car_in_pit, 1);
    assert_eq!(info.car_leaderboard_position, 2);
    assert_eq!(info.car_realtime_leaderboard_position, 4);
    assert_eq!(f32::from_bits(info.sp_line_length_bits), 0.25);
    assert_eq!(info.is_connected, 1);
    for i in 0..4 {
        assert_eq!(f32::from_bits(info.suspension_damage_bits[i]), i as f32 * 0.1);
        assert_eq!(f32::from_bits(info.tyre_inflation_bits[i]), 27.0 + i as f32);
    }
    assert_eq!(f32::from_bits(info.engine_life_left_bits), 0.75);
}

#[test]
fn parse_rejects_short_message() {
    let b = sample();
    assert!(parse_vehicle_info(&b[..VEHICLE_INFO_SIZE - 1]).is_none());
    assert!(parse_vehicle_info(&[]).is_none());
}

#[test]
fn parse_ignores_trailing_bytes() {
    let mut b = sample();
    let plain = parse_vehicle_info(&b).unwrap();
    b.extend_from_slice(&[0xff; 10]);
    let longer = parse_vehicle_info(&b).unwrap();
    assert_eq!(plain.car_id, longer.car_id);
    assert_eq!(plain.car_model, longer.car_model);
    assert_eq!(plain.tyre_inflation_bits, longer.tyre_inflation_bits);
    assert_eq!(plain.engine_life_left_bits, longer.engine_life_left_bits);
}

#[test]
fn negative_ints_decode_as_twos_complement() {
    let mut b = sample();
    put_i32(&mut b, 0, i32::MIN);
    put_i32(&mut b, 140, -123_456);
    let info = parse_vehicle_info(&b).unwrap();
    assert_eq!(info.car_id, i32::MIN);
    assert_eq!(info.lap_count, -123_456);
}

#[test]
fn unterminated_model_name_is_whole_field() {
    let mut b = sample();
    for i in 68..132 {
        b[i] = b'M';
    }
    let info = parse_vehicle_info(&b).unwrap();
    assert_eq!(info.car_model_name(), vec![b'M'; 64]);
}
