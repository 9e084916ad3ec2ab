use simwheel::physics::{read_physics, PHYSICS_PAGE_SIZE};

fn page(steer: f32, speed: f32, ff: f32) -> Vec<u8> {
    let mut b = vec![0xAAu8; PHYSICS_PAGE_SIZE];
    b[24..28].copy_from_slice(&steer.to_le_bytes());
    b[28..32].copy_from_slice(&speed.to_le_bytes());
    b[308..312].copy_from_slice(&ff.to_le_bytes());
    b
}

#[test]
fn page_size_matches_struct_layout() {
    assert_eq!(PHYSICS_PAGE_SIZE, 592);
}

#[test]
fn reads_steer_speed_and_force_feedback() {
    let p = read_physics(&page(-0.5, 187.25, 0.8125)).expect("page");
    assert_eq!(f32::from_bits(p.steer_angle_bits), -0.5);
    assert_eq!(f32::from_bits(p.speed_kmh_bits), 187.25);
    assert_eq!(f32::from_bits(p.final_ff_bits), 0.8125);
}

#[test]
fn short_page_is_rejected() {
    let b = page(0.0, 0.0, 0.0);
    assert!(read_physics(&b[..PHYSICS_PAGE_SIZE - 1]).is_none());
    assert!(read_physics(&[]).is_none());
}

#[test]
fn trailing_bytes_do_not_change_fields() {
    let mut b = page(1.5, 2.5, -0.25);
    let plain = read_physics(&b).unwrap();
    b.extend_from_slice(&[1, 2, 3, 4, 5]);
    assert_eq!(read_physics(&b), Some(plain));
}
