use simwheel::steering::{bracket, SteeringModel};

#[test]
fn model_from_name_knows_a424_only() {
    assert_eq!(SteeringModel::from_name("A424"), Some(SteeringModel::A424));
    assert_eq!(SteeringModel::from_name("A425"), None);
    assert_eq!(SteeringModel::from_name("a424"), None);
    assert_eq!(SteeringModel::from_name(""), None);
}

#[test]
fn a424_keys() {
    let m = SteeringModel::A424;
    assert_eq!(m.key_steer_angle(), [0, 10, 20, 30, 40, 50, 60, 75, 90, 110, 140, 180, 230]);
    assert_eq!(m.key_speed(), [0, 30, 40, 50, 60, 70, 90, 110, 130, 160, 200, 250, 300, 350]);
}

#[test]
fn bracket_between_keys() {
    let keys = SteeringModel::A424.key_speed();
    assert_eq!(bracket(&keys, 35), (1, 2));
    assert_eq!(bracket(&keys, 199), (9, 10));
}

#[test]
fn bracket_on_a_key() {
    let keys = SteeringModel::A424.key_speed();
    assert_eq!(bracket(&keys, 0), (0, 1));
    assert_eq!(bracket(&keys, 40), (2, 3));
    assert_eq!(bracket(&keys, 350), (13, 13));
}

#[test]
fn bracket_below_first_key_saturates() {
    let keys = SteeringModel::A424.key_steer_angle();
    assert_eq!(bracket(&keys, -10), (0, 1));
    assert_eq!(bracket(&keys, i32::MIN), (0, 1));
}

#[test]
fn bracket_beyond_last_key() {
    let keys = SteeringModel::A424.key_steer_angle();
    assert_eq!(bracket(&keys, 231), (12, 12));
    assert_eq!(bracket(&keys, i32::MAX), (12, 12));
}

#[test]
fn bracket_single_key() {
    assert_eq!(bracket(&[5], 0), (0, 0));
    assert_eq!(bracket(&[5], 5), (0, 0));
    assert_eq!(bracket(&[5], 9), (0, 0));
}

#[test]
fn bracket_is_monotone_over_range() {
    let keys = SteeringModel::A424.key_speed();
    let mut prev = 0;
    for t in -20..400 {
        let (lo, hi) = bracket(&keys, t);
        assert!(lo >= prev);
        assert!(keys[lo] <= t || lo == 0);
        assert!(hi == lo + 1 || hi == keys.len() - 1);
        prev = lo;
    }
}

#[test]
fn bracket_spans_query_within_key_range() {
    let keys = SteeringModel::A424.key_steer_angle();
    for t in 0..=230 {
        let (lo, hi) = bracket(&keys, t);
        assert!(keys[lo] <= t && t <= keys[hi], "t = {}", t);
    }
}
