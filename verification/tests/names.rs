use simwheel::names::{find_wheel, name_bytes, name_len, text_contains, wide_name_len};

#[test]
fn name_len_stops_at_first_nul() {
    assert_eq!(name_len(b"A424\0\0junk"), 4);
    assert_eq!(name_len(b"\0abc"), 0);
}

#[test]
fn name_len_without_nul_is_whole_buffer() {
    assert_eq!(name_len(b"abcdef"), 6);
    assert_eq!(name_len(b""), 0);
}

#[test]
fn wide_name_len_stops_at_first_zero_unit() {
    let units: Vec<u16> = "Simucube\0rest".encode_utf16().collect();
    assert_eq!(wide_name_len(&units), 8);
    let full: Vec<u16> = "Wheel".encode_utf16().collect();
    assert_eq!(wide_name_len(&full), 5);
}

#[test]
fn name_bytes_is_prefix_before_nul() {
    let mut buf = [0u8; 64];
    buf[..9].copy_from_slice(b"ks_ferrar");
    buf[20] = b'x';
    assert_eq!(name_bytes(&buf), b"ks_ferrar".to_vec());
}

#[test]
fn text_contains_finds_substrings() {
    assert!(text_contains("Simucube 2 Pro", "Simucube 2 Pro"));
    assert!(text_contains("SimuCUBE Simucube 2 Pro (USB)", "Simucube 2 Pro"));
    assert!(!text_contains("Simucube 2 Sport", "Simucube 2 Pro"));
    assert!(text_contains("anything", ""));
    assert!(!text_contains("", "x"));
    assert!(text_contains("héllo wörld", "ö"));
}

#[test]
fn find_wheel_picks_first_matching_device() {
    let names = vec![
        "vJoy Device".to_string(),
        "Simucube 2 Pro".to_string(),
        "Simucube 2 Pro (second)".to_string(),
    ];
    assert_eq!(find_wheel(&names), Some(1));
}

#[test]
fn find_wheel_none_when_absent() {
    let names = vec!["vJoy Device".to_string(), "Keyboard".to_string()];
    assert_eq!(find_wheel(&names), None);
    assert_eq!(find_wheel(&Vec::new()), None);
}
