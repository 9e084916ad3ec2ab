use simwheel::client::{on_message, ClientAction, WsMessage, PING_INTERVAL_MS};
use simwheel::vehicle::VEHICLE_INFO_SIZE;

#[test]
fn ping_interval_is_five_seconds() {
    assert_eq!(PING_INTERVAL_MS, 5_000);
}

#[test]
fn full_binary_message_updates_telemetry() {
    let mut b = vec![0u8; VEHICLE_INFO_SIZE];
    b[0..4].copy_from_slice(&12i32.to_le_bytes());
    match on_message(WsMessage::Binary(b)) {
        ClientAction::ShowTelemetry(info) => assert_eq!(info.car_id, 12),
        other => panic!("unexpected {:?}", other),
    }
}

#[test]
fn short_binary_message_is_reported_with_length() {
    match on_message(WsMessage::Binary(vec![1, 2, 3])) {
        ClientAction::WarnShortBinary(n) => assert_eq!(n, 3),
        other => panic!("unexpected {:?}", other),
    }
}

#[test]
fn text_ping_pong_close() {
    match on_message(WsMessage::Text("hello".to_string())) {
        ClientAction::LogText(t) => assert_eq!(t, "hello"),
        other => panic!("unexpected {:?}", other),
    }
    assert!(matches!(on_message(WsMessage::Ping), ClientAction::LogPing));
    assert!(matches!(on_message(WsMessage::Pong), ClientAction::LogPong));
    assert!(matches!(on_message(WsMessage::Close), ClientAction::Ignore));
}
