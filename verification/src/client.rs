//! What the telemetry client does with each message that arrives on its
//! WebSocket connection to the broadcast endpoint.
use vstd::prelude::*;
use crate::vehicle::{is_vehicle_info_of, parse_vehicle_info, AcsVehicleInfo, VEHICLE_INFO_SIZE};

verus! {

/// Interval, in milliseconds, at which the client pings the server to keep
/// the connection alive.
pub const PING_INTERVAL_MS: u32 = 5_000;

/// A message received on the WebSocket.
#[derive(Debug)]
pub enum WsMessage {
    Binary(Vec<u8>),
    Text(String),
    Ping,
    Pong,
    Close,
}

/// What the client does in response to a message.
#[derive(Debug)]
pub enum ClientAction {
    /// Replace the telemetry shown on the page with this record.
    ShowTelemetry(AcsVehicleInfo),
    /// Warn that a binary message of this many bytes is too short to be a record.
    WarnShortBinary(usize),
    /// Log a text message.
    LogText(String),
    /// Log that a ping arrived.
    LogPing,
    /// Log that a pong arrived.
    LogPong,
    /// Nothing to do.
    Ignore,
}

/// Decides what the client does with one received message: a binary message
/// long enough to hold a vehicle-info record updates the telemetry, a shorter
/// one is reported with its length, text, ping and pong are logged, and
/// anything else is ignored.
pub fn on_message(msg: WsMessage) -> (a: ClientAction)
    ensures
        match msg {
            WsMessage::Binary(bytes) => if bytes@.len() >= VEHICLE_INFO_SIZE {
                a matches ClientAction::ShowTelemetry(info) && is_vehicle_info_of(bytes@, info)
            } else {
                a == ClientAction::WarnShortBinary(bytes@.len() as usize)
            },
            WsMessage::Text(t) => a == ClientAction::LogText(t),
            WsMessage::Ping => a == ClientAction::LogPing,
            WsMessage::Pong => a == ClientAction::LogPong,
            WsMessage::Close => a == ClientAction::Ignore,
        },
{
    match msg {
        WsMessage::Binary(bytes) => match parse_vehicle_info(bytes.as_slice()) {
            Some(info) => ClientAction::ShowTelemetry(info),
            None => ClientAction::WarnShortBinary(bytes.len()),
        },
        WsMessage::Text(t) => ClientAction::LogText(t),
        WsMessage::Ping => ClientAction::LogPing,
        WsMessage::Pong => ClientAction::LogPong,
        WsMessage::Close => ClientAction::Ignore,
    }
}

} // verus!
