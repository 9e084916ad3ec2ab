//! Verified core of a steer-by-wire and force-feedback toolkit for a racing
//! simulator: decoding the telemetry the game and the telemetry server
//! publish, picking the steering wheel among the attached controllers, and
//! locating a query in the keys of a speed-dependent steering table.
pub mod bytes;
pub mod client;
pub mod names;
pub mod physics;
pub mod steering;
pub mod vehicle;
