//! Verified core of a gameplay-telemetry recording agent.
//!
//! The library covers the pieces that carry the recorder's logic: the
//! normalized input-event model with its stable code tables, the raw-input
//! bitmask decoder, the event debouncer, the idleness tracker, the
//! unsupported-game table check, the input-log codec, session metadata assembly,
//! and the recording orchestrator's state machine.  Device I/O, clocks,
//! channels and the video backend live outside and hand the library plain
//! values.

pub mod debounce;
pub mod events;
pub mod gamepad;
pub mod games;
pub mod hardware;
pub mod idle;
pub mod input_log;
pub mod joystick;
pub mod metadata;
pub mod numfmt;
pub mod orchestrator;
pub mod raw_input;
pub mod rowparse;
pub mod session;
