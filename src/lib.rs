//! Protocol engine for a class-compliant DJ control surface:
//! raw hardware frames in, MIDI control-change events out, and LED state
//! re-encoded into the candidate wire formats the device may accept.
//!
//! - `board`: named controls and their descriptors, validated once.
//! - `engine`: per-control state and the frame decoder.
//! - `leds` and `sync`: LED arrays, inbound MIDI to LEDs, and wire payloads.
//! - `session`: raw reads to frames, read-error classes, session phases, menu commands.
//! - `laws`: properties of the decoder and the synchronizer.
pub mod bits;
pub mod scale;
pub mod board;
pub mod midi;
pub mod leds;
pub mod engine;
pub mod sync;
pub mod session;
pub mod laws;
