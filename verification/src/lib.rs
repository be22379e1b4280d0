//! Decoding and bookkeeping for low-level mouse, keyboard and HID input events.

pub mod bytes;
pub mod text;
pub mod hid;
pub mod keyboard;
pub mod mouse;
pub mod state;
pub mod keyed;
pub mod aliases;
pub mod raw_input;
pub mod ui;
pub mod laws;
pub mod decoding_laws;
