//! Turns gestures of a rotary dial into key strokes or commands, chosen by
//! the focused application and the held keyboard modifier.

pub mod text;
pub mod config;
pub mod hid;
pub mod router;
pub mod device;
pub mod keys;
