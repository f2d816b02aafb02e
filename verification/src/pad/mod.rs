//! A simple virtual game controller with digital buttons.

pub mod button;
pub mod dpad;
