//! An interpreter for the CHIP-8 virtual machine.
//!
//! `model` states what every instruction does as functions on a mathematical
//! state; `machine` holds the executable machine, whose methods are proved to
//! follow the model; `laws` proves properties that hold across instructions;
//! `keypad` turns host key events into key-state changes.
pub mod model;
pub mod machine;
pub mod keypad;
pub mod laws;

pub use keypad::{apply_key_event, key_to_chip8_key, KeyEvent};
pub use machine::Chip8;
pub use model::{Fault, VIDEO_HEIGHT, VIDEO_WIDTH};
