//! Core of a headless multi-track audio recorder that is started and stopped
//! remotely through MIDI control-change messages and OSC packets.

pub mod action;
pub mod config;
pub mod error;
pub mod midi;
pub mod osc;
pub mod session;
pub mod stream;
pub mod text;
pub mod wav;
