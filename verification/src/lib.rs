//! Verified core of an SD-card image flasher: text and number handling,
//! device discovery logic, the task queue, and the helper's I/O planning.

pub mod text;
pub mod number;
pub mod device;
pub mod command;
pub mod engine;
pub mod platform;
pub mod helper;
pub mod permission;
