//! The privileged helper that writes images to devices and reads them back: its
//! device naming, the plans it follows for direct and `dd`-based I/O, how it
//! checks what it wrote, how it throttles progress reports, and how its daemon
//! picks up tasks.

pub mod device_paths;
pub mod plan;
pub mod tracker;
pub mod daemon;
