//! Portable timers that handle system sleep consistently across platforms.

pub mod apple;
pub mod backend;
pub mod countdown;
pub mod linux;
pub mod model;
pub mod poll;
pub mod portability;
pub mod procedure;
pub mod schedule;
pub mod smol;
pub mod time;
pub mod tokio;
pub mod windows;
