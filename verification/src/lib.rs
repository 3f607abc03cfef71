//! The decisions of the `zeron` program, verified.
//!
//! Everything that `zeron` works out without touching the outside world stands
//! here: which files a process logs to and which of them are swept, how a log
//! file is claimed next to other live processes, what the environment
//! configures, and what `zeron sync` prints. The program around it reads the
//! clock, the environment, the disk and the network, and hands plain values in.

pub mod config;
pub mod console;
pub mod contention;
pub mod files;
pub mod json;
pub mod mode;
pub mod open;
pub mod panics;
pub mod places;
pub mod sync;
pub mod sync_laws;
pub mod text;
