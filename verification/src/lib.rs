//! A PTY session manager: owns pseudo-terminal sessions behind integer
//! identifiers and exposes a small control surface (spawn, write, resize,
//! kill, list) plus a per-session reader state machine that turns raw read
//! outcomes into data/exit notifications.
//!
//! The registry and every control decision are verified here; the host
//! process performs the actual OS work (opening PTYs, spawning children,
//! blocking reads and writes) and consults this library for every decision.

pub mod errors;
pub mod options;
pub mod reader;
pub mod registry;

pub use errors::PtyError;
pub use options::SpawnOptions;
pub use options::merged_env;
pub use reader::PtyNotification;
pub use reader::ReadOutcome;
pub use reader::ReaderLoop;
pub use registry::PtySession;
pub use registry::PtyState;
