//! Focus-driven font zooming for terminal windows: a bounded pool of
//! remote-control sessions, the retry protocol that drives it, and the
//! planner that turns focus changes into font adjustments.

pub mod config;
pub mod pool;
pub mod retry;
pub mod registry;
pub mod zoom;
pub mod focus;
pub mod resizer;
pub mod conf;
pub mod service;
pub mod process;
pub mod paths;
