//! Monitoring helpers around the core.

pub mod idle_detector;

pub use idle_detector::{IdleCallbackManager, IdleDetector};
