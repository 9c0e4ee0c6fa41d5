//! Research: sources behind a uniform interface, and what turns their raw
//! findings into scored findings and signals.

pub mod adapters;
pub mod processors;
pub mod traits;

pub use processors::{RelevanceScorer, SignalProcessor};
pub use traits::ResearchAdapter;
