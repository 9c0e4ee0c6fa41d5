//! An autonomous research-and-decision core.
//!
//! Research sources are searched for findings; findings are scored, merged
//! and turned into typed signals; a rule table decides what to do about
//! each signal; and results wait in a bounded queue for a remote knowledge
//! service that may be out of reach.
//!
//! - [`research`]: the adapters for the sources, their registry, the
//!   relevance scorer and the signal processor.
//! - [`commander`]: the task scheduler, the decision engine, the
//!   synchronization manager, and the unit that ties them into a control loop.
//! - [`security`] and [`utils`]: input hygiene, hashing, request limits and
//!   idle detection around the core.
//! - [`score`], [`text`], [`sequence`] and [`platform`]: fixed-point
//!   fractions, text as character sequences, positions in sequences, and the
//!   clock, calendar and identifier generator.
//!
//! Whatever waits — for the network, for a timer — happens outside: the
//! library plans the request and takes in the answer.

pub mod score;
pub mod text;
pub mod sequence;
pub mod platform;
pub mod commander;
pub mod research;
pub mod security;
pub mod utils;
