//! A bounded-concurrency pipeline that fetches paginated listing pages,
//! extracts quote records from their markup and aggregates them.
//!
//! - [`record`]: the extracted record.
//! - [`markup`], [`extract`]: the HTML engine's boundary, and the extraction
//!   of the records of one page.
//! - [`address`], [`fetch`]: the address of a page, and what a reply to its
//!   request means.
//! - [`admission`]: the permits that bound the number of concurrent fetches.
//! - [`model`], [`preservation`], [`laws`]: the pipeline as a state machine,
//!   its invariant, and what holds of every run.
//! - [`coordinator`]: the executable state of a run, which tells its caller
//!   what to do next.
//! - [`config`]: the configuration of a run and the context built from it.
//!
//! The library performs no request and starts no task itself: its caller does
//! and reports what came back.

pub mod address;
pub mod admission;
pub mod config;
pub mod coordinator;
pub mod extract;
pub mod fetch;
pub mod laws;
pub mod markup;
pub mod model;
pub mod preservation;
pub mod record;
