//! Resource-usage metrics of the running process, shaped for an HTTP endpoint.
//!
//! A [`Meter`] is a handle on one [`Collector`] behind a lock. The collector
//! samples the process and the threads that were tracked, and hands out
//! owned reports; [`tracking`] says which threads a report lists after which
//! calls. [`json`] puts the reports into one JSON document, [`routing`] says
//! which resource a request asks for, and [`reply`] what it is answered with.
//! [`text`] holds the facts on UTF-8 that let the routing work on bytes.

pub mod collector;
pub mod data;
pub mod failure;
pub mod json;
pub mod locked;
pub mod reply;
pub mod report;
pub mod routing;
pub mod text;
pub mod tracking;

pub use collector::Collector;
pub use failure::Failure;
pub use locked::Meter;
pub use reply::{Body, Framing, Reply, Status};
pub use report::{ProcessReport, Report, ThreadReport};
pub use routing::{Error, Route};
