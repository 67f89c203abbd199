//! Auditing the network of an AWS account: what is collected, how it becomes a
//! graph, and which interfaces can reach a regulated boundary.
use vstd::prelude::*;

pub mod audit;
pub mod calendar;
pub mod domain;
pub mod error;
pub mod evaluate;
pub mod graph;
pub mod ingest;
pub mod laws;
pub mod migrations;
pub mod net;
pub mod ports;
pub mod progress;
pub mod text;

verus! {

} // verus!
