//! Tracks and acquires episodes of series: parsing release titles, keeping
//! the durable record of each pull, and the decisions of the search,
//! completion and reconciliation rounds.
use vstd::prelude::*;

pub mod text;
pub mod episode;
pub mod model;
pub mod parser;
pub mod store;
pub mod engine;
pub mod service;
pub mod status;

verus! {

} // verus!
