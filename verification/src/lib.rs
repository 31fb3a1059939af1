//! Slap detection for Apple Silicon laptops: the decisions, formats and rules of the
//! detector, its daemon and the tools around them, each with a proved contract.
use vstd::prelude::*;

pub mod actions;
pub mod analyze;
pub mod archive;
pub mod calibrate;
pub mod client;
pub mod config;
pub mod controller;
pub mod daemon;
pub mod detector;
pub mod error;
pub mod filters;
pub mod fixture;
pub mod launchd;
pub mod meta;
pub mod numeral;
pub mod paths;
pub mod probe;
pub mod protocol;
pub mod pump;
pub mod replay;
pub mod report;
pub mod round_trip;
pub mod scalar;
pub mod sensor;
pub mod server;
pub mod sounds;
pub mod store;
pub mod suite;
pub mod supervisor;
pub mod sweep;
pub mod template;
pub mod text;
pub mod tuning;
pub mod worker;

verus! {

} // verus!
