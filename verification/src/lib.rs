use vstd::prelude::*;

pub mod text;
pub mod num;
pub mod order;
pub mod paths;
pub mod versions;
pub mod results;
pub mod strmap;
pub mod devices;
pub mod names;
pub mod plan;
pub mod monitor;
pub mod active;
pub mod logctx;
pub mod tools;
pub mod summary;
pub mod report;
pub mod snapshot;
pub mod logs;
pub mod status;
pub mod laundry;
pub mod table;
pub mod preflight;
pub mod suites;
pub mod request;
pub mod registry;

verus! {

} // verus!
