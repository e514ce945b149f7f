use vstd::prelude::*;

pub mod cache;
pub mod cli;
pub mod commands;
pub mod discovery;
pub mod error;
pub mod guardrail;
pub mod json;
pub mod model;
pub mod ops;
pub mod parse;
pub mod render;
pub mod schema;
pub mod target;
pub mod text;
pub mod transport;
pub mod vendor;

verus! {

} // verus!
