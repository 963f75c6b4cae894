//! Survey definitions, response paths and collected responses, with the
//! decision logic of the survey backends, specified and verified.
use vstd::prelude::*;

pub mod text;
pub mod path;
pub mod value;
pub mod responses;
pub mod question;
pub mod test_backend;
pub mod builder;
pub mod error;
pub mod interview;
pub mod naming;
pub mod derive;
pub mod cli;
pub mod flat;
pub mod wizard;
pub mod infer;
pub mod fields;
pub mod display;

verus! {
} // verus!
