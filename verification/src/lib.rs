use vstd::prelude::*;

pub mod text;
pub mod types;
pub mod parse;
pub mod numfmt;
pub mod backend;
pub mod config;
pub mod manager;
pub mod levenshtein;
pub mod update;

verus! {

} // verus!
