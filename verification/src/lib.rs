//! A command-line launcher core: it classifies CLI tokens, builds an argument
//! model with three redirection slots (stdin/stdout/stderr), validates the
//! slots, compiles the trailing command line into chains of piped stages with
//! temporary-directory placeholder substitution, and decides redirection,
//! atomic-overwrite and sequencing actions for an execution loop.

use vstd::prelude::*;

pub mod args;
pub mod clp;
pub mod compile;
pub mod engine;
pub mod errors;
pub mod strutil;
pub mod textsub;
pub mod unsp;
pub mod validate;
pub mod zgclp;

verus! {

} // verus!
