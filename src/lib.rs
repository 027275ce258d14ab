//! Configuration and repository-state core of the lunara CI-gate tool.
use vstd::prelude::*;

pub mod cli;
pub mod config;
pub mod git;
pub mod text;

verus! {

/// The version of this library.
pub const VERSION: &'static str = "0.1.0";

/// The line that announces the library and its version.
pub fn banner() -> (r: String)
    ensures
        r@ == "Lunara core ready (v"@ + VERSION@ + ")"@,
{
    String::from_str("Lunara core ready (v").concat(VERSION).concat(")")
}

} // verus!
