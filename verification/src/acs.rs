//! Action Code Script execution environment and supporting infrastructure.

use vstd::prelude::*;

pub mod detail;
pub mod script;
pub mod strpool;

verus! {

/// Runs scripts each tic of the playsim.
#[derive(Debug)]
pub struct Controller {}

/// ACS arrays are flat vectors of integers.
pub type Array = Vec<i32>;

/// The bytecode format of a compiled ACS object file.
#[derive(Debug, Clone, Copy, PartialEq, Eq)]
pub enum Format {
    Old,
    Enhanced,
    LittleEnhanced,
    Unknown,
}

} // verus!
