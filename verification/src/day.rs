//! The common shape of a puzzle solver: text in, two answers out.

use vstd::prelude::*;

verus! {

/// The answers of one puzzle: a first part, and an optional second part.
#[derive(Debug, PartialEq, Eq)]
pub struct DayResult {
    pub part1: String,
    pub part2: Option<String>,
}

/// A puzzle solver.  `run` consumes the puzzle's textual input and either
/// produces both answers or reports why the input was rejected.
pub trait Day {
    fn run(&self, lines: &str) -> Result<DayResult, String>;
}

} // verus!
