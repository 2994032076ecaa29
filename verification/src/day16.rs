//! Opcode identification puzzle: counts the ambiguous behavioural
//! samples, then recovers the full code-to-opcode mapping and runs the
//! numerically coded program.

use vstd::prelude::*;

use crate::day::{Day, DayResult};
use crate::inference::{parse_program, parse_samples, part1, part2};

verus! {

pub struct Instance;

impl Day for Instance {
    fn run(&self, input: &str) -> Result<DayResult, String> {
        let samples = parse_samples(input);
        let ambiguous = part1(&samples);
        let program = parse_program(input)?;
        match part2(&samples, &program) {
            Ok(v) => Ok(
                DayResult { part1: ambiguous.to_string(), part2: Some(v.to_string()) },
            ),
            Err(e) => Err(e),
        }
    }
}

} // verus!
