//! Pointer machine puzzle: runs a program on the register machine, then
//! short-circuits the second part by recognizing that the program sums
//! the divisors of the number it first computes.

use vstd::prelude::*;

use crate::day::{Day, DayResult};
use crate::instructions::Cpu;

verus! {

pub struct Instance;

impl Day for Instance {
    fn run(&self, input: &str) -> Result<DayResult, String> {
        let mut cpu = Cpu::parse(input)?;
        cpu.run();
        let part1 = cpu.get(0);
        let part2 = part2(input)?;
        Ok(DayResult { part1: part1.to_string(), part2: Some(part2.to_string()) })
    }
}

/// The sum of all divisors of `n`, including `n` itself; `n` comes back
/// unchanged when it is not positive, and nothing on overflow.
fn sum_of_divisors(n: i64) -> (r: Option<i64>) {
    if n <= 0 {
        return Some(n);
    }
    let m = (n as u64) / 2;
    let mut total: u64 = n as u64;
    let mut i: u64 = 1;
    while i <= m
        invariant
            n > 0,
            1 <= i <= m + 1,
            m <= u64::MAX / 2,
        decreases m + 1 - i,
    {
        if (n as u64) % i == 0 {
            total = match total.checked_add(i) {
                Some(t) => t,
                None => {
                    return None;
                },
            };
        }
        i = i + 1;
    }
    if total > i64::MAX as u64 {
        return None;
    }
    Some(total as i64)
}

/// Runs the program with register 0 seeded to 1 until register 2 holds
/// the same value for a hundred consecutive steps, then sums that
/// value's divisors.
fn part2(input: &str) -> Result<i64, String> {
    let mut cpu = Cpu::parse(input)?;
    cpu.set(0, 1);
    let mut prev: i64 = 0;
    let mut count: u32 = 0;
    let mut budget: u64 = 100_000_000;
    while budget > 0
        invariant
            cpu.wf(),
            cpu.spec_regs().len() == 6,
        decreases budget,
    {
        budget = budget - 1;
        cpu.step();
        let r2 = cpu.get(2);
        if r2 != prev {
            count = 0;
            prev = r2;
        }
        if count < 100 {
            count = count + 1;
        }
        if count == 100 {
            match sum_of_divisors(cpu.get(2)) {
                Some(v) => {
                    return Ok(v);
                },
                None => {
                    return Err("divisor sum overflowed".to_owned());
                },
            }
        }
    }
    Err("register 2 never settled within the search budget".to_owned())
}

} // verus!
