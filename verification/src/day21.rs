//! Halting value puzzle: the program compares register 4 against register
//! 0 at one instruction; the answers are the first comparison value (the
//! quickest halt) and the last one before the sequence repeats (the
//! longest run).  A slow inner division loop is precomputed whenever the
//! pointer reaches it.

use vstd::prelude::*;

use crate::day::{Day, DayResult};
use crate::instructions::Cpu;

verus! {

pub struct Instance;

/// The instruction index where the program compares against register 0.
const CHECK_AT: i64 = 29;

/// The instruction index that starts the slow division loop.
const SLOW_LOOP_AT: i64 = 18;

impl Day for Instance {
    fn run(&self, input: &str) -> Result<DayResult, String> {
        let part1 = part1(Cpu::parse(input)?)?;
        let part2 = part2(Cpu::parse(input)?)?;
        Ok(DayResult { part1, part2: Some(part2) })
    }
}

/// Steps until the comparison instruction is reached and returns the
/// value it would compare.
fn part1(cpu: Cpu) -> Result<String, String>
    requires
        cpu.wf(),
        cpu.spec_regs().len() == 6,
{
    let mut cpu = cpu;
    let mut budget: u64 = 1_000_000_000;
    while budget > 0
        invariant
            cpu.wf(),
            cpu.spec_regs().len() == 6,
        decreases budget,
    {
        budget = budget - 1;
        if !cpu.step() {
            return Err("program halted before the comparison".to_owned());
        }
        if cpu.ip() == CHECK_AT {
            return Ok(cpu.get(4).to_string());
        }
    }
    Err("comparison not reached within the search budget".to_owned())
}

/// Steps until the comparison values start repeating and returns the last
/// fresh one; the slow division loop is precomputed at its entry.
fn part2(cpu: Cpu) -> Result<String, String>
    requires
        cpu.wf(),
        cpu.spec_regs().len() == 6,
{
    let mut cpu = cpu;
    let mut seen: Vec<i64> = Vec::new();
    let mut last: i64 = 0;
    let mut budget: u64 = 1_000_000_000;
    while budget > 0
        invariant
            cpu.wf(),
            cpu.spec_regs().len() == 6,
        decreases budget,
    {
        budget = budget - 1;
        if !cpu.step() {
            return Err("program halted before the sequence repeated".to_owned());
        }
        let ip = cpu.ip();
        if ip == SLOW_LOOP_AT {
            let r3 = cpu.get(3);
            if r3 >= 0 {
                let t = ((r3 as u64) / 256) as i64;
                match t.checked_add(1) {
                    Some(t1) => match t1.checked_mul(256) {
                        Some(bound) => {
                            cpu.set(2, t);
                            cpu.set(5, bound);
                            cpu.set(1, 20);
                        },
                        None => {},
                    },
                    None => {},
                }
            }
        }
        if ip == CHECK_AT {
            let r4 = cpu.get(4);
            if contains_value(&seen, r4) {
                return Ok(last.to_string());
            }
            last = r4;
            seen.push(last);
        }
    }
    Err("sequence did not repeat within the search budget".to_owned())
}

/// Whether `v` lists `x`.
fn contains_value(v: &Vec<i64>, x: i64) -> (r: bool)
    ensures
        r == v@.contains(x),
{
    let n = v.len();
    for i in 0..n
        invariant
            n == v@.len(),
            forall|j: int| 0 <= j < i ==> v@[j] != x,
    {
        if v[i] == x {
            assert(v@[i as int] == x);
            return true;
        }
    }
    false
}

} // verus!
