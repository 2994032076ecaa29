//! Polymer reduction puzzle: adjacent units of the same letter but
//! opposite case annihilate; the answers are the fully reduced length and
//! the best length achievable after deleting one letter entirely.

use vstd::prelude::*;

use crate::day::{Day, DayResult};

verus! {

pub struct Instance;

/// The letter of a unit, lower-cased; other bytes are themselves.
pub open spec fn lower_spec(b: u8) -> u8 {
    if 65 <= b <= 90 {
        (b + 32) as u8
    } else {
        b
    }
}

/// Runtime form of `lower_spec`.
fn to_lower(b: u8) -> (r: u8)
    ensures
        r == lower_spec(b),
{
    if 65 <= b && b <= 90 {
        b + 32
    } else {
        b
    }
}

impl Day for Instance {
    fn run(&self, input: &str) -> Result<DayResult, String> {
        if !input.is_ascii() {
            return Err("input is not ascii".to_owned());
        }
        let reduced = fully_reduce_polymer(input.as_bytes());
        let part1 = reduced.len();
        let mut best: Option<usize> = None;
        let mut unit: u8 = 65;
        while unit <= 90
            invariant
                65 <= unit <= 91,
            decreases 91 - unit,
        {
            let stripped = remove_unit(input.as_bytes(), unit);
            let len = fully_reduce_polymer(stripped.as_slice()).len();
            best = match best {
                Some(b) => if len < b {
                    Some(len)
                } else {
                    Some(b)
                },
                None => Some(len),
            };
            unit = unit + 1;
        }
        let part2 = match best {
            Some(b) => Some(b.to_string()),
            None => None,
        };
        Ok(DayResult { part1: part1.to_string(), part2 })
    }
}

/// One reduction pass with a stack: each unit either reacts with the unit
/// below it or lands on the stack.  A pass that removes nothing returns
/// the polymer unchanged.
pub fn reduce_polymer(polymer: &[u8]) -> (r: Vec<u8>)
    ensures
        r@.len() <= polymer@.len(),
        r@.len() == polymer@.len() ==> r@ == polymer@,
{
    let n = polymer.len();
    let mut stack: Vec<u8> = Vec::new();
    for i in 0..n
        invariant
            n == polymer@.len(),
            stack@.len() <= i,
            stack@.len() == i ==> stack@ == polymer@.take(i as int),
    {
        let c = polymer[i];
        let mut reacted = false;
        if stack.len() > 0 {
            let last = stack[stack.len() - 1];
            if last != c && to_lower(last) == to_lower(c) {
                stack.pop();
                reacted = true;
            }
        }
        if !reacted {
            stack.push(c);
            proof {
                if stack@.len() == i + 1 {
                    assert(stack@ =~= polymer@.take(i + 1));
                }
            }
        }
    }
    proof {
        assert(polymer@.take(n as int) =~= polymer@);
    }
    stack
}

/// The polymer without every unit of the given letter, in either case.
pub fn remove_unit(polymer: &[u8], unit: u8) -> (r: Vec<u8>)
    ensures
        r@.len() <= polymer@.len(),
{
    let n = polymer.len();
    let mut out: Vec<u8> = Vec::new();
    for i in 0..n
        invariant
            n == polymer@.len(),
            out@.len() <= i,
    {
        let c = polymer[i];
        if to_lower(c) != to_lower(unit) {
            out.push(c);
        }
    }
    out
}

/// Reduction passes until a pass removes nothing; the shrinking length
/// bounds the loop.
pub fn fully_reduce_polymer(polymer: &[u8]) -> (r: Vec<u8>)
    ensures
        r@.len() <= polymer@.len(),
{
    let mut current = crate::text::copy_bytes(polymer);
    loop
        invariant
            current@.len() <= polymer@.len(),
        ensures
            current@.len() <= polymer@.len(),
        decreases current@.len(),
    {
        let reduced = reduce_polymer(current.as_slice());
        if reduced.len() == current.len() {
            current = reduced;
            break ;
        }
        current = reduced;
    }
    current
}

} // verus!
