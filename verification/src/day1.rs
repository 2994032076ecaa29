//! Frequency drift puzzle: sums a list of signed changes, then finds the
//! first running total that repeats when the list is applied in a cycle.

use vstd::prelude::*;

use crate::day::{Day, DayResult};
use crate::text;

verus! {

pub struct Instance;

/// How many applications of the change list the repeat search is willing
/// to make before giving up.
const CYCLE_BUDGET: u64 = 1_000_000;

impl Day for Instance {
    fn run(&self, input: &str) -> Result<DayResult, String> {
        let numbers = parse(input)?;
        let mut total: i128 = 0;
        let n = numbers.len();
        for i in 0..n
            invariant
                n == numbers@.len(),
                -0x8000_0000 * (i as int) <= total <= 0x7fff_ffff * (i as int),
                forall|j: int|
                    0 <= j < numbers@.len() ==> -0x8000_0000 <= #[trigger] numbers@[j]
                        <= 0x7fff_ffff,
        {
            total = total + numbers[i] as i128;
        }
        match part2(&numbers) {
            Some(repeated) => Ok(
                DayResult { part1: total.to_string(), part2: Some(repeated.to_string()) },
            ),
            None => Err("no frequency repeats within the search budget".to_owned()),
        }
    }
}

/// Reads one signed change per line; a line that is not a number in the
/// 32-bit range is a construction failure.
fn parse(input: &str) -> (r: Result<Vec<i64>, String>)
    ensures
        r matches Ok(v) ==> forall|j: int|
            0 <= j < v@.len() ==> -0x8000_0000 <= #[trigger] v@[j] <= 0x7fff_ffff,
{
    if !input.is_ascii() {
        return Err("input is not ascii".to_owned());
    }
    let lines = text::split_lines(input.as_bytes());
    let mut out: Vec<i64> = Vec::new();
    let n = lines.len();
    for i in 0..n
        invariant
            n == lines@.len(),
            forall|j: int| 0 <= j < out@.len() ==> -0x8000_0000 <= #[trigger] out@[j] <= 0x7fff_ffff,
    {
        match text::parse_i64(lines[i].as_slice()) {
            Some(v) => {
                if -0x8000_0000i64 <= v && v <= 0x7fff_ffffi64 {
                    out.push(v);
                } else {
                    return Err("change out of range".to_owned());
                }
            },
            None => {
                return Err("invalid change".to_owned());
            },
        }
    }
    Ok(out)
}

/// Applies the changes in a cycle and returns the first running total seen
/// twice, or nothing if no repeat shows up within the search budget or the
/// list is empty.
fn part2(numbers: &Vec<i64>) -> (r: Option<i64>)
    requires
        forall|j: int|
            0 <= j < numbers@.len() ==> -0x8000_0000 <= #[trigger] numbers@[j] <= 0x7fff_ffff,
{
    let n = numbers.len();
    if n == 0 {
        return None;
    }
    let mut seen: Vec<i64> = Vec::new();
    let mut total: i64 = 0;
    let mut index: usize = 0;
    let mut budget: u64 = CYCLE_BUDGET;
    seen.push(0);
    while budget > 0
        invariant
            n == numbers@.len(),
            n > 0,
            index < n,
            budget <= CYCLE_BUDGET,
            forall|j: int|
                0 <= j < numbers@.len() ==> -0x8000_0000 <= #[trigger] numbers@[j] <= 0x7fff_ffff,
            -0x8000_0000 * (CYCLE_BUDGET - budget) <= total <= 0x7fff_ffff * (CYCLE_BUDGET
                - budget),
        decreases budget,
    {
        budget = budget - 1;
        total = total + numbers[index];
        index = index + 1;
        if index == n {
            index = 0;
        }
        if contains_i64(&seen, total) {
            return Some(total);
        }
        seen.push(total);
    }
    None
}

/// Whether `v` lists `x`.
fn contains_i64(v: &Vec<i64>, x: i64) -> (r: bool)
    ensures
        r == v@.contains(x),
{
    let n = v.len();
    for i in 0..n
        invariant
            n == v@.len(),
            forall|j: int| 0 <= j < i ==> v@[j] != x,
    {
        if v[i] == x {
            assert(v@[i as int] == x);
            return true;
        }
    }
    false
}

} // verus!
