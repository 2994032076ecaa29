//! Box id puzzle: a checksum from ids with doubled and tripled letters,
//! and the letters shared by the two ids that differ in one position.

use vstd::prelude::*;

use crate::day::{Day, DayResult};
use crate::text;

verus! {

pub struct Instance;

impl Day for Instance {
    fn run(&self, input: &str) -> Result<DayResult, String> {
        if !input.is_ascii() {
            return Err("input is not ascii".to_owned());
        }
        let part1 = checksum(input);
        match common_letters(input) {
            Some(common) => Ok(
                DayResult { part1: part1.to_string(), part2: Some(common) },
            ),
            None => Err("No common letters found".to_owned()),
        }
    }
}

/// How many times byte `x` occurs in `v`.
fn count_byte(v: &[u8], x: u8) -> (r: usize)
    ensures
        r <= v@.len(),
{
    let n = v.len();
    let mut count: usize = 0;
    for i in 0..n
        invariant
            n == v@.len(),
            count <= i,
    {
        if v[i] == x {
            count = count + 1;
        }
    }
    count
}

/// Whether some byte occurs in `v` exactly `target` times.
fn has_repeat(v: &[u8], target: usize) -> (r: bool) {
    let n = v.len();
    for i in 0..n
        invariant
            n == v@.len(),
    {
        if count_byte(v, v[i]) == target {
            return true;
        }
    }
    false
}

/// The product of how many ids hold a doubled letter and how many hold a
/// tripled letter.
pub fn checksum(ids: &str) -> (r: u128) {
    let lines = text::split_lines(ids.as_bytes());
    let n = lines.len();
    let mut doubles: u64 = 0;
    let mut triples: u64 = 0;
    for i in 0..n
        invariant
            n == lines@.len(),
            doubles <= i,
            triples <= i,
    {
        let line = lines[i].as_slice();
        if has_repeat(line, 2) {
            doubles = doubles + 1;
        }
        if has_repeat(line, 3) {
            triples = triples + 1;
        }
    }
    proof {
        vstd::arithmetic::mul::lemma_mul_upper_bound(
            doubles as int,
            0xffff_ffff_ffff_ffff,
            triples as int,
            0xffff_ffff_ffff_ffff,
        );
    }
    (doubles as u128) * (triples as u128)
}

/// The letters two ids share position by position.
fn common_part(a: &[u8], b: &[u8]) -> (r: Vec<u8>)
    ensures
        r@.len() <= a@.len(),
{
    let n = if a.len() < b.len() {
        a.len()
    } else {
        b.len()
    };
    let mut out: Vec<u8> = Vec::new();
    for i in 0..n
        invariant
            n <= a@.len(),
            n <= b@.len(),
            out@.len() <= i,
    {
        if a[i] == b[i] {
            out.push(a[i]);
        }
    }
    out
}

/// The shared letters of the first pair of ids, in reading order, that
/// agree everywhere but in a single position.
fn common_letters(ids: &str) -> (r: Option<String>) {
    let lines = text::split_lines(ids.as_bytes());
    let n = lines.len();
    for i in 0..n
        invariant
            n == lines@.len(),
    {
        let mut j = i + 1;
        while j < n
            invariant
                n == lines@.len(),
                i < j,
            decreases n - j,
        {
            let a = lines[i].as_slice();
            let b = lines[j].as_slice();
            let common = common_part(a, b);
            if a.len() > 0 && common.len() == a.len() - 1 {
                return Some(text::ascii_string(common.as_slice()));
            }
            j = j + 1;
        }
    }
    None
}

} // verus!
