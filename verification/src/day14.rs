//! Recipe score puzzle: two elves combine recipes on a growing
//! scoreboard; the answers are the ten scores after a given count and the
//! position where a given digit pattern first appears.

use vstd::prelude::*;

use crate::day::{Day, DayResult};
use crate::text;

verus! {

pub struct Instance;

impl Day for Instance {
    fn run(&self, input: &str) -> Result<DayResult, String> {
        if !input.is_ascii() {
            return Err("input is not ascii".to_owned());
        }
        let trimmed = text::trim(input.as_bytes());
        let steps = match text::parse_u64(trimmed.as_slice()) {
            Some(v) => {
                if v > 50_000_000 {
                    return Err("recipe count out of range".to_owned());
                }
                v as usize
            },
            None => {
                return Err("invalid recipe count".to_owned());
            },
        };
        let part1 = run_for_steps(steps);
        let part2 = match run_for_end(steps) {
            Some(v) => v,
            None => {
                return Err("pattern not found within the search budget".to_owned());
            },
        };
        Ok(DayResult { part1, part2: Some(part2.to_string()) })
    }
}

/// The scoreboard: single-digit recipe scores and the two elves'
/// positions.
pub struct Recipes {
    recipes: Vec<u8>,
    elf1: usize,
    elf2: usize,
}

impl Recipes {
    /// Digits stay digits and the elves stay on the board.
    pub closed spec fn wf(self) -> bool {
        &&& self.recipes@.len() >= 2
        &&& self.elf1 < self.recipes@.len()
        &&& self.elf2 < self.recipes@.len()
        &&& forall|i: int| 0 <= i < self.recipes@.len() ==> #[trigger] self.recipes@[i] < 10
    }

    /// How many recipes are on the board.
    pub closed spec fn board_len(self) -> nat {
        self.recipes@.len()
    }

    /// The standard starting board: scores 3 and 7.
    pub fn new() -> (r: Self)
        ensures
            r.wf(),
            r.board_len() == 2,
    {
        let mut recipes: Vec<u8> = Vec::new();
        recipes.push(3);
        recipes.push(7);
        Self { recipes, elf1: 0, elf2: 1 }
    }

    /// One round: the elves' scores are summed, the sum's digits join the
    /// board, and each elf steps forward by one plus its score.
    pub fn step(&mut self)
        requires
            old(self).wf(),
            old(self).board_len() <= 100_000_000,
        ensures
            final(self).wf(),
            old(self).board_len() < final(self).board_len() <= old(self).board_len() + 2,
    {
        let sum = self.recipes[self.elf1] + self.recipes[self.elf2];
        if sum >= 10 {
            self.recipes.push(sum / 10);
        }
        self.recipes.push(sum % 10);
        let len = self.recipes.len();
        self.elf1 = (self.elf1 + 1 + self.recipes[self.elf1] as usize) % len;
        self.elf2 = (self.elf2 + 1 + self.recipes[self.elf2] as usize) % len;
    }
}

/// The ten scores that follow the first `steps` recipes, as a digit
/// string.
fn run_for_steps(steps: usize) -> (r: String)
    requires
        steps <= 50_000_000,
{
    let mut recipes = Recipes::new();
    while recipes.recipes.len() < steps + 10
        invariant
            recipes.wf(),
            steps <= 50_000_000,
        decreases steps + 12 - recipes.board_len(),
    {
        recipes.step();
    }
    let mut out = String::new();
    let mut i = steps;
    while i < steps + 10 && i < recipes.recipes.len()
        invariant
            recipes.wf(),
            steps <= 50_000_000,
            steps <= i,
        decreases steps + 10 - i,
    {
        let d = recipes.recipes[i];
        out = push_digit(out, d);
        i = i + 1;
    }
    out
}

/// Appends a single decimal digit to the text.
fn push_digit(s: String, d: u8) -> (r: String)
    requires
        d < 10,
{
    let mut out = s;
    text::push_char(&mut out, (48 + d) as char);
    out
}

/// The decimal digits of `n`, most significant first.
fn digits_of(n: usize) -> (r: Vec<u8>)
    ensures
        r@.len() >= 1,
        forall|i: int| 0 <= i < r@.len() ==> #[trigger] r@[i] < 10,
{
    let mut rev: Vec<u8> = Vec::new();
    let mut left = n;
    loop
        invariant
            forall|i: int| 0 <= i < rev@.len() ==> #[trigger] rev@[i] < 10,
        ensures
            rev@.len() >= 1,
            forall|i: int| 0 <= i < rev@.len() ==> #[trigger] rev@[i] < 10,
        decreases left,
    {
        rev.push((left % 10) as u8);
        left = left / 10;
        if left == 0 {
            break ;
        }
    }
    let mut out: Vec<u8> = Vec::new();
    let mut i = rev.len();
    while i > 0
        invariant
            rev@.len() >= 1,
            i <= rev@.len(),
            out@.len() == rev@.len() - i,
            forall|j: int| 0 <= j < rev@.len() ==> #[trigger] rev@[j] < 10,
            forall|j: int| 0 <= j < out@.len() ==> #[trigger] out@[j] < 10,
        decreases i,
    {
        i = i - 1;
        out.push(rev[i]);
    }
    out
}

/// How many recipes precede the first appearance of `end`'s digits, or
/// nothing if the pattern stays absent within the search budget.
fn run_for_end(end: usize) -> (r: Option<usize>) {
    let pattern = digits_of(end);
    let mut recipes = Recipes::new();
    let mut budget: u64 = 50_000_000;
    while budget > 0
        invariant
            recipes.wf(),
            pattern@.len() >= 1,
        decreases budget,
    {
        budget = budget - 1;
        if recipes.recipes.len() > 100_000_000 {
            return None;
        }
        recipes.step();
        let len = recipes.recipes.len();
        let plen = pattern.len();
        if len >= plen {
            if tail_matches(&recipes.recipes, &pattern, len - plen) {
                return Some(len - plen);
            }
            if len > plen {
                if tail_matches(&recipes.recipes, &pattern, len - plen - 1) {
                    return Some(len - plen - 1);
                }
            }
        }
    }
    None
}

/// Whether `pattern` appears in `board` starting at `at`.
fn tail_matches(board: &Vec<u8>, pattern: &Vec<u8>, at: usize) -> (r: bool)
    requires
        at + pattern@.len() <= board@.len(),
{
    let n = pattern.len();
    let blen = board.len();
    for i in 0..n
        invariant
            n == pattern@.len(),
            blen == board@.len(),
            at + n <= blen,
    {
        if board[at + i] != pattern[i] {
            return false;
        }
    }
    true
}

} // verus!
