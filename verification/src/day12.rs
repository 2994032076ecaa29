//! Plant pot puzzle: a one-dimensional automaton over pots driven by
//! five-pot rules; the answers are the alive-pot index sum after twenty
//! generations and, once the pattern drifts steadily, after fifty billion.

use vstd::prelude::*;

use crate::day::{Day, DayResult};
use crate::text;

verus! {

pub struct Instance;

/// The pot row: a window of pot states and the index of its first pot.
pub struct Pots {
    pub pots: Vec<bool>,
    pub offset: i64,
}

/// The row stays small enough for every index computation.
pub open spec fn pots_ok(p: Pots) -> bool {
    &&& p.pots@.len() <= 1_000_000
    &&& -1_000_000_000 <= p.offset <= 1_000_000_000
}

/// One growth rule: a five-pot neighbourhood and what grows above its
/// centre.
pub struct Rule {
    pub pattern: Vec<bool>,
    pub result: bool,
}

impl Day for Instance {
    fn run(&self, input: &str) -> Result<DayResult, String> {
        if !input.is_ascii() {
            return Err("input is not ascii".to_owned());
        }
        let (mut pots, rules) = parse(input)?;
        // Twenty generations for the first answer.
        for i in 0..20usize
            invariant
                pots_ok(pots),
                forall|j: int| 0 <= j < rules@.len() ==> (#[trigger] rules@[j]).pattern@.len() == 5,
        {
            if !pots.next_generation(&rules) {
                return Err("pot row grew out of range".to_owned());
            }
        }
        let part1 = match pots.alive_pots() {
            Some(v) => v,
            None => {
                return Err("alive-pot sum overflowed".to_owned());
            },
        };
        // Keep stepping the same row until the sum drifts by a constant
        // for a hundred generations running, then extrapolate.
        let mut generation: i64 = 20;
        let mut last_value = part1;
        let mut last_diff: i64 = 0;
        let mut stable: u32 = 0;
        let mut budget: u32 = 3_000;
        while budget > 0
            invariant
                pots_ok(pots),
                forall|j: int| 0 <= j < rules@.len() ==> (#[trigger] rules@[j]).pattern@.len() == 5,
                budget <= 3_000,
                generation == 20 + 3_000 - budget,
            decreases budget,
        {
            budget = budget - 1;
            if !pots.next_generation(&rules) {
                return Err("pot row grew out of range".to_owned());
            }
            generation = generation + 1;
            let value = match pots.alive_pots() {
                Some(v) => v,
                None => {
                    return Err("alive-pot sum overflowed".to_owned());
                },
            };
            let diff = match value.checked_sub(last_value) {
                Some(d) => d,
                None => {
                    return Err("alive-pot sum overflowed".to_owned());
                },
            };
            if diff == last_diff {
                if stable < 100 {
                    stable = stable + 1;
                } else {
                    // Steady drift: every later generation adds `diff`.
                    let remaining = 50_000_000_000i64 - generation;
                    let total = match diff.checked_mul(remaining) {
                        Some(t) => match value.checked_add(t) {
                            Some(v) => v,
                            None => {
                                return Err("extrapolation overflowed".to_owned());
                            },
                        },
                        None => {
                            return Err("extrapolation overflowed".to_owned());
                        },
                    };
                    return Ok(
                        DayResult { part1: part1.to_string(), part2: Some(total.to_string()) },
                    );
                }
            } else {
                stable = 0;
            }
            last_diff = diff;
            last_value = value;
        }
        Err("pot drift never settled within the search budget".to_owned())
    }
}

/// Reads the initial state line and the rule lines.
fn parse(input: &str) -> (r: Result<(Pots, Vec<Rule>), String>)
    ensures
        r matches Ok(p) ==> pots_ok(p.0) && forall|j: int|
            0 <= j < p.1@.len() ==> (#[trigger] p.1@[j]).pattern@.len() == 5,
{
    let lines = text::split_lines(input.as_bytes());
    if lines.len() == 0 {
        return Err("missing initial state".to_owned());
    }
    let header = text::split_fields(lines[0].as_slice());
    if header.len() < 3 {
        return Err("missing initial state".to_owned());
    }
    let pattern = header[2].as_slice();
    if pattern.len() > 100_000 {
        return Err("initial state too long".to_owned());
    }
    let mut pots: Vec<bool> = Vec::new();
    pots.push(false);
    pots.push(false);
    pots.push(false);
    pots.push(false);
    let pn = pattern.len();
    for i in 0..pn
        invariant
            pn == pattern@.len(),
            pots@.len() == i + 4,
            pn <= 100_000,
    {
        pots.push(pattern[i] == 35);
    }
    pots.push(false);
    pots.push(false);
    pots.push(false);
    pots.push(false);
    let n = lines.len();
    let mut rules: Vec<Rule> = Vec::new();
    let mut i: usize = 2;
    while i < n
        invariant
            n == lines@.len(),
            forall|j: int| 0 <= j < rules@.len() ==> (#[trigger] rules@[j]).pattern@.len() == 5,
        decreases n - i,
    {
        match parse_rule(lines[i].as_slice()) {
            Ok(rule) => rules.push(rule),
            Err(e) => {
                return Err(e);
            },
        }
        i = i + 1;
    }
    Ok((Pots { pots, offset: -4 }, rules))
}

/// Reads `PPPPP => R` with pots written `#` and `.`.
fn parse_rule(line: &[u8]) -> (r: Result<Rule, String>)
    ensures
        r matches Ok(rule) ==> rule.pattern@.len() == 5,
{
    let fields = text::split_fields(line);
    if fields.len() != 3 {
        return Err("invalid rule".to_owned());
    }
    let pat = fields[0].as_slice();
    if pat.len() != 5 {
        return Err("invalid rule".to_owned());
    }
    let mut pattern: Vec<bool> = Vec::new();
    for i in 0..5usize
        invariant
            pat@.len() == 5,
            pattern@.len() == i,
    {
        pattern.push(pat[i] == 35);
    }
    let result = fields[2].as_slice().len() == 1 && fields[2].as_slice()[0] == 35;
    Ok(Rule { pattern, result })
}

impl Pots {
    /// One generation: every interior pot looks at its five-pot
    /// neighbourhood and the first matching rule decides its successor;
    /// the row is then trimmed to keep four empty pots of margin on both
    /// sides.  `false` reports a row that grew past the supported size.
    pub fn next_generation(&mut self, rules: &Vec<Rule>) -> (r: bool)
        requires
            pots_ok(*old(self)),
            forall|j: int| 0 <= j < rules@.len() ==> (#[trigger] rules@[j]).pattern@.len() == 5,
        ensures
            pots_ok(*final(self)),
    {
        let n = self.pots.len();
        if n > 900_000 || self.offset < -900_000_000 || self.offset > 900_000_000 {
            return false;
        }
        let mut next: Vec<bool> = Vec::new();
        let total = n + 4;
        for i in 0..total
            invariant
                next@.len() == i,
        {
            next.push(false);
        }
        if n >= 4 {
            let mut i: usize = 2;
            while i < n - 2
                invariant
                    2 <= i,
                    n >= 4,
                    i <= n - 2,
                    n == self.pots@.len(),
                    next@.len() == n + 4,
                    forall|j: int|
                        0 <= j < rules@.len() ==> (#[trigger] rules@[j]).pattern@.len() == 5,
                decreases n - 2 - i,
            {
                let mut grown = false;
                let m = rules.len();
                let mut k: usize = 0;
                while k < m && !grown
                    invariant
                        2 <= i < n - 2,
                        n >= 4,
                        n == self.pots@.len(),
                        next@.len() == n + 4,
                        k <= m,
                        m == rules@.len(),
                        forall|j: int|
                            0 <= j < rules@.len() ==> (#[trigger] rules@[j]).pattern@.len() == 5,
                    decreases m - k,
                {
                    let rule = &rules[k];
                    if self.pots[i - 2] == rule.pattern[0] && self.pots[i - 1] == rule.pattern[1]
                        && self.pots[i] == rule.pattern[2] && self.pots[i + 1] == rule.pattern[3]
                        && self.pots[i + 2] == rule.pattern[4] {
                        next.set(i + 2, rule.result);
                        grown = true;
                    }
                    k = k + 1;
                }
                i = i + 1;
            }
        }
        // Trim every fully dead five-pot window from both ends.
        let total = next.len();
        let mut start: usize = 0;
        while start + 5 <= total && !next[start] && !next[start + 1] && !next[start + 2] && !next[
            start + 3] && !next[start + 4]
            invariant
                start <= total,
                total == next@.len(),
                total <= 1_000_000,
            decreases total - start,
        {
            start = start + 1;
        }
        let mut end: usize = total;
        while end >= start + 5 && !next[end - 1] && !next[end - 2] && !next[end - 3] && !next[end
            - 4] && !next[end - 5]
            invariant
                start <= end <= total,
                total == next@.len(),
                total <= 1_000_000,
            decreases end,
        {
            end = end - 1;
        }
        let mut trimmed: Vec<bool> = Vec::new();
        let mut i = start;
        while i < end
            invariant
                start <= i <= end,
                end <= total,
                total == next@.len(),
                total <= 1_000_000,
                trimmed@.len() == i - start,
            decreases end - i,
        {
            trimmed.push(next[i]);
            i = i + 1;
        }
        self.pots = trimmed;
        self.offset = self.offset + (start as i64) - 2;
        true
    }

    /// The sum of the absolute indices of every pot with a plant.
    fn alive_pots(&self) -> (r: Option<i64>)
        requires
            pots_ok(*self),
    {
        let n = self.pots.len();
        let mut total: i64 = 0;
        for i in 0..n
            invariant
                n == self.pots@.len(),
                n <= 1_000_000,
                -1_000_000_000 <= self.offset <= 1_000_000_000,
                -2_000_000_000_000_000 <= total <= 2_000_000_000_000_000,
        {
            if self.pots[i] {
                let index = (i as i64) + self.offset;
                let updated = total + index;
                if updated > 2_000_000_000_000_000 || updated < -2_000_000_000_000_000 {
                    return None;
                }
                total = updated;
            }
        }
        Some(total)
    }
}

} // verus!
