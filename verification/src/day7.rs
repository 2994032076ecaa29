//! Step ordering puzzle: the alphabetical topological order of dependent
//! steps, and how long a crew of workers needs to finish them when each
//! step has a letter-dependent duration.

use vstd::prelude::*;

use crate::day::{Day, DayResult};
use crate::text;

verus! {

pub struct Instance {
    pub additional_time: usize,
    pub max_workers: usize,
}

impl Default for Instance {
    /// The puzzle's standard crew: five workers, sixty extra seconds.
    fn default() -> (r: Self)
        ensures
            r.additional_time == 60,
            r.max_workers == 5,
    {
        Self { additional_time: 60, max_workers: 5 }
    }
}

/// The steps, each with the list of steps that must finish first.
pub struct Steps {
    entries: Vec<(u8, Vec<u8>)>,
}

impl Day for Instance {
    fn run(&self, input: &str) -> Result<DayResult, String> {
        if !input.is_ascii() {
            return Err("input is not ascii".to_owned());
        }
        if self.additional_time > 1_000_000 {
            return Err("additional time too large".to_owned());
        }
        if self.max_workers == 0 || self.max_workers > 1_000 {
            return Err("worker count out of range".to_owned());
        }
        let steps = parse_steps(input)?;
        let order = steps.order();
        let time = match steps.time(self.additional_time, self.max_workers) {
            Some(t) => t,
            None => {
                return Err("schedule did not finish within the search budget".to_owned());
            },
        };
        Ok(DayResult { part1: order, part2: Some(time.to_string()) })
    }
}

/// Reads lines of the shape `Step X must be finished before step Y can
/// begin.`; anything else is a construction failure.
fn parse_steps(input: &str) -> Result<Steps, String> {
    let lines = text::split_lines(input.as_bytes());
    let mut entries: Vec<(u8, Vec<u8>)> = Vec::new();
    let n = lines.len();
    for i in 0..n
        invariant
            n == lines@.len(),
    {
        let fields = text::split_fields(lines[i].as_slice());
        if fields.len() != 10 {
            return Err("invalid line".to_owned());
        }
        let step = fields[1].as_slice()[0];
        let dependent = fields[7].as_slice()[0];
        ensure_entry(&mut entries, step);
        let at = ensure_entry(&mut entries, dependent);
        let mut entry = entries.remove(at);
        entry.1.push(step);
        entries.insert(at, entry);
    }
    Ok(Steps { entries })
}

/// The index of `step`'s entry, creating an empty one if needed.
fn ensure_entry(entries: &mut Vec<(u8, Vec<u8>)>, step: u8) -> (r: usize)
    ensures
        r < final(entries)@.len(),
{
    let n = entries.len();
    for i in 0..n
        invariant
            n == entries@.len(),
    {
        if entries[i].0 == step {
            return i;
        }
    }
    entries.push((step, Vec::new()));
    entries.len() - 1
}

/// The ready step that comes first in the alphabet: a step whose
/// prerequisite list is empty.
fn next_step(entries: &Vec<(u8, Vec<u8>)>) -> (r: Option<usize>)
    ensures
        r matches Some(i) ==> i < entries@.len(),
{
    let n = entries.len();
    let mut best: Option<usize> = None;
    for i in 0..n
        invariant
            n == entries@.len(),
            best matches Some(b) ==> b < i,
    {
        if entries[i].1.len() == 0 {
            best = match best {
                Some(b) => if entries[i].0 < entries[b].0 {
                    Some(i)
                } else {
                    Some(b)
                },
                None => Some(i),
            };
        }
    }
    best
}

/// Deletes `step` from every prerequisite list.
fn clear_step(entries: &mut Vec<(u8, Vec<u8>)>, step: u8)
    ensures
        final(entries)@.len() == old(entries)@.len(),
{
    let n = entries.len();
    for i in 0..n
        invariant
            n == entries@.len(),
    {
        let mut entry = entries.remove(i);
        let mut kept: Vec<u8> = Vec::new();
        let m = entry.1.len();
        for j in 0..m
            invariant
                m == entry.1@.len(),
        {
            if entry.1[j] != step {
                kept.push(entry.1[j]);
            }
        }
        entry.1 = kept;
        entries.insert(i, entry);
    }
}

impl Steps {
    /// The order in which a single worker finishes the steps: always the
    /// alphabetically first ready step.  Steps caught in a dependency
    /// cycle are left out.
    fn order(&self) -> (r: String) {
        let mut entries = clone_entries(&self.entries);
        let mut out = String::new();
        while entries.len() > 0
            decreases entries@.len(),
        {
            match next_step(&entries) {
                Some(i) => {
                    let (step, _) = entries.remove(i);
                    text::push_char(&mut out, step as char);
                    clear_step(&mut entries, step);
                },
                None => {
                    break ;
                },
            }
        }
        out
    }

    /// The total time a crew needs: each worker takes the alphabetically
    /// first ready step, a step of letter L takes `L - 'A' + 1` seconds
    /// plus the extra, and time advances by the smallest remaining
    /// duration.  Gives up if the schedule has not finished within a large
    /// round budget.
    fn time(&self, additional_time: usize, max_workers: usize) -> (r: Option<u64>)
        requires
            additional_time <= 1_000_000,
            max_workers >= 1,
            max_workers <= 1_000,
    {
        let mut entries = clone_entries(&self.entries);
        let mut workers: Vec<Option<(u8, u64)>> = Vec::new();
        for i in 0..max_workers
            invariant
                workers@.len() == i,
        {
            workers.push(None);
        }
        let mut time: u64 = 0;
        let mut budget: u64 = 1_000_000;
        while entries.len() > 0 && budget > 0
            invariant
                workers@.len() == max_workers,
                additional_time <= 1_000_000,
            decreases budget,
        {
            budget = budget - 1;
            // Hand ready steps to idle workers.
            let w = workers.len();
            for k in 0..w
                invariant
                    w == workers@.len(),
                    additional_time <= 1_000_000,
            {
                if matches!(workers[k], None) {
                    match next_step(&entries) {
                        Some(i) => {
                            let (step, _) = entries.remove(i);
                            let letter = if step >= 65 {
                                (step - 65) as u64
                            } else {
                                0
                            };
                            let duration = letter + 1 + additional_time as u64;
                            workers.set(k, Some((step, duration)));
                        },
                        None => {},
                    }
                }
            }
            // Advance time to the first completion.
            let mut min_left: Option<u64> = None;
            for k in 0..w
                invariant
                    w == workers@.len(),
            {
                match workers[k] {
                    Some((_, left)) => {
                        min_left = match min_left {
                            Some(b) => if left < b {
                                Some(left)
                            } else {
                                Some(b)
                            },
                            None => Some(left),
                        };
                    },
                    None => {},
                }
            }
            match min_left {
                Some(step_time) => {
                    time = match time.checked_add(step_time) {
                        Some(t) => t,
                        None => {
                            return None;
                        },
                    };
                    for k in 0..w
                        invariant
                            w == workers@.len(),
                    {
                        match workers[k] {
                            Some((step, left)) => {
                                let remaining = if left >= step_time {
                                    left - step_time
                                } else {
                                    0
                                };
                                if remaining == 0 {
                                    clear_step(&mut entries, step);
                                    workers.set(k, None);
                                } else {
                                    workers.set(k, Some((step, remaining)));
                                }
                            },
                            None => {},
                        }
                    }
                },
                None => {
                    // No worker is busy and nothing is ready: the rest of
                    // the steps are caught in a cycle.
                    return Some(time);
                },
            }
        }
        if entries.len() > 0 {
            return None;
        }
        Some(time)
    }
}

/// An independent copy of the step table.
fn clone_entries(entries: &Vec<(u8, Vec<u8>)>) -> (r: Vec<(u8, Vec<u8>)>) {
    let n = entries.len();
    let mut out: Vec<(u8, Vec<u8>)> = Vec::new();
    for i in 0..n
        invariant
            n == entries@.len(),
    {
        let pair = &entries[i];
        let mut deps: Vec<u8> = Vec::new();
        let m = pair.1.len();
        for j in 0..m
            invariant
                m == pair.1@.len(),
        {
            deps.push(pair.1[j]);
        }
        out.push((pair.0, deps));
    }
    out
}

} // verus!
