//! Lumber yard puzzle: a cellular automaton over open ground, trees and
//! lumberyards; the answers are the resource value after ten minutes and
//! after a billion minutes, the latter found through cycle detection.

use vstd::prelude::*;

use crate::day::{Day, DayResult};
use crate::text;

verus! {

pub struct Instance;

/// The acre grid, one byte per acre: `.` open, `|` trees, `#` lumberyard.
/// Rows may have different lengths; an acre exists exactly where the
/// input had a byte.
pub struct LumberCollection {
    pub grid: Vec<Vec<u8>>,
}

/// Every row fits the modest bound that keeps all counting arithmetic
/// far from overflow.
pub open spec fn grid_ok(g: Seq<Vec<u8>>) -> bool {
    &&& g.len() <= 10_000
    &&& forall|i: int| 0 <= i < g.len() ==> (#[trigger] g[i])@.len() <= 10_000
}

impl Day for Instance {
    fn run(&self, input: &str) -> Result<DayResult, String> {
        if !input.is_ascii() {
            return Err("input is not ascii".to_owned());
        }
        let mut first = parse_grid(input)?;
        for i in 0..10usize
            invariant
                grid_ok(first.grid@),
        {
            first.step();
        }
        let part1 = first.resource_value();
        let part2 = match part2(input) {
            Ok(v) => v,
            Err(e) => {
                return Err(e);
            },
        };
        Ok(DayResult { part1: part1.to_string(), part2: Some(part2.to_string()) })
    }
}

/// Reads the acre grid; an unknown byte is a construction failure.
fn parse_grid(input: &str) -> (r: Result<LumberCollection, String>)
    ensures
        r matches Ok(g) ==> grid_ok(g.grid@),
{
    let lines = text::split_lines(input.as_bytes());
    if lines.len() > 10_000 {
        return Err("grid too tall".to_owned());
    }
    let n = lines.len();
    let mut grid: Vec<Vec<u8>> = Vec::new();
    for y in 0..n
        invariant
            n == lines@.len(),
            n <= 10_000,
            grid@.len() == y,
            grid_ok(grid@),
    {
        let line = lines[y].as_slice();
        if line.len() > 10_000 {
            return Err("grid too wide".to_owned());
        }
        let m = line.len();
        let mut row: Vec<u8> = Vec::new();
        for x in 0..m
            invariant
                m == line@.len(),
                m <= 10_000,
                row@.len() == x,
        {
            let b = line[x];
            if b != 46 && b != 124 && b != 35 {
                return Err("invalid acre".to_owned());
            }
            row.push(b);
        }
        grid.push(row);
    }
    Ok(LumberCollection { grid })
}

impl LumberCollection {
    /// How many neighbours of `(x, y)` hold the given acre kind.
    fn count_neighbours(&self, x: usize, y: usize, kind: u8) -> (r: u64)
        requires
            grid_ok(self.grid@),
            x <= 10_000,
            y <= 10_000,
    {
        let mut count: u64 = 0;
        let rows = self.grid.len();
        let mut dy: i64 = -1;
        while dy <= 1
            invariant
                grid_ok(self.grid@),
                rows == self.grid@.len(),
                x <= 10_000,
                y <= 10_000,
                -1 <= dy <= 2,
                count <= 3 * (dy + 1),
            decreases 1 - dy + 1,
        {
            let mut dx: i64 = -1;
            let mut row_count: u64 = 0;
            while dx <= 1
                invariant
                    grid_ok(self.grid@),
                    rows == self.grid@.len(),
                    x <= 10_000,
                    y <= 10_000,
                    -1 <= dx <= 2,
                    -1 <= dy <= 1,
                    row_count <= dx + 1,
                decreases 1 - dx + 1,
            {
                if !(dx == 0 && dy == 0) {
                    let ny = y as i64 + dy;
                    let nx = x as i64 + dx;
                    if ny >= 0 && (ny as u64) < (rows as u64) {
                        let row = &self.grid[ny as usize];
                        if nx >= 0 && (nx as u64) < (row.len() as u64) {
                            if row[nx as usize] == kind {
                                row_count = row_count + 1;
                            }
                        }
                    }
                }
                dx = dx + 1;
            }
            count = count + row_count;
            dy = dy + 1;
        }
        count
    }

    /// One minute: open ground with three tree neighbours grows trees, a
    /// wood with three lumberyard neighbours becomes a lumberyard, and a
    /// lumberyard stays only next to at least one of each.
    pub fn step(&mut self)
        requires
            grid_ok(old(self).grid@),
        ensures
            grid_ok(final(self).grid@),
    {
        let rows = self.grid.len();
        let mut next: Vec<Vec<u8>> = Vec::new();
        for y in 0..rows
            invariant
                grid_ok(self.grid@),
                rows == self.grid@.len(),
                next@.len() == y,
                grid_ok(next@),
        {
            let width = self.grid[y].len();
            let mut row: Vec<u8> = Vec::new();
            for x in 0..width
                invariant
                    grid_ok(self.grid@),
                    rows == self.grid@.len(),
                    y < rows,
                    width == self.grid@[y as int]@.len(),
                    width <= 10_000,
                    row@.len() == x,
            {
                let acre = self.grid[y][x];
                let new_acre = if acre == 46 {
                    if self.count_neighbours(x, y, 124) >= 3 {
                        124
                    } else {
                        46
                    }
                } else if acre == 124 {
                    if self.count_neighbours(x, y, 35) >= 3 {
                        35
                    } else {
                        124
                    }
                } else {
                    if self.count_neighbours(x, y, 35) == 0 || self.count_neighbours(x, y, 124)
                        == 0 {
                        46
                    } else {
                        acre
                    }
                };
                row.push(new_acre);
            }
            next.push(row);
        }
        self.grid = next;
    }

    /// The resource value: wooded acres times lumberyards.
    fn resource_value(&self) -> (r: u64)
        requires
            grid_ok(self.grid@),
    {
        let rows = self.grid.len();
        let mut trees: u64 = 0;
        let mut yards: u64 = 0;
        for y in 0..rows
            invariant
                grid_ok(self.grid@),
                rows == self.grid@.len(),
                trees <= 10_000 * y,
                yards <= 10_000 * y,
        {
            let row = &self.grid[y];
            let width = row.len();
            let mut row_trees: u64 = 0;
            let mut row_yards: u64 = 0;
            for x in 0..width
                invariant
                    width == row@.len(),
                    width <= 10_000,
                    row_trees <= x,
                    row_yards <= x,
            {
                let b = row[x];
                if b == 124 {
                    row_trees = row_trees + 1;
                }
                if b == 35 {
                    row_yards = row_yards + 1;
                }
            }
            trees = trees + row_trees;
            yards = yards + row_yards;
        }
        proof {
            vstd::arithmetic::mul::lemma_mul_upper_bound(
                trees as int,
                100_000_000,
                yards as int,
                100_000_000,
            );
        }
        trees * yards
    }
}

/// Runs the automaton until one value recurs at a stable spacing, then
/// jumps the billion-minute target into the detected cycle.
fn part2(input: &str) -> Result<u64, String> {
    let mut lumber = parse_grid(input)?;
    let mut seen: Vec<(u64, usize, bool, usize)> = Vec::new();
    let mut cycle_start: usize = 0;
    let mut cycle_end: usize = 0;
    let mut found = false;
    let mut i: usize = 0;
    while i < 2_000 && !found
        invariant
            grid_ok(lumber.grid@),
            i <= 2_000,
            found ==> cycle_start <= cycle_end <= 2_000,
        decreases 2_000 - i,
    {
        lumber.step();
        let value = lumber.resource_value();
        let mut at: Option<usize> = None;
        let sn = seen.len();
        for k in 0..sn
            invariant
                sn == seen@.len(),
                at matches Some(a) ==> a < sn,
        {
            if seen[k].0 == value {
                at = Some(k);
            }
        }
        match at {
            Some(k) => {
                let (_, j, has_cycle, size) = seen[k];
                if has_cycle && i >= j && i - j == size {
                    cycle_start = j;
                    cycle_end = i;
                    if j > i {
                        return Err("cycle detection failed".to_owned());
                    }
                    if cycle_end > 2_000 {
                        return Err("cycle detection failed".to_owned());
                    }
                    found = true;
                } else {
                    let spacing = if i >= j {
                        i - j
                    } else {
                        0
                    };
                    let mut entry = seen.remove(k);
                    entry.1 = i;
                    entry.2 = true;
                    entry.3 = spacing;
                    seen.insert(k, entry);
                }
            },
            None => {
                seen.push((value, i, false, 0));
            },
        }
        i = i + 1;
    }
    if !found {
        return Err("no cycle within the search budget".to_owned());
    }
    let cycle_length = cycle_end - cycle_start;
    if cycle_length == 0 || cycle_start > 1_000_000_000 {
        return Err("cycle detection failed".to_owned());
    }
    let remaining = (1_000_000_000 - cycle_start) % cycle_length;
    let mut lumber = parse_grid(input)?;
    let total = cycle_start + remaining;
    for k in 0..total
        invariant
            grid_ok(lumber.grid@),
    {
        lumber.step();
    }
    Ok(lumber.resource_value())
}

} // verus!
