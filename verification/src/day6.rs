//! Coordinate area puzzle: the largest finite region of cells closest to
//! one coordinate, and the size of the region whose total distance to all
//! coordinates stays under a target.

use vstd::prelude::*;

use crate::day::{Day, DayResult};
use crate::text;

verus! {

pub struct Instance {
    pub target_distance: usize,
}

impl Default for Instance {
    /// The puzzle's standard target distance.
    fn default() -> (r: Self)
        ensures
            r.target_distance == 10_000,
    {
        Self { target_distance: 10_000 }
    }
}

/// A grid coordinate, kept small enough by parsing that distance sums
/// stay far from the 64-bit edges.
pub struct Coord {
    pub x: i64,
    pub y: i64,
}

pub open spec fn coord_ok(c: Coord) -> bool {
    &&& -1_000_000_000 <= c.x <= 1_000_000_000
    &&& -1_000_000_000 <= c.y <= 1_000_000_000
}

impl Coord {
    /// The taxicab distance between two in-bounds coordinates.
    pub fn manhattan_distance(&self, other: &Coord) -> (r: i64)
        requires
            coord_ok(*self),
            coord_ok(*other),
        ensures
            0 <= r <= 4_000_000_000,
    {
        let dx = if self.x >= other.x {
            self.x - other.x
        } else {
            other.x - self.x
        };
        let dy = if self.y >= other.y {
            self.y - other.y
        } else {
            other.y - self.y
        };
        dx + dy
    }
}

impl Day for Instance {
    fn run(&self, input: &str) -> Result<DayResult, String> {
        if !input.is_ascii() {
            return Err("input is not ascii".to_owned());
        }
        if self.target_distance > 1_000_000_000 {
            return Err("target distance too large".to_owned());
        }
        let lines = text::split_lines(input.as_bytes());
        let mut coords: Vec<Coord> = Vec::new();
        let n = lines.len();
        for i in 0..n
            invariant
                n == lines@.len(),
                forall|j: int| 0 <= j < coords@.len() ==> coord_ok(#[trigger] coords@[j]),
        {
            match parse_coord(lines[i].as_slice()) {
                Ok(c) => coords.push(c),
                Err(e) => {
                    return Err(e);
                },
            }
        }
        let biggest = match part1(&coords) {
            Some(v) => v,
            None => {
                return Err("no finite area".to_owned());
            },
        };
        let close = match part2(&coords, self.target_distance) {
            Some(v) => v,
            None => {
                return Err("close-region count overflowed".to_owned());
            },
        };
        Ok(DayResult { part1: biggest.to_string(), part2: Some(close.to_string()) })
    }
}

/// Reads `x, y`; anything else is a construction failure.
fn parse_coord(line: &[u8]) -> (r: Result<Coord, String>)
    ensures
        r matches Ok(c) ==> coord_ok(c),
{
    let parts = text::split_byte(line, 44);
    if parts.len() != 2 {
        return Err("invalid coord".to_owned());
    }
    let xt = text::trim(parts[0].as_slice());
    let yt = text::trim(parts[1].as_slice());
    let x = match text::parse_i64(xt.as_slice()) {
        Some(v) => v,
        None => {
            return Err("invalid x".to_owned());
        },
    };
    let y = match text::parse_i64(yt.as_slice()) {
        Some(v) => v,
        None => {
            return Err("invalid y".to_owned());
        },
    };
    if x < -1_000_000_000 || x > 1_000_000_000 || y < -1_000_000_000 || y > 1_000_000_000 {
        return Err("coord out of range".to_owned());
    }
    Ok(Coord { x, y })
}

/// The size of the largest closest-to-one-coordinate region that does not
/// touch the bounding box (touching means stretching forever).
fn part1(coords: &Vec<Coord>) -> (r: Option<u64>)
    requires
        forall|j: int| 0 <= j < coords@.len() ==> coord_ok(#[trigger] coords@[j]),
{
    let m = coords.len();
    if m == 0 {
        return None;
    }
    let mut min_x = coords[0].x;
    let mut max_x = coords[0].x;
    let mut min_y = coords[0].y;
    let mut max_y = coords[0].y;
    for i in 0..m
        invariant
            m == coords@.len(),
            -1_000_000_000 <= min_x <= max_x <= 1_000_000_000,
            -1_000_000_000 <= min_y <= max_y <= 1_000_000_000,
            forall|j: int| 0 <= j < coords@.len() ==> coord_ok(#[trigger] coords@[j]),
    {
        if coords[i].x < min_x {
            min_x = coords[i].x;
        }
        if coords[i].x > max_x {
            max_x = coords[i].x;
        }
        if coords[i].y < min_y {
            min_y = coords[i].y;
        }
        if coords[i].y > max_y {
            max_y = coords[i].y;
        }
    }
    let mut counts: Vec<u64> = Vec::new();
    for i in 0..m
        invariant
            counts@.len() == i,
    {
        counts.push(0);
    }
    let mut x = min_x;
    while x <= max_x
        invariant
            m == coords@.len(),
            m > 0,
            counts@.len() == m,
            min_x <= x <= max_x + 1,
            -1_000_000_000 <= min_x <= max_x <= 1_000_000_000,
            -1_000_000_000 <= min_y <= max_y <= 1_000_000_000,
            forall|j: int| 0 <= j < coords@.len() ==> coord_ok(#[trigger] coords@[j]),
        decreases max_x + 1 - x,
    {
        let mut y = min_y;
        while y <= max_y
            invariant
                m == coords@.len(),
                m > 0,
                counts@.len() == m,
                min_y <= y <= max_y + 1,
                -1_000_000_000 <= min_x <= x <= max_x <= 1_000_000_000,
                -1_000_000_000 <= min_y <= max_y <= 1_000_000_000,
                forall|j: int| 0 <= j < coords@.len() ==> coord_ok(#[trigger] coords@[j]),
            decreases max_y + 1 - y,
        {
            let cell = Coord { x, y };
            // The closest coordinate, if it is unique.
            let mut best: i64 = i64::MAX;
            let mut best_index: usize = 0;
            let mut best_count: u64 = 0;
            for i in 0..m
                invariant
                    m == coords@.len(),
                    best_index < m,
                    coord_ok(cell),
                    forall|j: int| 0 <= j < coords@.len() ==> coord_ok(#[trigger] coords@[j]),
            {
                let d = coords[i].manhattan_distance(&cell);
                if d < best {
                    best = d;
                    best_index = i;
                    best_count = 1;
                } else if d == best && best_count < u64::MAX {
                    best_count = best_count + 1;
                }
            }
            if best_count == 1 {
                let at_border = x == min_x || x == max_x || y == min_y || y == max_y;
                let current = counts[best_index];
                if current == u64::MAX || at_border {
                    counts.set(best_index, u64::MAX);
                } else {
                    counts.set(best_index, current + 1);
                }
            }
            y = y + 1;
        }
        x = x + 1;
    }
    let mut best: Option<u64> = None;
    for i in 0..m
        invariant
            counts@.len() == m,
    {
        let c = counts[i];
        if c != u64::MAX {
            best = match best {
                Some(b) => if c > b {
                    Some(c)
                } else {
                    Some(b)
                },
                None => Some(c),
            };
        }
    }
    best
}

/// How many cells of the search box have a total distance to all
/// coordinates below the target.
fn part2(coords: &Vec<Coord>, target_distance: usize) -> (r: Option<u64>)
    requires
        forall|j: int| 0 <= j < coords@.len() ==> coord_ok(#[trigger] coords@[j]),
        target_distance <= 1_000_000_000,
{
    let m = coords.len();
    if m == 0 {
        return None;
    }
    let margin = (target_distance / m) as i64;
    let mut min_x = coords[0].x;
    let mut max_x = coords[0].x;
    for i in 0..m
        invariant
            m == coords@.len(),
            -1_000_000_000 <= min_x <= max_x <= 1_000_000_000,
            forall|j: int| 0 <= j < coords@.len() ==> coord_ok(#[trigger] coords@[j]),
    {
        if coords[i].x < min_x {
            min_x = coords[i].x;
        }
        if coords[i].x > max_x {
            max_x = coords[i].x;
        }
    }
    // Both axes of the search box span the x range, widened by the
    // margin.
    let lo_x = min_x - margin;
    let hi_x = max_x + margin;
    let target = target_distance as i64;
    let mut count: u64 = 0;
    let mut x = lo_x;
    while x <= hi_x
        invariant
            m == coords@.len(),
            m > 0,
            -2_000_000_000 <= lo_x <= hi_x <= 2_000_000_000,
            lo_x <= x,
            x <= hi_x + 1,
            forall|j: int| 0 <= j < coords@.len() ==> coord_ok(#[trigger] coords@[j]),
        decreases hi_x + 1 - x,
    {
        let mut y = lo_x;
        while y <= hi_x
            invariant
                m == coords@.len(),
                m > 0,
                -2_000_000_000 <= lo_x <= x <= hi_x <= 2_000_000_000,
                lo_x <= y,
                y <= hi_x + 1,
                forall|j: int| 0 <= j < coords@.len() ==> coord_ok(#[trigger] coords@[j]),
            decreases hi_x + 1 - y,
        {
            let mut total: i64 = 0;
            let mut overflowed = false;
            for i in 0..m
                invariant
                    m == coords@.len(),
                    -2_000_000_000 <= x <= 2_000_000_000,
                    -2_000_000_000 <= y <= 2_000_000_000,
                    total >= 0,
                    forall|j: int| 0 <= j < coords@.len() ==> coord_ok(#[trigger] coords@[j]),
            {
                let dx = if coords[i].x >= x {
                    coords[i].x - x
                } else {
                    x - coords[i].x
                };
                let dy = if coords[i].y >= y {
                    coords[i].y - y
                } else {
                    y - coords[i].y
                };
                match total.checked_add(dx + dy) {
                    Some(t) => {
                        total = t;
                    },
                    None => {
                        overflowed = true;
                    },
                }
            }
            if !overflowed && total < target {
                match count.checked_add(1) {
                    Some(c) => {
                        count = c;
                    },
                    None => {
                        return None;
                    },
                }
            }
            y = y + 1;
        }
        x = x + 1;
    }
    Some(count)
}

} // verus!
