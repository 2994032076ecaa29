//! Reservoir puzzle: water pours from a spring through sand, flows around
//! clay and settles between walls; the answers are how many tiles water
//! reaches and how many hold standing water.

use vstd::prelude::*;

use crate::day::{Day, DayResult};
use crate::text;

verus! {

/// `verbose` once asked a solver to dump the ground as it went; the
/// library computes the answers only, so it is accepted and ignored.
pub struct Instance {
    pub verbose: bool,
}

impl Default for Instance {
    fn default() -> (r: Self)
        ensures
            r.verbose == false,
    {
        Self { verbose: false }
    }
}

/// A ground square.
#[derive(Debug, Clone, Copy, PartialEq, Eq, Structural)]
pub struct Coord {
    pub x: i64,
    pub y: i64,
}

/// The ground: clay squares, the clay's vertical extent, and the water
/// found so far, each set kept without duplicates.
#[derive(Debug)]
pub struct Ground {
    pub clay: Vec<Coord>,
    pub min_y: i64,
    pub max_y: i64,
    pub flowing_water: Vec<Coord>,
    pub standing_water: Vec<Coord>,
}

/// Every coordinate of the ground stays in a comfortable range.
pub open spec fn coord_ok(c: Coord) -> bool {
    &&& -2_000_000_000 <= c.x <= 2_000_000_000
    &&& -2_000_000_000 <= c.y <= 2_000_000_000
}

pub open spec fn coords_ok(s: Seq<Coord>) -> bool {
    forall|j: int| 0 <= j < s.len() ==> coord_ok(#[trigger] s[j])
}

pub open spec fn ground_ok(g: Ground) -> bool {
    &&& coords_ok(g.clay@)
    &&& coords_ok(g.flowing_water@)
    &&& coords_ok(g.standing_water@)
    &&& -2_000_000_000 <= g.min_y <= 2_000_000_000
    &&& -2_000_000_000 <= g.max_y <= 2_000_000_000
}

impl Day for Instance {
    fn run(&self, input: &str) -> Result<DayResult, String> {
        if !input.is_ascii() {
            return Err("input is not ascii".to_owned());
        }
        let mut ground = parse_ground(input)?;
        if !ground.simulate() {
            return Err("water flow ran out of budget".to_owned());
        }
        let part1 = ground.count_water();
        let part2 = ground.count_standing_water();
        Ok(DayResult { part1: part1.to_string(), part2: Some(part2.to_string()) })
    }
}

/// Whether the set lists `(x, y)`.
fn contains_coord(set: &Vec<Coord>, x: i64, y: i64) -> (r: bool) {
    let n = set.len();
    for i in 0..n
        invariant
            n == set@.len(),
    {
        if set[i].x == x && set[i].y == y {
            return true;
        }
    }
    false
}

/// Adds `(x, y)` to the set unless it is already there.
fn insert_coord(set: &mut Vec<Coord>, x: i64, y: i64)
    requires
        coords_ok(old(set)@),
        -2_000_000_000 <= x <= 2_000_000_000,
        -2_000_000_000 <= y <= 2_000_000_000,
    ensures
        coords_ok(final(set)@),
{
    if !contains_coord(set, x, y) {
        set.push(Coord { x, y });
        proof {
            assert forall|j: int| 0 <= j < set@.len() implies coord_ok(#[trigger] set@[j]) by {}
        }
    }
}

/// Reads the clay veins: each line fixes one axis and ranges over the
/// other.
pub fn parse_ground(input: &str) -> (r: Result<Ground, String>)
    ensures
        r matches Ok(g) ==> ground_ok(g),
{
    let lines = text::split_lines(input.as_bytes());
    let mut clay: Vec<Coord> = Vec::new();
    let n = lines.len();
    for i in 0..n
        invariant
            n == lines@.len(),
            coords_ok(clay@),
    {
        let line = lines[i].as_slice();
        let parts = text::split_byte(line, 44);
        if parts.len() != 2 {
            return Err("missing second part".to_owned());
        }
        let first = text::split_byte(parts[0].as_slice(), 61);
        if first.len() != 2 {
            return Err("invalid parts".to_owned());
        }
        let second_raw = text::trim(parts[1].as_slice());
        let second = text::split_byte(second_raw.as_slice(), 61);
        if second.len() != 2 {
            return Err("invalid parts".to_owned());
        }
        let is_y_range = text::bytes_eq(first[0].as_slice(), "x".as_bytes());
        let fixed = match text::parse_i64(first[1].as_slice()) {
            Some(v) => v,
            None => {
                return Err("invalid coordinate".to_owned());
            },
        };
        // The range is written `a..b`.
        let bounds = text::split_byte(second[1].as_slice(), 46);
        if bounds.len() != 3 {
            return Err("invalid second part".to_owned());
        }
        let start = match text::parse_i64(bounds[0].as_slice()) {
            Some(v) => v,
            None => {
                return Err("invalid range".to_owned());
            },
        };
        let end = match text::parse_i64(bounds[2].as_slice()) {
            Some(v) => v,
            None => {
                return Err("invalid range".to_owned());
            },
        };
        if fixed < -1_000_000_000 || fixed > 1_000_000_000 || start < -1_000_000_000 || start
            > 1_000_000_000 || end < -1_000_000_000 || end > 1_000_000_000 {
            return Err("coordinate out of range".to_owned());
        }
        if end - start > 1_000_000 {
            return Err("vein too long".to_owned());
        }
        if start <= end {
            let mut v = start;
            while v <= end
                invariant
                    coords_ok(clay@),
                    start <= v,
                    v <= end + 1,
                    -1_000_000_000 <= start <= 1_000_000_000,
                    -1_000_000_000 <= end <= 1_000_000_000,
                    -1_000_000_000 <= fixed <= 1_000_000_000,
                decreases end + 1 - v,
            {
                if is_y_range {
                    insert_coord(&mut clay, fixed, v);
                } else {
                    insert_coord(&mut clay, v, fixed);
                }
                v = v + 1;
            }
        }
    }
    if clay.len() == 0 {
        return Err("no clay".to_owned());
    }
    let m = clay.len();
    let mut min_y = clay[0].y;
    let mut max_y = clay[0].y;
    for i in 0..m
        invariant
            m == clay@.len(),
            coords_ok(clay@),
            -2_000_000_000 <= min_y <= 2_000_000_000,
            -2_000_000_000 <= max_y <= 2_000_000_000,
    {
        if clay[i].y < min_y {
            min_y = clay[i].y;
        }
        if clay[i].y > max_y {
            max_y = clay[i].y;
        }
    }
    Ok(
        Ground {
            clay,
            min_y,
            max_y,
            flowing_water: Vec::new(),
            standing_water: Vec::new(),
        },
    )
}

impl Ground {
    /// Pours water from the spring above the clay: it falls through sand,
    /// spreads sideways on solid ground, settles between clay walls, and
    /// every overfilled basin re-examines the row above.  `false` reports
    /// a flow that exhausted its budget.
    pub fn simulate(&mut self) -> (r: bool)
        requires
            ground_ok(*old(self)),
        ensures
            ground_ok(*final(self)),
    {
        let mut to_fill: Vec<Coord> = Vec::new();
        to_fill.push(Coord { x: 500, y: 0 });
        let mut rounds: u64 = 100_000;
        while to_fill.len() > 0 && rounds > 0
            invariant
                ground_ok(*self),
                coords_ok(to_fill@),
            decreases rounds,
        {
            rounds = rounds - 1;
            let mut next_to_fill: Vec<Coord> = Vec::new();
            let count = to_fill.len();
            let mut idx: usize = 0;
            while idx < count
                invariant
                    count == to_fill@.len(),
                    ground_ok(*self),
                    coords_ok(to_fill@),
                    coords_ok(next_to_fill@),
                decreases count - idx,
            {
                let coord = to_fill[idx];
                idx = idx + 1;
                if coord.y > self.max_y {
                    continue ;
                }
                if coord.x < -1_000_000_000 || coord.x > 1_000_000_000 || coord.y
                    < -1_000_000_000 || coord.y > 1_000_000_000 {
                    return false;
                }
                if contains_coord(&self.clay, coord.x, coord.y) {
                    continue ;
                }
                if contains_coord(&self.standing_water, coord.x, coord.y) {
                    continue ;
                }
                insert_coord(&mut self.flowing_water, coord.x, coord.y);
                if !contains_coord(&self.clay, coord.x, coord.y + 1) && !contains_coord(
                    &self.standing_water,
                    coord.x,
                    coord.y + 1,
                ) {
                    next_to_fill.push(Coord { x: coord.x, y: coord.y + 1 });
                    continue ;
                }
                let left_wall = self.scan(&mut next_to_fill, coord, -1);
                let right_wall = self.scan(&mut next_to_fill, coord, 1);
                match (left_wall, right_wall) {
                    (Some(lw), Some(rw)) => {
                        if lw < -2_000_000_000 || rw > 2_000_000_000 || lw >= rw {
                            return false;
                        }
                        let mut x = lw + 1;
                        while x < rw
                            invariant
                                ground_ok(*self),
                                lw < x,
                                lw >= -2_000_000_000,
                                rw <= 2_000_000_000,
                                x <= rw,
                                -2_000_000_000 <= coord.y <= 2_000_000_000,
                            decreases rw - x,
                        {
                            insert_coord(&mut self.standing_water, x, coord.y);
                            x = x + 1;
                        }
                        next_to_fill.push(Coord { x: coord.x, y: coord.y - 1 });
                    },
                    _ => {},
                }
            }
            to_fill = next_to_fill;
        }
        to_fill.len() == 0
    }

    /// Spreads from `coord` sideways: flowing water marks every reached
    /// square, a clay wall stops the scan with its position, and an open
    /// floor spills downwards instead.
    fn scan(&mut self, next_to_fill: &mut Vec<Coord>, coord: Coord, step: i64) -> (r: Option<i64>)
        requires
            ground_ok(*old(self)),
            coords_ok(old(next_to_fill)@),
            coord_ok(coord),
            -1_000_000_000 <= coord.x <= 1_000_000_000,
            -1_000_000_000 <= coord.y <= 1_000_000_000,
            step == -1 || step == 1,
        ensures
            ground_ok(*final(self)),
            coords_ok(final(next_to_fill)@),
            r matches Some(w) ==> -2_000_000_000 <= w <= 2_000_000_000,
    {
        let mut cx = coord.x;
        let mut fuel: u64 = 1_000_000_000;
        while fuel > 0
            invariant
                ground_ok(*self),
                coords_ok(next_to_fill@),
                -1_500_000_000 <= cx <= 1_500_000_000,
                -1_000_000_000 <= coord.y <= 1_000_000_000,
                step == -1 || step == 1,
            decreases fuel,
        {
            fuel = fuel - 1;
            if cx < -1_400_000_000 || cx > 1_400_000_000 {
                return None;
            }
            cx = cx + step;
            if contains_coord(&self.clay, cx, coord.y) {
                return Some(cx);
            }
            insert_coord(&mut self.flowing_water, cx, coord.y);
            if !contains_coord(&self.clay, cx, coord.y + 1) && !contains_coord(
                &self.standing_water,
                cx,
                coord.y + 1,
            ) {
                next_to_fill.push(Coord { x: cx, y: coord.y + 1 });
                return None;
            }
        }
        None
    }

    /// How many squares within the clay's vertical extent hold water of
    /// either kind.
    pub fn count_water(&self) -> (r: u64) {
        let mut count: u64 = 0;
        let n = self.flowing_water.len();
        for i in 0..n
            invariant
                n == self.flowing_water@.len(),
                count <= i,
        {
            let c = self.flowing_water[i];
            if c.y >= self.min_y && c.y <= self.max_y {
                count = count + 1;
            }
        }
        let m = self.standing_water.len();
        let mut extra: u64 = 0;
        for i in 0..m
            invariant
                m == self.standing_water@.len(),
                extra <= i,
        {
            let c = self.standing_water[i];
            if c.y >= self.min_y && c.y <= self.max_y && !contains_coord(
                &self.flowing_water,
                c.x,
                c.y,
            ) {
                extra = extra + 1;
            }
        }
        match count.checked_add(extra) {
            Some(total) => total,
            None => u64::MAX,
        }
    }

    /// How many squares within the clay's vertical extent hold standing
    /// water.
    pub fn count_standing_water(&self) -> (r: u64) {
        let mut count: u64 = 0;
        let n = self.standing_water.len();
        for i in 0..n
            invariant
                n == self.standing_water@.len(),
                count <= i,
        {
            let c = self.standing_water[i];
            if c.y >= self.min_y && c.y <= self.max_y {
                count = count + 1;
            }
        }
        count
    }
}

impl core::str::FromStr for Ground {
    type Err = String;

    fn from_str(s: &str) -> Result<Ground, String> {
        if !s.is_ascii() {
            return Err("input is not ascii".to_owned());
        }
        parse_ground(s)
    }
}

} // verus!
