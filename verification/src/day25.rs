//! Constellation puzzle: four-dimensional points chain into a
//! constellation whenever they come within taxicab distance three; the
//! answer is how many constellations the points form.

use vstd::prelude::*;

use crate::day::{Day, DayResult};
use crate::text;

verus! {

pub struct Instance;

/// A point of four-dimensional spacetime.
#[derive(Clone, Copy)]
pub struct Point {
    pub w: i64,
    pub x: i64,
    pub y: i64,
    pub z: i64,
}

pub open spec fn point_ok(p: Point) -> bool {
    &&& -1_000_000_000 <= p.w <= 1_000_000_000
    &&& -1_000_000_000 <= p.x <= 1_000_000_000
    &&& -1_000_000_000 <= p.y <= 1_000_000_000
    &&& -1_000_000_000 <= p.z <= 1_000_000_000
}

impl Point {
    /// The taxicab distance between two in-bounds points.
    pub fn manhattan_distance(&self, other: &Point) -> (r: i64)
        requires
            point_ok(*self),
            point_ok(*other),
        ensures
            0 <= r <= 8_000_000_000,
    {
        let dw = if self.w >= other.w {
            self.w - other.w
        } else {
            other.w - self.w
        };
        let dx = if self.x >= other.x {
            self.x - other.x
        } else {
            other.x - self.x
        };
        let dy = if self.y >= other.y {
            self.y - other.y
        } else {
            other.y - self.y
        };
        let dz = if self.z >= other.z {
            self.z - other.z
        } else {
            other.z - self.z
        };
        dw + dx + dy + dz
    }
}

impl Day for Instance {
    fn run(&self, input: &str) -> Result<DayResult, String> {
        if !input.is_ascii() {
            return Err("input is not ascii".to_owned());
        }
        let lines = text::split_lines(input.as_bytes());
        let mut points: Vec<Point> = Vec::new();
        let n = lines.len();
        for i in 0..n
            invariant
                n == lines@.len(),
                forall|j: int| 0 <= j < points@.len() ==> point_ok(#[trigger] points@[j]),
        {
            match parse_point(lines[i].as_slice()) {
                Ok(p) => points.push(p),
                Err(e) => {
                    return Err(e);
                },
            }
        }
        let constellations = make_constellations(&points);
        Ok(DayResult { part1: constellations.len().to_string(), part2: None })
    }
}

/// Reads `w,x,y,z`; anything else is a construction failure.
fn parse_point(line: &[u8]) -> (r: Result<Point, String>)
    ensures
        r matches Ok(p) ==> point_ok(p),
{
    let parts = text::split_byte(line, 44);
    if parts.len() != 4 {
        return Err("invalid point".to_owned());
    }
    let mut nums: Vec<i64> = Vec::new();
    for i in 0..4usize
        invariant
            parts@.len() == 4,
            nums@.len() == i,
            forall|j: int|
                0 <= j < nums@.len() ==> -1_000_000_000 <= #[trigger] nums@[j] <= 1_000_000_000,
    {
        let trimmed = text::trim(parts[i].as_slice());
        match text::parse_i64(trimmed.as_slice()) {
            Some(v) => {
                if v < -1_000_000_000 || v > 1_000_000_000 {
                    return Err("coordinate out of range".to_owned());
                }
                nums.push(v);
            },
            None => {
                return Err("invalid coordinate".to_owned());
            },
        }
    }
    Ok(Point { w: nums[0], x: nums[1], y: nums[2], z: nums[3] })
}

/// A constellation: the points chained together so far.
pub struct Constellation {
    pub points: Vec<Point>,
}

pub open spec fn constellation_ok(c: Constellation) -> bool {
    forall|j: int| 0 <= j < c.points@.len() ==> point_ok(#[trigger] c.points@[j])
}

impl Constellation {
    /// An empty constellation.
    pub fn new() -> (r: Self)
        ensures
            constellation_ok(r),
            r.points@.len() == 0,
    {
        Constellation { points: Vec::new() }
    }

    /// Adds one point.
    pub fn add(&mut self, point: Point)
        requires
            constellation_ok(*old(self)),
            point_ok(point),
        ensures
            constellation_ok(*final(self)),
    {
        self.points.push(point);
        proof {
            assert forall|j: int| 0 <= j < self.points@.len() implies point_ok(
                #[trigger] self.points@[j],
            ) by {
                if j < old(self).points@.len() {
                    assert(self.points@[j] == old(self).points@[j]);
                }
            }
        }
    }

    /// Moves every point of `other` into this constellation.
    pub fn merge(&mut self, other: &mut Constellation)
        requires
            constellation_ok(*old(self)),
            constellation_ok(*old(other)),
        ensures
            constellation_ok(*final(self)),
            final(other).points@.len() == 0,
    {
        let n = other.points.len();
        for i in 0..n
            invariant
                n == other.points@.len(),
                constellation_ok(*other),
                constellation_ok(*self),
        {
            let p = other.points[i];
            self.add(p);
        }
        other.points = Vec::new();
    }

    /// Whether the point comes within chaining distance of this
    /// constellation.
    fn contains(&self, point: &Point) -> (r: bool)
        requires
            constellation_ok(*self),
            point_ok(*point),
    {
        let n = self.points.len();
        for i in 0..n
            invariant
                n == self.points@.len(),
                constellation_ok(*self),
                point_ok(*point),
        {
            if self.points[i].manhattan_distance(point) <= 3 {
                return true;
            }
        }
        false
    }
}

/// Folds the points into constellations: each point starts its own and
/// swallows every existing constellation it can chain to.
pub fn make_constellations(points: &Vec<Point>) -> (r: Vec<Constellation>)
    requires
        forall|j: int| 0 <= j < points@.len() ==> point_ok(#[trigger] points@[j]),
{
    let mut constellations: Vec<Constellation> = Vec::new();
    let n = points.len();
    for k in 0..n
        invariant
            n == points@.len(),
            forall|j: int|
                0 <= j < constellations@.len() ==> constellation_ok(
                    #[trigger] constellations@[j],
                ),
            forall|j: int| 0 <= j < points@.len() ==> point_ok(#[trigger] points@[j]),
    {
        let point = points[k];
        let mut kept: Vec<Constellation> = Vec::new();
        let mut fresh = Constellation::new();
        fresh.add(point);
        let m = constellations.len();
        for i in 0..m
            invariant
                m == constellations@.len(),
                point_ok(point),
                constellation_ok(fresh),
                forall|j: int|
                    0 <= j < constellations@.len() ==> constellation_ok(
                        #[trigger] constellations@[j],
                    ),
                forall|j: int| 0 <= j < kept@.len() ==> constellation_ok(#[trigger] kept@[j]),
        {
            let mut taken = constellations.remove(i);
            if taken.contains(&point) {
                fresh.merge(&mut taken);
            } else {
                kept.push(clone_constellation(&taken));
            }
            constellations.insert(i, taken);
        }
        kept.push(fresh);
        constellations = kept;
    }
    constellations
}

/// An independent copy of a constellation.
fn clone_constellation(c: &Constellation) -> (r: Constellation)
    requires
        constellation_ok(*c),
    ensures
        constellation_ok(r),
{
    let mut out = Constellation::new();
    let n = c.points.len();
    for i in 0..n
        invariant
            n == c.points@.len(),
            constellation_ok(*c),
            constellation_ok(out),
    {
        out.add(c.points[i]);
    }
    out
}

} // verus!
