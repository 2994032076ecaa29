//! Nanobot puzzle: bots broadcast over taxicab ranges; the answers are
//! how many bots the strongest one reaches, and the distance from the
//! origin to the point in range of the most bots, found by searching a
//! coarse grid and refining it tenfold at a time.

use vstd::prelude::*;

use crate::day::{Day, DayResult};
use crate::text;

verus! {

pub struct Instance;

/// The refinement factor between search passes.
const DIVISOR: i64 = 10;

/// How far around a refined corner the next pass looks.
const ADDITIONAL_SEARCH: i64 = 20;

/// A position in taxicab space.
pub struct Coord {
    pub x: i64,
    pub y: i64,
    pub z: i64,
}

/// A nanobot: where it sits and how far it reaches.
pub struct Nanobot {
    pub coord: Coord,
    pub r: i64,
}

/// Parsed bots stay within modest bounds; the search keeps its own,
/// looser ones.
pub open spec fn bot_ok(b: Nanobot) -> bool {
    &&& -1_000_000_000 <= b.coord.x <= 1_000_000_000
    &&& -1_000_000_000 <= b.coord.y <= 1_000_000_000
    &&& -1_000_000_000 <= b.coord.z <= 1_000_000_000
    &&& -1_000_000_000 <= b.r <= 1_000_000_000
}

/// The bound inside which every search computation stays safe.
pub open spec fn search_coord_ok(c: Coord) -> bool {
    &&& -100_000_000_000_000 <= c.x <= 100_000_000_000_000
    &&& -100_000_000_000_000 <= c.y <= 100_000_000_000_000
    &&& -100_000_000_000_000 <= c.z <= 100_000_000_000_000
}

impl Coord {
    /// The taxicab distance between two in-bounds positions.
    pub fn distance(&self, other: &Coord) -> (r: i64)
        requires
            search_coord_ok(*self),
            search_coord_ok(*other),
        ensures
            0 <= r <= 600_000_000_000_000,
    {
        let dx = if self.x >= other.x {
            self.x - other.x
        } else {
            other.x - self.x
        };
        let dy = if self.y >= other.y {
            self.y - other.y
        } else {
            other.y - self.y
        };
        let dz = if self.z >= other.z {
            self.z - other.z
        } else {
            other.z - self.z
        };
        dx + dy + dz
    }
}

impl Nanobot {
    /// Whether the position sits within this bot's range.
    fn in_range(&self, other: &Coord) -> (r: bool)
        requires
            search_coord_ok(self.coord),
            search_coord_ok(*other),
            -1_000_000_000 <= self.r <= 1_000_000_000,
    {
        let distance = self.coord.distance(other);
        distance <= self.r
    }

    /// Whether the position sits within range one, which forgives the
    /// rounding of a coarse search pass.
    fn almost_in_range(&self, other: &Coord) -> (r: bool)
        requires
            search_coord_ok(self.coord),
            search_coord_ok(*other),
            -1_000_000_000 <= self.r <= 1_000_000_000,
    {
        let distance = self.coord.distance(other);
        distance <= self.r + 1
    }
}

impl Day for Instance {
    fn run(&self, input: &str) -> Result<DayResult, String> {
        if !input.is_ascii() {
            return Err("input is not ascii".to_owned());
        }
        let lines = text::split_lines(input.as_bytes());
        let mut bots: Vec<Nanobot> = Vec::new();
        let n = lines.len();
        for i in 0..n
            invariant
                n == lines@.len(),
                forall|j: int| 0 <= j < bots@.len() ==> bot_ok(#[trigger] bots@[j]),
        {
            match parse_bot(lines[i].as_slice()) {
                Ok(b) => bots.push(b),
                Err(e) => {
                    return Err(e);
                },
            }
        }
        let part1 = part1(&bots)?;
        let part2 = part2(&bots)?;
        Ok(DayResult { part1: part1.to_string(), part2: Some(part2.to_string()) })
    }
}

/// Reads `pos=<x,y,z>, r=R`; anything else is a construction failure.
fn parse_bot(line: &[u8]) -> (r: Result<Nanobot, String>)
    ensures
        r matches Ok(b) ==> bot_ok(b),
{
    // Break the line at commas, angle brackets and equal signs; the
    // numeric fields land at fixed positions.
    let mut normalized: Vec<u8> = Vec::new();
    let n = line.len();
    for i in 0..n
        invariant
            n == line@.len(),
    {
        let b = line[i];
        if b == 44 || b == 60 || b == 62 || b == 61 {
            normalized.push(32);
        } else {
            normalized.push(b);
        }
    }
    let fields = text::split_fields(normalized.as_slice());
    if fields.len() != 6 {
        return Err("invalid nanobot".to_owned());
    }
    let mut nums: Vec<i64> = Vec::new();
    for k in 0..4usize
        invariant
            fields@.len() == 6,
            nums@.len() == k,
            forall|j: int|
                0 <= j < nums@.len() ==> -1_000_000_000 <= #[trigger] nums@[j] <= 1_000_000_000,
    {
        // The numeric fields: the three coordinates, then the radius
        // after the `r` marker.
        let at = if k < 3 {
            k + 1
        } else {
            5
        };
        match text::parse_i64(fields[at].as_slice()) {
            Some(v) => {
                if v < -1_000_000_000 || v > 1_000_000_000 {
                    return Err("coordinate out of range".to_owned());
                }
                nums.push(v);
            },
            None => {
                return Err("invalid coordinate".to_owned());
            },
        }
    }
    Ok(Nanobot { coord: Coord { x: nums[0], y: nums[1], z: nums[2] }, r: nums[3] })
}

/// How many bots the strongest bot reaches, itself included.
fn part1(bots: &Vec<Nanobot>) -> (r: Result<u64, String>)
    requires
        forall|j: int| 0 <= j < bots@.len() ==> bot_ok(#[trigger] bots@[j]),
{
    let n = bots.len();
    if n == 0 {
        return Err("no nanobots".to_owned());
    }
    let mut best: usize = 0;
    for i in 0..n
        invariant
            n == bots@.len(),
            best < n,
    {
        if bots[i].r > bots[best].r {
            best = i;
        }
    }
    let mut count: u64 = 0;
    for i in 0..n
        invariant
            n == bots@.len(),
            best < n,
            count <= i,
            forall|j: int| 0 <= j < bots@.len() ==> bot_ok(#[trigger] bots@[j]),
    {
        if bots[best].in_range(&bots[i].coord) {
            count = count + 1;
        }
    }
    Ok(count)
}

/// Truncating division by a positive divisor, the convention integer
/// division uses at runtime.
fn div_towards_zero(x: i64, d: i64) -> (r: i64)
    requires
        d >= 1,
        -100_000_000_000_000 <= x <= 100_000_000_000_000,
    ensures
        -100_000_000_000_000 <= r <= 100_000_000_000_000,
        x >= 0 ==> 0 <= r <= x,
        x < 0 ==> x <= r <= 0,
{
    if x >= 0 {
        ((x as u64) / (d as u64)) as i64
    } else {
        let q = ((-x) as u64) / (d as u64);
        -(q as i64)
    }
}

/// The bots with every coordinate and radius divided down to the current
/// search scale.
fn scale_bots(bots: &Vec<Nanobot>, divisor: i64) -> (r: Vec<Nanobot>)
    requires
        divisor >= 1,
        forall|j: int| 0 <= j < bots@.len() ==> bot_ok(#[trigger] bots@[j]),
    ensures
        r@.len() == bots@.len(),
        forall|j: int| 0 <= j < r@.len() ==> bot_ok(#[trigger] r@[j]),
{
    let n = bots.len();
    let mut out: Vec<Nanobot> = Vec::new();
    for i in 0..n
        invariant
            n == bots@.len(),
            divisor >= 1,
            out@.len() == i,
            forall|j: int| 0 <= j < bots@.len() ==> bot_ok(#[trigger] bots@[j]),
            forall|j: int| 0 <= j < out@.len() ==> bot_ok(#[trigger] out@[j]),
    {
        let b = &bots[i];
        out.push(
            Nanobot {
                coord: Coord {
                    x: div_towards_zero(b.coord.x, divisor),
                    y: div_towards_zero(b.coord.y, divisor),
                    z: div_towards_zero(b.coord.z, divisor),
                },
                r: div_towards_zero(b.r, divisor),
            },
        );
    }
    out
}

/// Searches a coarse grid for the point in range of the most bots,
/// preferring points closer to the origin, then rescales tenfold and
/// repeats around the best corner until full resolution.
fn part2(bots: &Vec<Nanobot>) -> (r: Result<i64, String>)
    requires
        forall|j: int| 0 <= j < bots@.len() ==> bot_ok(#[trigger] bots@[j]),
{
    let n = bots.len();
    if n == 0 {
        return Err("no nanobots".to_owned());
    }
    let mut max_r: i64 = 0;
    for i in 0..n
        invariant
            n == bots@.len(),
            0 <= max_r <= 1_000_000_000,
            forall|j: int| 0 <= j < bots@.len() ==> bot_ok(#[trigger] bots@[j]),
    {
        if bots[i].r > max_r {
            max_r = bots[i].r;
        }
    }
    let bound = div_towards_zero(max_r, ADDITIONAL_SEARCH);
    let mut divisor: i64 = DIVISOR;
    let mut grow: u32 = 40;
    while divisor < bound && grow > 0
        invariant
            1 <= divisor <= 10_000_000_000,
            0 <= bound <= 1_000_000_000,
        decreases grow,
    {
        grow = grow - 1;
        divisor = divisor * DIVISOR;
    }
    let mut scaled = scale_bots(bots, divisor);
    let mut min_x: i64 = scaled[0].coord.x - scaled[0].r;
    let mut max_x: i64 = scaled[0].coord.x + scaled[0].r;
    let mut min_y: i64 = scaled[0].coord.y - scaled[0].r;
    let mut max_y: i64 = scaled[0].coord.y + scaled[0].r;
    let mut min_z: i64 = scaled[0].coord.z - scaled[0].r;
    let mut max_z: i64 = scaled[0].coord.z + scaled[0].r;
    for i in 0..n
        invariant
            n == scaled@.len(),
            -2_000_000_000 <= min_x <= 2_000_000_000,
            -2_000_000_000 <= max_x <= 2_000_000_000,
            -2_000_000_000 <= min_y <= 2_000_000_000,
            -2_000_000_000 <= max_y <= 2_000_000_000,
            -2_000_000_000 <= min_z <= 2_000_000_000,
            -2_000_000_000 <= max_z <= 2_000_000_000,
            forall|j: int| 0 <= j < scaled@.len() ==> bot_ok(#[trigger] scaled@[j]),
    {
        let b = &scaled[i];
        if b.coord.x - b.r < min_x {
            min_x = b.coord.x - b.r;
        }
        if b.coord.x + b.r > max_x {
            max_x = b.coord.x + b.r;
        }
        if b.coord.y - b.r < min_y {
            min_y = b.coord.y - b.r;
        }
        if b.coord.y + b.r > max_y {
            max_y = b.coord.y + b.r;
        }
        if b.coord.z - b.r < min_z {
            min_z = b.coord.z - b.r;
        }
        if b.coord.z + b.r > max_z {
            max_z = b.coord.z + b.r;
        }
    }
    let mut best_coord = Coord { x: 0, y: 0, z: 0 };
    let mut rounds: u32 = 12;
    loop
        invariant_except_break
            1 <= divisor <= 10_000_000_000,
        invariant
            n == bots@.len(),
            search_coord_ok(best_coord),
            n == scaled@.len(),
            -20_000_000_000_000 <= min_x <= 20_000_000_000_000,
            -20_000_000_000_000 <= max_x <= 20_000_000_000_000,
            -20_000_000_000_000 <= min_y <= 20_000_000_000_000,
            -20_000_000_000_000 <= max_y <= 20_000_000_000_000,
            -20_000_000_000_000 <= min_z <= 20_000_000_000_000,
            -20_000_000_000_000 <= max_z <= 20_000_000_000_000,
            forall|j: int| 0 <= j < bots@.len() ==> bot_ok(#[trigger] bots@[j]),
            forall|j: int| 0 <= j < scaled@.len() ==> bot_ok(#[trigger] scaled@[j]),
        ensures
            search_coord_ok(best_coord),
        decreases rounds,
    {
        if rounds == 0 {
            return Err("search did not converge".to_owned());
        }
        rounds = rounds - 1;
        let mut max_count: u64 = 0;
        let mut best_distance: i64 = 0;
        let hi_x = if max_x < min_x {
            min_x - 1
        } else {
            max_x
        };
        let hi_y = if max_y < min_y {
            min_y - 1
        } else {
            max_y
        };
        let hi_z = if max_z < min_z {
            min_z - 1
        } else {
            max_z
        };
        let mut x = min_x;
        while x <= hi_x
            invariant
                n == scaled@.len(),
                min_x <= x,
                x <= hi_x + 1,
                -20_000_000_000_001 <= min_x <= 20_000_000_000_000,
                min_x - 1 <= hi_x <= 20_000_000_000_000,
                -20_000_000_000_001 <= min_y <= 20_000_000_000_000,
                min_y - 1 <= hi_y <= 20_000_000_000_000,
                -20_000_000_000_001 <= min_z <= 20_000_000_000_000,
                min_z - 1 <= hi_z <= 20_000_000_000_000,
                search_coord_ok(best_coord),
                forall|j: int| 0 <= j < scaled@.len() ==> bot_ok(#[trigger] scaled@[j]),
            decreases hi_x + 1 - x,
        {
            let mut y = min_y;
            while y <= hi_y
                invariant
                    n == scaled@.len(),
                    min_y <= y,
                    y <= hi_y + 1,
                    -20_000_000_000_001 <= x <= 20_000_000_000_001,
                    -20_000_000_000_001 <= min_y <= 20_000_000_000_000,
                    min_y - 1 <= hi_y <= 20_000_000_000_000,
                    -20_000_000_000_001 <= min_z <= 20_000_000_000_000,
                    min_z - 1 <= hi_z <= 20_000_000_000_000,
                    search_coord_ok(best_coord),
                    forall|j: int| 0 <= j < scaled@.len() ==> bot_ok(#[trigger] scaled@[j]),
                decreases hi_y + 1 - y,
            {
                let mut z = min_z;
                while z <= hi_z
                    invariant
                        n == scaled@.len(),
                        min_z <= z,
                        z <= hi_z + 1,
                        -20_000_000_000_001 <= x <= 20_000_000_000_001,
                        -20_000_000_000_001 <= y <= 20_000_000_000_001,
                        -20_000_000_000_001 <= min_z <= 20_000_000_000_000,
                        min_z - 1 <= hi_z <= 20_000_000_000_000,
                        search_coord_ok(best_coord),
                        forall|j: int| 0 <= j < scaled@.len() ==> bot_ok(#[trigger] scaled@[j]),
                    decreases hi_z + 1 - z,
                {
                    let coord = Coord { x, y, z };
                    let mut count: u64 = 0;
                    for i in 0..n
                        invariant
                            n == scaled@.len(),
                            count <= i,
                            search_coord_ok(coord),
                            forall|j: int| 0 <= j < scaled@.len() ==> bot_ok(#[trigger] scaled@[j]),
                    {
                        let hit = if divisor == 1 {
                            scaled[i].in_range(&coord)
                        } else {
                            scaled[i].almost_in_range(&coord)
                        };
                        if hit {
                            count = count + 1;
                        }
                    }
                    let origin = Coord { x: 0, y: 0, z: 0 };
                    let distance = coord.distance(&origin);
                    if count > max_count || (count == max_count && distance < best_distance) {
                        max_count = count;
                        best_coord = Coord { x, y, z };
                        best_distance = distance;
                    }
                    z = z + 1;
                }
                y = y + 1;
            }
            x = x + 1;
        }
        divisor = div_towards_zero(divisor, DIVISOR);
        if divisor == 0 {
            break ;
        }
        if best_coord.x > 1_000_000_000_000 || best_coord.x < -1_000_000_000_000 || best_coord.y
            > 1_000_000_000_000 || best_coord.y < -1_000_000_000_000 || best_coord.z
            > 1_000_000_000_000 || best_coord.z < -1_000_000_000_000 {
            return Err("search left its supported range".to_owned());
        }
        min_x = best_coord.x * DIVISOR - ADDITIONAL_SEARCH;
        max_x = best_coord.x * DIVISOR + ADDITIONAL_SEARCH;
        min_y = best_coord.y * DIVISOR - ADDITIONAL_SEARCH;
        max_y = best_coord.y * DIVISOR + ADDITIONAL_SEARCH;
        min_z = best_coord.z * DIVISOR - ADDITIONAL_SEARCH;
        max_z = best_coord.z * DIVISOR + ADDITIONAL_SEARCH;
        scaled = scale_bots(bots, divisor);
    }
    let origin = Coord { x: 0, y: 0, z: 0 };
    Ok(best_coord.distance(&origin))
}

} // verus!
