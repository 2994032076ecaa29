//! Cave traversal puzzle: region types derive from a depth-seeded erosion
//! recurrence; the answers are the risk total of the rectangle up to the
//! target and the fastest rescue time when moving costs one minute and
//! switching tools costs seven more.

use vstd::prelude::*;

use crate::day::{Day, DayResult};
use crate::text;

verus! {

pub struct Instance;

/// How much padding beyond the target the rescue search may roam into.
const SEARCH_MARGIN: usize = 200;

impl Day for Instance {
    fn run(&self, input: &str) -> Result<DayResult, String> {
        if !input.is_ascii() {
            return Err("input is not ascii".to_owned());
        }
        let (depth, tx, ty) = parse_area(input)?;
        let erosion = erosion_table(depth, tx, ty)?;
        let part1 = risk_level(&erosion, tx, ty)?;
        let part2 = traverse(&erosion, tx, ty)?;
        Ok(DayResult { part1: part1.to_string(), part2: Some(part2.to_string()) })
    }
}

/// Reads the depth line and the target line.
fn parse_area(input: &str) -> (r: Result<(u64, usize, usize), String>)
    ensures
        r matches Ok(v) ==> v.0 <= 1_000_000 && v.1 <= 1_000 && v.2 <= 1_000,
{
    let lines = text::split_lines(input.as_bytes());
    if lines.len() < 2 {
        return Err("invalid area".to_owned());
    }
    let depth_nums = numbers_of(lines[0].as_slice());
    let target_nums = numbers_of(lines[1].as_slice());
    if depth_nums.len() < 1 || target_nums.len() < 2 {
        return Err("invalid area".to_owned());
    }
    let depth = depth_nums[0];
    let tx = target_nums[0];
    let ty = target_nums[1];
    if depth > 1_000_000 {
        return Err("depth out of range".to_owned());
    }
    if tx > 1_000 || ty > 1_000 {
        return Err("target out of range".to_owned());
    }
    Ok((depth, tx as usize, ty as usize))
}

/// The unsigned numbers of a line, commas treated as blanks.
fn numbers_of(line: &[u8]) -> (r: Vec<u64>) {
    let mut normalized: Vec<u8> = Vec::new();
    let n = line.len();
    for i in 0..n
        invariant
            n == line@.len(),
    {
        let b = line[i];
        if b == 44 {
            normalized.push(32);
        } else {
            normalized.push(b);
        }
    }
    let fields = text::split_fields(normalized.as_slice());
    let mut out: Vec<u64> = Vec::new();
    let m = fields.len();
    for k in 0..m
        invariant
            m == fields@.len(),
    {
        match text::parse_u64(fields[k].as_slice()) {
            Some(v) => out.push(v),
            None => {},
        }
    }
    out
}

/// Every erosion level lies below the modulus.
pub open spec fn erosion_ok(t: Seq<Vec<u64>>, width: nat) -> bool {
    forall|j: int|
        0 <= j < t.len() ==> (#[trigger] t[j])@.len() == width && forall|i: int|
            0 <= i < t[j]@.len() ==> #[trigger] t[j]@[i] < 20_183
}

/// The erosion levels of the cave up to the search margin: mouth and
/// target erode to the depth alone, the axes follow fixed multipliers,
/// and every other region mixes its west and north neighbours.
fn erosion_table(depth: u64, tx: usize, ty: usize) -> (r: Result<Vec<Vec<u64>>, String>)
    requires
        depth <= 1_000_000,
        tx <= 1_000,
        ty <= 1_000,
    ensures
        r matches Ok(t) ==> t@.len() == ty + SEARCH_MARGIN && erosion_ok(t@, (tx + SEARCH_MARGIN) as nat),
{
    let width = tx + SEARCH_MARGIN;
    let height = ty + SEARCH_MARGIN;
    let mut table: Vec<Vec<u64>> = Vec::new();
    for y in 0..height
        invariant
            width == tx + 200,
            height == ty + 200,
            depth <= 1_000_000,
            tx <= 1_000,
            ty <= 1_000,
            table@.len() == y,
            erosion_ok(table@, width as nat),
    {
        let mut row: Vec<u64> = Vec::new();
        for x in 0..width
            invariant
                width == tx + 200,
                height == ty + 200,
                depth <= 1_000_000,
                tx <= 1_000,
                y < height,
                ty <= 1_000,
                table@.len() == y,
                erosion_ok(table@, width as nat),
                row@.len() == x,
                forall|i: int| 0 <= i < row@.len() ==> #[trigger] row@[i] < 20_183,
        {
            let geologic: u64 = if (x == 0 && y == 0) || (x == tx && y == ty) {
                0
            } else if y == 0 {
                (x as u64) * 16_807
            } else if x == 0 {
                (y as u64) * 48_271
            } else {
                proof {
                    assert(row@[x - 1] * table@[y - 1]@[x as int] < 20_183 * 20_183)
                        by (nonlinear_arith)
                        requires
                            0 <= row@[x - 1] < 20_183,
                            0 <= table@[y - 1]@[x as int] < 20_183,
                    ;
                }
                row[x - 1] * table[y - 1][x]
            };
            row.push((geologic + depth) % 20_183);
        }
        table.push(row);
    }
    Ok(table)
}

/// The summed region types of the rectangle from the mouth to the target.
fn risk_level(erosion: &Vec<Vec<u64>>, tx: usize, ty: usize) -> (r: Result<u64, String>)
    requires
        tx <= 1_000,
        ty <= 1_000,
        erosion@.len() == ty + SEARCH_MARGIN,
        erosion_ok(erosion@, (tx + SEARCH_MARGIN) as nat),
{
    let mut total: u64 = 0;
    let mut y: usize = 0;
    while y <= ty
        invariant
            tx <= 1_000,
            ty <= 1_000,
            y <= ty + 1,
            erosion@.len() == ty + 200,
            erosion_ok(erosion@, (tx + 200) as nat),
            total <= 2_002 * (y as u64),
        decreases ty + 1 - y,
    {
        let mut x: usize = 0;
        let mut row_total: u64 = 0;
        while x <= tx
            invariant
                tx <= 1_000,
                ty <= 1_000,
                y <= ty,
                x <= tx + 1,
                erosion@.len() == ty + 200,
                erosion_ok(erosion@, (tx + 200) as nat),
                row_total <= 2 * (x as u64),
            decreases tx + 1 - x,
        {
            row_total = row_total + erosion[y][x] % 3;
            x = x + 1;
        }
        proof {
            assert(x == tx + 1);
            assert(row_total <= 2_002);
        }
        total = total + row_total;
        y = y + 1;
    }
    Ok(total)
}

/// Whether the tool can be carried in a region of the given erosion.
fn tool_is_valid(tool: usize, region: u64) -> (r: bool) {
    if tool == 0 {
        // The torch is useless in wet regions.
        region != 1
    } else if tool == 1 {
        // Climbing gear cannot enter narrow regions.
        region != 2
    } else {
        // Bare hands stay out of rocky regions.
        region != 0
    }
}

/// The fastest time from the mouth with the torch to the target with the
/// torch: moving to a valid neighbour costs a minute, switching tools on
/// the way costs seven more.  The search processes states minute by
/// minute, so the first time the target is reached is optimal within the
/// searched margin.
fn traverse(erosion: &Vec<Vec<u64>>, tx: usize, ty: usize) -> (r: Result<u64, String>)
    requires
        tx <= 1_000,
        ty <= 1_000,
        erosion@.len() == ty + SEARCH_MARGIN,
        erosion_ok(erosion@, (tx + SEARCH_MARGIN) as nat),
{
    let width = tx + SEARCH_MARGIN;
    let height = ty + SEARCH_MARGIN;
    proof {
        assert(width * height * 3 <= 4_320_000) by (nonlinear_arith)
            requires
                0 <= width <= 1_200,
                0 <= height <= 1_200,
        ;
    }
    let states = width * height * 3;
    let mut best: Vec<u64> = Vec::new();
    for i in 0..states
        invariant
            best@.len() == i,
    {
        best.push(u64::MAX);
    }
    // Buckets of states by minute; a step costs 1 or 8 minutes, so a
    // bucket only ever feeds later buckets.
    let horizon: usize = 100_000;
    let mut buckets: Vec<Vec<(usize, usize, usize)>> = Vec::new();
    for i in 0..horizon
        invariant
            buckets@.len() == i,
    {
        buckets.push(Vec::new());
    }
    let mut start: Vec<(usize, usize, usize)> = Vec::new();
    start.push((0, 0, 0));
    buckets.set(0, start);
    let mut minute: usize = 0;
    while minute < horizon
        invariant
            width == tx + 200,
            height == ty + 200,
            tx <= 1_000,
            ty <= 1_000,
            states == width * height * 3,
            states <= 4_320_000,
            best@.len() == states,
            buckets@.len() == horizon,
            horizon == 100_000,
            minute <= horizon,
            erosion@.len() == ty + 200,
            erosion_ok(erosion@, (tx + 200) as nat),
        decreases horizon - minute,
    {
        let bucket = buckets[minute].clone();
        let count = bucket.len();
        let mut k: usize = 0;
        while k < count
            invariant
                k <= count,
                count == bucket@.len(),
                width == tx + 200,
                height == ty + 200,
                tx <= 1_000,
                ty <= 1_000,
                states == width * height * 3,
                states <= 4_320_000,
                best@.len() == states,
                buckets@.len() == horizon,
                horizon == 100_000,
                minute < horizon,
                erosion@.len() == ty + 200,
                erosion_ok(erosion@, (tx + 200) as nat),
            decreases count - k,
        {
            let (x, y, tool) = bucket[k];
            k = k + 1;
            if x >= width || y >= height || tool >= 3 {
                return Err("search state out of range".to_owned());
            }
            if x == tx && y == ty && tool == 0 {
                return Ok(minute as u64);
            }
            proof {
                assert((y * width + x) * 3 + tool < width * height * 3) by (nonlinear_arith)
                    requires
                        x < width,
                        y < height,
                        tool < 3,
                        0 <= x,
                        0 <= y,
                        0 <= tool,
                ;
            }
            let idx = (y * width + x) * 3 + tool;
            if best[idx] <= minute as u64 {
                continue ;
            }
            best.set(idx, minute as u64);
            let current = erosion[y][x] % 3;
            // The four neighbours, paired with each tool both regions
            // allow.
            let mut step: usize = 0;
            while step < 4
                invariant
                    step <= 4,
                    width == tx + 200,
                    height == ty + 200,
                    tx <= 1_000,
                    ty <= 1_000,
                    x < width,
                    y < height,
                    tool < 3,
                    current < 3,
                    states == width * height * 3,
                    states <= 4_320_000,
                    best@.len() == states,
                    buckets@.len() == horizon,
                    horizon == 100_000,
                    minute < horizon,
                    erosion@.len() == ty + 200,
                    erosion_ok(erosion@, (tx + 200) as nat),
                decreases 4 - step,
            {
                let (nx, ny, inside) = if step == 0 {
                    (x, y + 1, y + 1 < height)
                } else if step == 1 {
                    (x + 1, y, x + 1 < width)
                } else if step == 2 {
                    (x, if y > 0 { y - 1 } else { 0 }, y > 0)
                } else {
                    (if x > 0 { x - 1 } else { 0 }, y, x > 0)
                };
                step = step + 1;
                if !inside || nx >= width || ny >= height {
                    continue ;
                }
                let next = erosion[ny][nx] % 3;
                let mut tool2: usize = 0;
                while tool2 < 3
                    invariant
                        tool2 <= 3,
                        nx < width,
                        ny < height,
                        tool < 3,
                        width == tx + 200,
                        height == ty + 200,
                        tx <= 1_000,
                        ty <= 1_000,
                        current < 3,
                        next < 3,
                        states == width * height * 3,
                        states <= 4_320_000,
                        best@.len() == states,
                        buckets@.len() == horizon,
                        horizon == 100_000,
                        minute < horizon,
                    decreases 3 - tool2,
                {
                    let candidate = tool2;
                    tool2 = tool2 + 1;
                    if !tool_is_valid(candidate, current) || !tool_is_valid(candidate, next) {
                        continue ;
                    }
                    let cost: usize = if candidate == tool {
                        1
                    } else {
                        8
                    };
                    let arrival = minute + cost;
                    if arrival >= horizon {
                        continue ;
                    }
                    proof {
                        assert((ny * width + nx) * 3 + candidate < width * height * 3)
                            by (nonlinear_arith)
                            requires
                                nx < width,
                                ny < height,
                                candidate < 3,
                                0 <= nx,
                                0 <= ny,
                                0 <= candidate,
                        ;
                    }
                    let nidx = (ny * width + nx) * 3 + candidate;
                    if best[nidx] <= arrival as u64 {
                        continue ;
                    }
                    let mut target_bucket = buckets.remove(arrival);
                    target_bucket.push((nx, ny, candidate));
                    buckets.insert(arrival, target_bucket);
                }
            }
        }
        minute = minute + 1;
    }
    Err("target unreachable within the search margin".to_owned())
}

} // verus!
