//! Drifting light puzzle: points move with constant velocities and
//! briefly align into letters; the answers are the message they draw and
//! how many seconds that takes.

use vstd::prelude::*;

use crate::day::{Day, DayResult};
use crate::text;

verus! {

pub struct Instance;

/// One light: its position and velocity.
pub struct Point {
    pub px: i64,
    pub py: i64,
    pub vx: i64,
    pub vy: i64,
}

pub open spec fn point_ok(p: Point) -> bool {
    &&& -1_000_000_000_000 <= p.px <= 1_000_000_000_000
    &&& -1_000_000_000_000 <= p.py <= 1_000_000_000_000
    &&& -1_000_000 <= p.vx <= 1_000_000
    &&& -1_000_000 <= p.vy <= 1_000_000
}

impl Day for Instance {
    fn run(&self, input: &str) -> Result<DayResult, String> {
        if !input.is_ascii() {
            return Err("input is not ascii".to_owned());
        }
        let lines = text::split_lines(input.as_bytes());
        let mut points: Vec<Point> = Vec::new();
        let n = lines.len();
        for i in 0..n
            invariant
                n == lines@.len(),
                forall|j: int| 0 <= j < points@.len() ==> point_ok(#[trigger] points@[j]),
        {
            match parse_point(lines[i].as_slice()) {
                Ok(p) => points.push(p),
                Err(e) => {
                    return Err(e);
                },
            }
        }
        let (message, seconds) = find_message(&mut points)?;
        Ok(DayResult { part1: message, part2: Some(seconds.to_string()) })
    }
}

/// Reads `position=< x, y> velocity=< x, y>`; anything else is a
/// construction failure.
fn parse_point(line: &[u8]) -> (r: Result<Point, String>)
    ensures
        r matches Ok(p) ==> point_ok(p),
{
    // Break the line at angle brackets and commas; the numeric tokens are
    // the two coordinates and the two velocities.
    let mut normalized: Vec<u8> = Vec::new();
    let n = line.len();
    for i in 0..n
        invariant
            n == line@.len(),
    {
        let b = line[i];
        if b == 60 || b == 62 || b == 44 {
            normalized.push(32);
        } else {
            normalized.push(b);
        }
    }
    let fields = text::split_fields(normalized.as_slice());
    let mut nums: Vec<i64> = Vec::new();
    let m = fields.len();
    for k in 0..m
        invariant
            m == fields@.len(),
            forall|j: int|
                0 <= j < nums@.len() ==> -1_000_000_000_000 <= #[trigger] nums@[j]
                    <= 1_000_000_000_000,
    {
        match text::parse_i64(fields[k].as_slice()) {
            Some(v) => {
                if v < -1_000_000_000_000 || v > 1_000_000_000_000 {
                    return Err("coordinate out of range".to_owned());
                }
                nums.push(v);
            },
            None => {},
        }
    }
    if nums.len() != 4 {
        return Err("invalid point".to_owned());
    }
    if nums[2] < -1_000_000 || nums[2] > 1_000_000 || nums[3] < -1_000_000 || nums[3] > 1_000_000 {
        return Err("velocity out of range".to_owned());
    }
    Ok(Point { px: nums[0], py: nums[1], vx: nums[2], vy: nums[3] })
}

/// Moves every point one second along its velocity; `false` reports a
/// position leaving the supported range.
fn next_step(points: &mut Vec<Point>) -> (r: bool)
    requires
        forall|j: int| 0 <= j < old(points)@.len() ==> point_ok(#[trigger] old(points)@[j]),
    ensures
        final(points)@.len() == old(points)@.len(),
        forall|j: int| 0 <= j < final(points)@.len() ==> point_ok(#[trigger] final(points)@[j]),
{
    let n = points.len();
    for i in 0..n
        invariant
            n == points@.len(),
            n == old(points)@.len(),
            forall|j: int| 0 <= j < points@.len() ==> point_ok(#[trigger] points@[j]),
    {
        let p = &points[i];
        let nx = p.px + p.vx;
        let ny = p.py + p.vy;
        if nx < -1_000_000_000_000 || nx > 1_000_000_000_000 || ny < -1_000_000_000_000 || ny
            > 1_000_000_000_000 {
            return false;
        }
        let moved = Point { px: nx, py: ny, vx: p.vx, vy: p.vy };
        points.set(i, moved);
    }
    true
}

/// The corners of the points' bounding box.
fn bounding_box(points: &Vec<Point>) -> (r: (i64, i64, i64, i64))
    requires
        points@.len() > 0,
        forall|j: int| 0 <= j < points@.len() ==> point_ok(#[trigger] points@[j]),
    ensures
        -1_000_000_000_000 <= r.0 <= r.1 <= 1_000_000_000_000,
        -1_000_000_000_000 <= r.2 <= r.3 <= 1_000_000_000_000,
        forall|j: int|
            0 <= j < points@.len() ==> r.0 <= (#[trigger] points@[j]).px <= r.1 && r.2
                <= points@[j].py <= r.3,
{
    let n = points.len();
    let mut min_x = points[0].px;
    let mut max_x = points[0].px;
    let mut min_y = points[0].py;
    let mut max_y = points[0].py;
    for i in 0..n
        invariant
            n == points@.len(),
            n > 0,
            -1_000_000_000_000 <= min_x <= max_x <= 1_000_000_000_000,
            -1_000_000_000_000 <= min_y <= max_y <= 1_000_000_000_000,
            forall|j: int| 0 <= j < points@.len() ==> point_ok(#[trigger] points@[j]),
            forall|j: int|
                0 <= j < i ==> min_x <= (#[trigger] points@[j]).px <= max_x && min_y
                    <= points@[j].py <= max_y,
    {
        if points[i].px < min_x {
            min_x = points[i].px;
        }
        if points[i].px > max_x {
            max_x = points[i].px;
        }
        if points[i].py < min_y {
            min_y = points[i].py;
        }
        if points[i].py > max_y {
            max_y = points[i].py;
        }
    }
    (min_x, max_x, min_y, max_y)
}

/// Steps the points until they crowd into a message-sized box with at
/// least one blank column between letters, and draws that box.  Gives up
/// when the points drift out of range or no message forms within the
/// search budget.
fn find_message(points: &mut Vec<Point>) -> (r: Result<(String, u64), String>)
    requires
        forall|j: int| 0 <= j < old(points)@.len() ==> point_ok(#[trigger] old(points)@[j]),
{
    if points.len() == 0 {
        return Err("no points".to_owned());
    }
    let mut seconds: u64 = 0;
    let mut budget: u64 = 1_000_000;
    while budget > 0
        invariant
            points@.len() > 0,
            forall|j: int| 0 <= j < points@.len() ==> point_ok(#[trigger] points@[j]),
            seconds <= 1_000_000,
            budget <= 1_000_000,
            seconds + budget == 1_000_000,
        decreases budget,
    {
        budget = budget - 1;
        if !next_step(points) {
            return Err("points drifted out of range".to_owned());
        }
        seconds = seconds + 1;
        let (min_x, max_x, min_y, max_y) = bounding_box(points);
        if max_x - min_x < 100 && max_y - min_y < 10 {
            let row_size = (max_x - min_x + 1) as usize;
            let height = (max_y - min_y + 1) as usize;
            // Plot the points.
            let mut grid: Vec<Vec<bool>> = Vec::new();
            for y in 0..height
                invariant
                    grid@.len() == y,
                    height <= 10,
                    row_size <= 100,
                    forall|j: int| 0 <= j < grid@.len() ==> (#[trigger] grid@[j])@.len() == row_size,
            {
                let mut row: Vec<bool> = Vec::new();
                for x in 0..row_size
                    invariant
                        row@.len() == x,
                {
                    row.push(false);
                }
                grid.push(row);
            }
            let n = points.len();
            for i in 0..n
                invariant
                    n == points@.len(),
                    grid@.len() == height,
                    height <= 10,
                    row_size <= 100,
                    row_size == max_x - min_x + 1,
                    height == max_y - min_y + 1,
                    -1_000_000_000_000 <= min_x <= 1_000_000_000_000,
                    -1_000_000_000_000 <= min_y <= 1_000_000_000_000,
                    forall|j: int| 0 <= j < grid@.len() ==> (#[trigger] grid@[j])@.len() == row_size,
                    forall|j: int|
                        0 <= j < points@.len() ==> min_x <= (#[trigger] points@[j]).px <= max_x
                            && min_y <= points@[j].py <= max_y,
                    forall|j: int| 0 <= j < points@.len() ==> point_ok(#[trigger] points@[j]),
            {
                let x = (points[i].px - min_x) as usize;
                let y = (points[i].py - min_y) as usize;
                let mut row = grid.remove(y);
                row.set(x, true);
                grid.insert(y, row);
                proof {
                    assert forall|j: int|
                        0 <= j < grid@.len() implies (#[trigger] grid@[j])@.len() == row_size by {}
                }
            }
            // A message needs a blank column somewhere between letters.
            let mut empty_col = true;
            for x in 0..row_size
                invariant
                    grid@.len() == height,
                    row_size <= 100,
                    forall|j: int| 0 <= j < grid@.len() ==> (#[trigger] grid@[j])@.len() == row_size,
            {
                empty_col = true;
                let mut y: usize = 0;
                while y < height
                    invariant
                        x < row_size,
                        grid@.len() == height,
                        forall|j: int|
                            0 <= j < grid@.len() ==> (#[trigger] grid@[j])@.len() == row_size,
                    decreases height - y,
                {
                    if grid[y][x] {
                        empty_col = false;
                        break ;
                    }
                    y = y + 1;
                }
                if empty_col {
                    break ;
                }
            }
            if empty_col {
                // Draw the box, one line per row, full blocks for lights.
                let mut message = String::new();
                for y in 0..height
                    invariant
                        grid@.len() == height,
                        row_size <= 100,
                        forall|j: int|
                            0 <= j < grid@.len() ==> (#[trigger] grid@[j])@.len() == row_size,
                {
                    text::push_char(&mut message, '\n');
                    for x in 0..row_size
                        invariant
                            y < height,
                            grid@.len() == height,
                            forall|j: int|
                                0 <= j < grid@.len() ==> (#[trigger] grid@[j])@.len() == row_size,
                    {
                        if grid[y][x] {
                            text::push_char(&mut message, '\u{2588}');
                        } else {
                            text::push_char(&mut message, ' ');
                        }
                    }
                }
                return Ok((message, seconds));
            }
        }
    }
    Err("no message within the search budget".to_owned())
}

} // verus!
