//! Mine cart puzzle: carts follow tracks, turn in a fixed rotation at
//! intersections, and crash into each other; the answers are the first
//! crash site and the last cart left rolling.

use vstd::prelude::*;
use vstd::string::StringExecFns;

use crate::day::{Day, DayResult};
use crate::text;

verus! {

pub struct Instance;

#[derive(Debug, Clone, Copy, PartialEq, Eq, Structural)]
pub enum Direction {
    Up,
    Down,
    Left,
    Right,
}

#[derive(Debug, Clone, Copy, PartialEq, Eq, Structural)]
pub enum Turn {
    Left,
    Straight,
    Right,
}

/// One cart: where it is, where it points, and its next intersection
/// choice.
#[derive(Debug, Clone, Copy, PartialEq, Eq, Structural)]
pub struct Cart {
    pub x: i64,
    pub y: i64,
    pub direction: Direction,
    pub turn: Turn,
}

/// The carts stay well inside the coordinate range the arithmetic
/// supports.
pub open spec fn cart_ok(c: Cart) -> bool {
    &&& -100_000_000 <= c.x <= 100_000_000
    &&& -100_000_000 <= c.y <= 100_000_000
}

/// The mine: the track bytes as read, one row per line, and the carts.
pub struct Minecarts {
    pub tracks: Vec<Vec<u8>>,
    pub carts: Vec<Cart>,
}

pub open spec fn carts_ok(carts: Seq<Cart>) -> bool {
    forall|j: int| 0 <= j < carts.len() ==> cart_ok(#[trigger] carts[j])
}

impl Day for Instance {
    fn run(&self, input: &str) -> Result<DayResult, String> {
        if !input.is_ascii() {
            return Err("input is not ascii".to_owned());
        }
        let mut carts = parse_mine(input)?;
        let first = run_to_crash(&mut carts)?;
        let mut part1 = first.0.to_string();
        part1.append(",");
        part1.append(first.1.to_string().as_str());
        let last = run_to_sole_survivor(carts)?;
        let mut part2 = last.0.to_string();
        part2.append(",");
        part2.append(last.1.to_string().as_str());
        Ok(DayResult { part1, part2: Some(part2) })
    }
}

/// Reads the track plan; cart glyphs stand on the track below them.
pub fn parse_mine(input: &str) -> (r: Result<Minecarts, String>)
    ensures
        r matches Ok(m) ==> carts_ok(m.carts@),
{
    let lines = text::split_lines(input.as_bytes());
    if lines.len() > 100_000 {
        return Err("mine too tall".to_owned());
    }
    let n = lines.len();
    let mut tracks: Vec<Vec<u8>> = Vec::new();
    let mut carts: Vec<Cart> = Vec::new();
    for y in 0..n
        invariant
            n == lines@.len(),
            n <= 100_000,
            carts_ok(carts@),
    {
        let line = lines[y].as_slice();
        if line.len() > 100_000 {
            return Err("mine too wide".to_owned());
        }
        let m = line.len();
        let mut row: Vec<u8> = Vec::new();
        for x in 0..m
            invariant
                m == line@.len(),
                m <= 100_000,
                y < n <= 100_000,
                row@.len() == x,
                carts_ok(carts@),
        {
            let c = line[x];
            // A cart glyph marks both a cart and the straight track under
            // it.
            if c == 94 {
                carts.push(Cart { x: x as i64, y: y as i64, direction: Direction::Up, turn: Turn::Left });
                row.push(124);
            } else if c == 118 {
                carts.push(Cart { x: x as i64, y: y as i64, direction: Direction::Down, turn: Turn::Left });
                row.push(124);
            } else if c == 60 {
                carts.push(Cart { x: x as i64, y: y as i64, direction: Direction::Left, turn: Turn::Left });
                row.push(45);
            } else if c == 62 {
                carts.push(Cart { x: x as i64, y: y as i64, direction: Direction::Right, turn: Turn::Left });
                row.push(45);
            } else {
                row.push(c);
            }
        }
        tracks.push(row);
    }
    Ok(Minecarts { tracks, carts })
}

/// The track byte under `(x, y)`, if the plan has one there.
fn track_at(tracks: &Vec<Vec<u8>>, x: i64, y: i64) -> (r: Option<u8>) {
    if y < 0 || x < 0 {
        return None;
    }
    let yi = y as u64;
    let xi = x as u64;
    if yi >= tracks.len() as u64 {
        return None;
    }
    let row = &tracks[yi as usize];
    if xi >= row.len() as u64 {
        return None;
    }
    Some(row[xi as usize])
}

/// Turns a cart for the track it just rolled onto: curves bend it, an
/// intersection applies the left-straight-right rotation, and straight
/// track changes nothing.
fn turn_cart(cart: Cart, track: u8) -> (r: Cart)
    ensures
        r.x == cart.x && r.y == cart.y,
{
    let mut cart = cart;
    if track == 92 {
        cart.direction = match cart.direction {
            Direction::Up => Direction::Left,
            Direction::Down => Direction::Right,
            Direction::Left => Direction::Up,
            Direction::Right => Direction::Down,
        };
    } else if track == 47 {
        cart.direction = match cart.direction {
            Direction::Up => Direction::Right,
            Direction::Down => Direction::Left,
            Direction::Left => Direction::Down,
            Direction::Right => Direction::Up,
        };
    } else if track == 43 {
        match cart.turn {
            Turn::Left => {
                cart.direction = match cart.direction {
                    Direction::Up => Direction::Left,
                    Direction::Down => Direction::Right,
                    Direction::Left => Direction::Down,
                    Direction::Right => Direction::Up,
                };
                cart.turn = Turn::Straight;
            },
            Turn::Straight => {
                cart.turn = Turn::Right;
            },
            Turn::Right => {
                cart.direction = match cart.direction {
                    Direction::Up => Direction::Right,
                    Direction::Down => Direction::Left,
                    Direction::Left => Direction::Up,
                    Direction::Right => Direction::Down,
                };
                cart.turn = Turn::Left;
            },
        }
    }
    cart
}

impl Minecarts {
    /// One tick: carts move in reading order; a cart that lands on
    /// another removes both, and the first crash site is reported.
    pub fn tick(&mut self) -> (r: Result<Option<(i64, i64)>, String>)
        requires
            carts_ok(old(self).carts@),
        ensures
            carts_ok(final(self).carts@),
    {
        let mut first_crash: Option<(i64, i64)> = None;
        if self.carts.len() > 1_000_000 {
            return Err("too many carts".to_owned());
        }
        sort_carts(&mut self.carts);
        let mut c: usize = 0;
        // Every pass either advances past a cart or removes two, so this
        // generous fuel is never the reason the loop stops.
        let mut fuel: u64 = 4 * (self.carts.len() as u64) + 4;
        while c < self.carts.len() && fuel > 0
            invariant
                carts_ok(self.carts@),
            decreases fuel,
        {
            fuel = fuel - 1;
            let mut cart = self.carts[c];
            if cart.x < -99_000_000 || cart.x > 99_000_000 || cart.y < -99_000_000 || cart.y
                > 99_000_000 {
                return Err("cart left the supported area".to_owned());
            }
            match cart.direction {
                Direction::Up => {
                    cart.y = cart.y - 1;
                },
                Direction::Down => {
                    cart.y = cart.y + 1;
                },
                Direction::Left => {
                    cart.x = cart.x - 1;
                },
                Direction::Right => {
                    cart.x = cart.x + 1;
                },
            }
            match track_at(&self.tracks, cart.x, cart.y) {
                Some(track) => {
                    cart = turn_cart(cart, track);
                },
                None => {},
            }
            self.carts.set(c, cart);
            let coord = (cart.x, cart.y);
            let c_orig = c;
            c = c + 1;
            let total = self.carts.len();
            let mut hit: Option<usize> = None;
            for c2 in 0..total
                invariant
                    total == self.carts@.len(),
                    c_orig < total,
                    hit matches Some(h) ==> h < total && h != c_orig && self.carts@[h as int].x
                        == coord.0 && self.carts@[h as int].y == coord.1,
            {
                if c2 != c_orig && self.carts[c2].x == coord.0 && self.carts[c2].y == coord.1 {
                    hit = Some(c2);
                }
            }
            match hit {
                Some(c2) => {
                    if matches!(first_crash, None) {
                        first_crash = Some(coord);
                    }
                    proof {
                        assert(self.carts@[c_orig as int].x == coord.0 && self.carts@[
                            c_orig as int].y == coord.1);
                    }
                    let lo = if c2 < c_orig {
                        c2
                    } else {
                        c_orig
                    };
                    let hi = if c2 < c_orig {
                        c_orig
                    } else {
                        c2
                    };
                    remove_carts_at(&mut self.carts, coord.0, coord.1, Ghost(lo as int), Ghost(hi as int));
                    if c2 < c_orig {
                        c = c - 2;
                    } else {
                        c = c - 1;
                    }
                },
                None => {},
            }
        }
        if c < self.carts.len() {
            return Err("tick ran out of fuel".to_owned());
        }
        Ok(first_crash)
    }
}

/// Sorts the carts into reading order (insertion sort; ties keep their
/// order).
fn sort_carts(carts: &mut Vec<Cart>)
    requires
        carts_ok(old(carts)@),
    ensures
        carts_ok(final(carts)@),
        final(carts)@.len() == old(carts)@.len(),
{
    let n = carts.len();
    let mut sorted: Vec<Cart> = Vec::new();
    for i in 0..n
        invariant
            n == carts@.len(),
            carts_ok(carts@),
            carts_ok(sorted@),
            sorted@.len() == i,
    {
        let cart = carts[i];
        let mut at = sorted.len();
        while at > 0
            invariant
                at <= sorted@.len(),
            decreases at,
        {
            let before = &sorted[at - 1];
            if cart.y < before.y || (cart.y == before.y && cart.x < before.x) {
                at = at - 1;
            } else {
                break ;
            }
        }
        sorted.insert(at, cart);
        proof {
            assert forall|j: int| 0 <= j < sorted@.len() implies cart_ok(
                #[trigger] sorted@[j],
            ) by {}
        }
    }
    *carts = sorted;
}

/// Deletes every cart standing at `(x, y)`; the two given positions name
/// distinct crashed carts, so at least two carts disappear.
fn remove_carts_at(carts: &mut Vec<Cart>, x: i64, y: i64, lo: Ghost<int>, hi: Ghost<int>)
    requires
        carts_ok(old(carts)@),
        0 <= lo@ < hi@ < old(carts)@.len(),
        old(carts)@[lo@].x == x && old(carts)@[lo@].y == y,
        old(carts)@[hi@].x == x && old(carts)@[hi@].y == y,
    ensures
        carts_ok(final(carts)@),
        final(carts)@.len() + 2 <= old(carts)@.len(),
{
    let n = carts.len();
    let mut kept: Vec<Cart> = Vec::new();
    for i in 0..n
        invariant
            n == carts@.len(),
            carts_ok(carts@),
            carts_ok(kept@),
            0 <= lo@ < hi@ < n,
            carts@[lo@].x == x && carts@[lo@].y == y,
            carts@[hi@].x == x && carts@[hi@].y == y,
            kept@.len() <= i - (if i > lo@ { 1int } else { 0int }) - (if i > hi@ { 1int } else {
                0int
            }),
    {
        let cart = carts[i];
        if !(cart.x == x && cart.y == y) {
            kept.push(cart);
        }
    }
    *carts = kept;
}

/// Ticks until the first crash and returns where it happened.
fn run_to_crash(minecarts: &mut Minecarts) -> (r: Result<(i64, i64), String>)
    requires
        carts_ok(old(minecarts).carts@),
    ensures
        carts_ok(final(minecarts).carts@),
{
    let mut budget: u64 = 1_000_000;
    while budget > 0
        invariant
            carts_ok(minecarts.carts@),
        decreases budget,
    {
        budget = budget - 1;
        match minecarts.tick() {
            Ok(Some(coord)) => {
                return Ok(coord);
            },
            Ok(None) => {},
            Err(e) => {
                return Err(e);
            },
        }
    }
    Err("no crash within the search budget".to_owned())
}

/// Ticks until one cart is left and returns where it stands.
fn run_to_sole_survivor(minecarts: Minecarts) -> Result<(i64, i64), String>
    requires
        carts_ok(minecarts.carts@),
{
    let mut minecarts = minecarts;
    let mut budget: u64 = 1_000_000;
    while minecarts.carts.len() > 1 && budget > 0
        invariant
            carts_ok(minecarts.carts@),
        decreases budget,
    {
        budget = budget - 1;
        match minecarts.tick() {
            Ok(_) => {},
            Err(e) => {
                return Err(e);
            },
        }
    }
    if minecarts.carts.len() != 1 {
        return Err("no sole survivor".to_owned());
    }
    let cart = minecarts.carts[0];
    Ok((cart.x, cart.y))
}

} // verus!
