//! Room maze puzzle: a branching path expression describes doors between
//! rooms; the answers are the furthest room's door distance and how many
//! rooms lie at least a thousand doors away.

use vstd::prelude::*;

use crate::day::{Day, DayResult};

verus! {

/// `verbose` once asked a solver to dump the maze as it went; the
/// library computes the answers only, so it is accepted and ignored.
pub struct Instance {
    pub verbose: bool,
}

impl Default for Instance {
    fn default() -> (r: Self)
        ensures
            r.verbose == false,
    {
        Self { verbose: false }
    }
}

#[derive(Debug, PartialEq, Eq)]
pub enum Direction {
    North,
    East,
    South,
    West,
}

/// A path expression: one door, a sequence, or a branch of alternative
/// sequences.
#[derive(Debug, PartialEq, Eq)]
pub enum RoomRegex {
    Literal(Direction),
    Group(Vec<RoomRegex>),
    Or(Vec<Vec<RoomRegex>>),
}

impl Day for Instance {
    fn run(&self, input: &str) -> Result<DayResult, String> {
        if !input.is_ascii() {
            return Err("input is not ascii".to_owned());
        }
        let regex = parse_regex(input.as_bytes())?;
        let rooms = to_rooms(&regex)?;
        let (part1, part2) = furthest_rooms(&rooms)?;
        Ok(DayResult { part1: part1.to_string(), part2: Some(part2.to_string()) })
    }
}

/// Reads a path expression: `^` and `$` are decoration, parentheses open
/// branches, `|` separates alternatives and letters are doors.
pub fn parse_regex(s: &[u8]) -> Result<RoomRegex, String> {
    let mut stack: Vec<RoomRegex> = Vec::new();
    let mut current = RoomRegex::Group(Vec::new());
    let n = s.len();
    for i in 0..n
        invariant
            n == s@.len(),
    {
        let c = s[i];
        if c == 94 || c == 36 {
            // The anchors carry no structure.
        } else if c == 40 {
            stack.push(current);
            current = RoomRegex::Group(Vec::new());
        } else if c == 41 {
            let prev = current;
            current = match stack.pop() {
                Some(outer) => outer,
                None => {
                    return Err("unbalanced parentheses".to_owned());
                },
            };
            match current {
                RoomRegex::Group(mut group) => {
                    group.push(prev);
                    current = RoomRegex::Group(group);
                },
                RoomRegex::Or(mut branches) => {
                    match prev {
                        RoomRegex::Group(g) => {
                            branches.push(g);
                        },
                        RoomRegex::Or(_) => {
                            let mut last = match branches.pop() {
                                Some(l) => l,
                                None => {
                                    return Err("branch without alternatives".to_owned());
                                },
                            };
                            last.push(prev);
                            branches.push(last);
                        },
                        RoomRegex::Literal(_) => {
                            return Err("malformed expression".to_owned());
                        },
                    }
                    current = RoomRegex::Or(branches);
                },
                RoomRegex::Literal(_) => {
                    return Err("malformed expression".to_owned());
                },
            }
        } else if c == 124 {
            match current {
                RoomRegex::Group(g) => {
                    let mut branches: Vec<Vec<RoomRegex>> = Vec::new();
                    branches.push(g);
                    branches.push(Vec::new());
                    current = RoomRegex::Or(branches);
                },
                RoomRegex::Or(mut branches) => {
                    branches.push(Vec::new());
                    current = RoomRegex::Or(branches);
                },
                RoomRegex::Literal(_) => {
                    return Err("malformed expression".to_owned());
                },
            }
        } else {
            let d = if c == 78 {
                Direction::North
            } else if c == 69 {
                Direction::East
            } else if c == 83 {
                Direction::South
            } else if c == 87 {
                Direction::West
            } else {
                return Err("invalid direction".to_owned());
            };
            match current {
                RoomRegex::Group(mut group) => {
                    group.push(RoomRegex::Literal(d));
                    current = RoomRegex::Group(group);
                },
                RoomRegex::Or(mut branches) => {
                    let mut last = match branches.pop() {
                        Some(l) => l,
                        None => {
                            return Err("branch without alternatives".to_owned());
                        },
                    };
                    last.push(RoomRegex::Literal(d));
                    branches.push(last);
                    current = RoomRegex::Or(branches);
                },
                RoomRegex::Literal(_) => {
                    return Err("malformed expression".to_owned());
                },
            }
        }
    }
    Ok(current)
}

impl core::str::FromStr for RoomRegex {
    type Err = String;

    fn from_str(s: &str) -> Result<RoomRegex, String> {
        if !s.is_ascii() {
            return Err("expression is not ascii".to_owned());
        }
        parse_regex(s.as_bytes())
    }
}

/// A room's four door flags.
pub struct Doors {
    pub north: bool,
    pub east: bool,
    pub south: bool,
    pub west: bool,
}

/// The maze: each visited room with its doors.
pub struct Rooms {
    pub rooms: Vec<((i64, i64), Doors)>,
}

/// The index of the room at `(x, y)`, creating a doorless one if needed.
fn ensure_room(rooms: &mut Vec<((i64, i64), Doors)>, x: i64, y: i64) -> (r: usize)
    ensures
        r < final(rooms)@.len(),
{
    let n = rooms.len();
    for i in 0..n
        invariant
            n == rooms@.len(),
    {
        if rooms[i].0.0 == x && rooms[i].0.1 == y {
            return i;
        }
    }
    rooms.push(((x, y), Doors { north: false, east: false, south: false, west: false }));
    rooms.len() - 1
}

/// Opens the door `d` of the room at `(x, y)`.
fn open_door(rooms: &mut Vec<((i64, i64), Doors)>, x: i64, y: i64, d: Direction) {
    let at = ensure_room(rooms, x, y);
    let mut entry = rooms.remove(at);
    match d {
        Direction::North => {
            entry.1.north = true;
        },
        Direction::East => {
            entry.1.east = true;
        },
        Direction::South => {
            entry.1.south = true;
        },
        Direction::West => {
            entry.1.west = true;
        },
    }
    rooms.insert(at, entry);
}

/// Walks one expression from `(x, y)`, opening the doors it crosses, and
/// returns where it ends; a branch ends wherever its last alternative
/// does.  Positions far outside any realistic maze are rejected.
fn walk(rooms: &mut Vec<((i64, i64), Doors)>, x: i64, y: i64, regex: &RoomRegex) -> (r: Result<
    (i64, i64),
    String,
>)
    decreases *regex,
{
    if x < -1_000_000_000 || x > 1_000_000_000 || y < -1_000_000_000 || y > 1_000_000_000 {
        return Err("walk left the supported area".to_owned());
    }
    match regex {
        RoomRegex::Literal(d) => {
            match d {
                Direction::North => {
                    open_door(rooms, x, y, Direction::North);
                    open_door(rooms, x, y - 1, Direction::South);
                    Ok((x, y - 1))
                },
                Direction::East => {
                    open_door(rooms, x, y, Direction::East);
                    open_door(rooms, x + 1, y, Direction::West);
                    Ok((x + 1, y))
                },
                Direction::South => {
                    open_door(rooms, x, y, Direction::South);
                    open_door(rooms, x, y + 1, Direction::North);
                    Ok((x, y + 1))
                },
                Direction::West => {
                    open_door(rooms, x, y, Direction::West);
                    open_door(rooms, x - 1, y, Direction::East);
                    Ok((x - 1, y))
                },
            }
        },
        RoomRegex::Group(group) => {
            let mut cx = x;
            let mut cy = y;
            let n = group.len();
            for i in 0..n
                invariant
                    n == group@.len(),
                    *regex == RoomRegex::Group(*group),
            {
                proof {
                    broadcast use vstd::std_specs::vec::group_vec_axioms;
                    broadcast use vstd::seq::group_seq_axioms;

                    assert(*regex == RoomRegex::Group(*group));
                    assert(decreases_to!(*regex => regex->Group_0));
                    assert(decreases_to!(*group => (*group)@[i as int]));
                }
                match walk(rooms, cx, cy, &group[i]) {
                    Ok((nx, ny)) => {
                        cx = nx;
                        cy = ny;
                    },
                    Err(e) => {
                        return Err(e);
                    },
                }
            }
            Ok((cx, cy))
        },
        RoomRegex::Or(branches) => {
            let mut end = (x, y);
            let n = branches.len();
            for i in 0..n
                invariant
                    n == branches@.len(),
                    *regex == RoomRegex::Or(*branches),
            {
                let m = branches[i].len();
                let mut cx = x;
                let mut cy = y;
                for k in 0..m
                    invariant
                        n == branches@.len(),
                        i < n,
                        m == branches@[i as int]@.len(),
                        *regex == RoomRegex::Or(*branches),
                {
                    proof {
                        broadcast use vstd::std_specs::vec::group_vec_axioms;
                        broadcast use vstd::seq::group_seq_axioms;

                        assert(*regex == RoomRegex::Or(*branches));
                        assert(decreases_to!(*regex => regex->Or_0));
                        assert(decreases_to!(*branches => (*branches)@[i as int]));
                        assert(decreases_to!((*branches)@[i as int] => (*branches)@[i as int]@[
                            k as int]));
                    }
                    match walk(rooms, cx, cy, &branches[i][k]) {
                        Ok((nx, ny)) => {
                            cx = nx;
                            cy = ny;
                        },
                        Err(e) => {
                            return Err(e);
                        },
                    }
                }
                end = (cx, cy);
            }
            Ok(end)
        },
    }
}

/// Builds the maze an expression describes, starting at the origin.
pub fn to_rooms(regex: &RoomRegex) -> Result<Rooms, String> {
    let mut rooms: Vec<((i64, i64), Doors)> = Vec::new();
    ensure_room(&mut rooms, 0, 0);
    match walk(&mut rooms, 0, 0, regex) {
        Ok(_) => Ok(Rooms { rooms }),
        Err(e) => Err(e),
    }
}

/// The index of the room at `(x, y)`, if it exists.
fn find_room(rooms: &Vec<((i64, i64), Doors)>, x: i64, y: i64) -> (r: Option<usize>)
    ensures
        r matches Some(i) ==> i < rooms@.len(),
{
    let n = rooms.len();
    for i in 0..n
        invariant
            n == rooms@.len(),
    {
        if rooms[i].0.0 == x && rooms[i].0.1 == y {
            return Some(i);
        }
    }
    None
}

/// Flood-fills door distances from the origin and returns the largest one
/// with the number of rooms at least a thousand doors away.
pub fn furthest_rooms(rooms: &Rooms) -> Result<(u64, u64), String> {
    let mut seen: Vec<((i64, i64), u64)> = Vec::new();
    seen.push(((0, 0), 0));
    let mut stack: Vec<(i64, i64)> = Vec::new();
    stack.push((0, 0));
    let mut budget: u64 = 10_000_000;
    while budget > 0
        decreases budget,
    {
        budget = budget - 1;
        let (x, y) = match stack.pop() {
            Some(c) => c,
            None => {
                break ;
            },
        };
        let distance = match find_distance(&seen, x, y) {
            Some(d) => d,
            None => {
                return Err("room without a recorded distance".to_owned());
            },
        };
        let at = match find_room(&rooms.rooms, x, y) {
            Some(i) => i,
            None => {
                return Err("door into a missing room".to_owned());
            },
        };
        if x < -1_000_000_000 || x > 1_000_000_000 || y < -1_000_000_000 || y > 1_000_000_000
            || distance > 1_000_000_000 {
            return Err("maze out of the supported range".to_owned());
        }
        let doors = &rooms.rooms[at].1;
        if doors.north && matches!(find_distance(&seen, x, y - 1), None) {
            seen.push(((x, y - 1), distance + 1));
            stack.push((x, y - 1));
        }
        if doors.east && matches!(find_distance(&seen, x + 1, y), None) {
            seen.push(((x + 1, y), distance + 1));
            stack.push((x + 1, y));
        }
        if doors.south && matches!(find_distance(&seen, x, y + 1), None) {
            seen.push(((x, y + 1), distance + 1));
            stack.push((x, y + 1));
        }
        if doors.west && matches!(find_distance(&seen, x - 1, y), None) {
            seen.push(((x - 1, y), distance + 1));
            stack.push((x - 1, y));
        }
    }
    if stack.len() > 0 {
        return Err("maze walk ran out of budget".to_owned());
    }
    let mut furthest: u64 = 0;
    let mut far_rooms: u64 = 0;
    let n = seen.len();
    for i in 0..n
        invariant
            n == seen@.len(),
            far_rooms <= i,
    {
        let d = seen[i].1;
        if d > furthest {
            furthest = d;
        }
        if d >= 1_000 {
            far_rooms = far_rooms + 1;
        }
    }
    Ok((furthest, far_rooms))
}

/// The recorded distance of the room at `(x, y)`, if any.
fn find_distance(seen: &Vec<((i64, i64), u64)>, x: i64, y: i64) -> (r: Option<u64>) {
    let n = seen.len();
    for i in 0..n
        invariant
            n == seen@.len(),
    {
        if seen[i].0.0 == x && seen[i].0.1 == y {
            return Some(seen[i].1);
        }
    }
    None
}

} // verus!
