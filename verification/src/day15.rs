//! Cave combat puzzle: elves and goblins take turns in reading order,
//! walk shortest paths towards enemies and strike the weakest neighbour;
//! the answers are the battle outcome and the outcome under the smallest
//! elf attack power that wins without a single elf lost.

use vstd::prelude::*;

use crate::day::{Day, DayResult};
use crate::text;

verus! {

pub struct Instance;

/// A cave square, ordered in reading order: row first.
#[derive(Debug, PartialEq, Eq, Structural, Clone, Copy)]
pub struct Coord {
    pub y: i64,
    pub x: i64,
}

/// Reading order on squares.
fn coord_less(a: &Coord, b: &Coord) -> (r: bool) {
    a.y < b.y || (a.y == b.y && a.x < b.x)
}

/// One fighter: where it stands, its hit points, and its side.
#[derive(Debug, PartialEq, Eq, Structural, Clone, Copy)]
pub struct Unit {
    pub coord: Coord,
    pub hp: i64,
    pub is_elf: bool,
}

/// The cave: a dense wall grid, the living units, and the elves' attack
/// power.
#[derive(Debug)]
pub struct Cave {
    pub walls: Vec<Vec<bool>>,
    pub units: Vec<Unit>,
    pub elf_damage: i64,
}

/// The grid stays small, every unit stands on it, and the numbers stay
/// far from the integer edges.
pub open spec fn cave_ok(c: Cave) -> bool {
    &&& c.walls@.len() <= 1_000
    &&& forall|j: int| 0 <= j < c.walls@.len() ==> (#[trigger] c.walls@[j])@.len() <= 1_000
    &&& forall|j: int|
        0 <= j < c.units@.len() ==> {
            let u = #[trigger] c.units@[j];
            0 <= u.coord.x <= 1_000 && 0 <= u.coord.y <= 1_000 && -1_000_000 <= u.hp <= 1_000_000
        }
    &&& 0 <= c.elf_damage <= 100_000
}

impl Day for Instance {
    fn run(&self, input: &str) -> Result<DayResult, String> {
        if !input.is_ascii() {
            return Err("input is not ascii".to_owned());
        }
        let part1 = part1(input)?;
        let part2 = part2(input)?;
        Ok(DayResult { part1: part1.to_string(), part2: Some(part2.to_string()) })
    }
}

/// Reads the cave map: `#` walls, `E` elves and `G` goblins at two
/// hundred hit points each; everything else is open ground.
pub fn parse_cave(input: &str) -> (r: Result<Cave, String>)
    ensures
        r matches Ok(c) ==> cave_ok(c),
{
    let lines = text::split_lines(input.as_bytes());
    if lines.len() > 1_000 {
        return Err("cave too tall".to_owned());
    }
    let n = lines.len();
    let mut walls: Vec<Vec<bool>> = Vec::new();
    let mut units: Vec<Unit> = Vec::new();
    for y in 0..n
        invariant
            n == lines@.len(),
            n <= 1_000,
            walls@.len() == y,
            forall|j: int| 0 <= j < walls@.len() ==> (#[trigger] walls@[j])@.len() <= 1_000,
            forall|j: int|
                0 <= j < units@.len() ==> {
                    let u = #[trigger] units@[j];
                    0 <= u.coord.x <= 1_000 && 0 <= u.coord.y <= 1_000 && -1_000_000 <= u.hp
                        <= 1_000_000
                },
    {
        let line = lines[y].as_slice();
        if line.len() > 1_000 {
            return Err("cave too wide".to_owned());
        }
        let m = line.len();
        let mut row: Vec<bool> = Vec::new();
        for x in 0..m
            invariant
                m == line@.len(),
                m <= 1_000,
                y < n <= 1_000,
                row@.len() == x,
                forall|j: int|
                    0 <= j < units@.len() ==> {
                        let u = #[trigger] units@[j];
                        0 <= u.coord.x <= 1_000 && 0 <= u.coord.y <= 1_000 && -1_000_000 <= u.hp
                            <= 1_000_000
                    },
        {
            let b = line[x];
            row.push(b == 35);
            if b == 69 || b == 71 {
                units.push(
                    Unit {
                        coord: Coord { y: y as i64, x: x as i64 },
                        hp: 200,
                        is_elf: b == 69,
                    },
                );
                proof {
                    assert forall|j: int|
                        0 <= j < units@.len() implies {
                        let u = #[trigger] units@[j];
                        0 <= u.coord.x <= 1_000 && 0 <= u.coord.y <= 1_000 && -1_000_000 <= u.hp
                            <= 1_000_000
                    } by {}
                }
            }
        }
        walls.push(row);
    }
    Ok(Cave { walls, units, elf_damage: 3 })
}

impl core::str::FromStr for Cave {
    type Err = String;

    fn from_str(s: &str) -> Result<Cave, String> {
        if !s.is_ascii() {
            return Err("input is not ascii".to_owned());
        }
        parse_cave(s)
    }
}

/// Whether the squares are side by side.
fn adjacent(a: &Coord, b: &Coord) -> (r: bool)
    requires
        -10_000 <= a.x <= 10_000,
        -10_000 <= a.y <= 10_000,
        -10_000 <= b.x <= 10_000,
        -10_000 <= b.y <= 10_000,
{
    let dx = if a.x >= b.x {
        a.x - b.x
    } else {
        b.x - a.x
    };
    let dy = if a.y >= b.y {
        a.y - b.y
    } else {
        b.y - a.y
    };
    dx + dy == 1
}

impl Cave {
    /// Whether the square is a wall; squares off the map count as walls.
    fn is_wall(&self, c: &Coord) -> (r: bool) {
        if c.y < 0 || c.x < 0 {
            return true;
        }
        let y = c.y as u64;
        let x = c.x as u64;
        if y >= self.walls.len() as u64 {
            return true;
        }
        let row = &self.walls[y as usize];
        if x >= row.len() as u64 {
            // The map's rows may end early; open ground past a row's end
            // is never reachable inside a walled cave.
            return false;
        }
        row[x as usize]
    }

    /// The index of the unit standing on the square.
    fn unit_at(&self, c: &Coord) -> (r: Option<usize>)
        ensures
            r matches Some(i) ==> i < self.units@.len(),
    {
        let n = self.units.len();
        for i in 0..n
            invariant
                n == self.units@.len(),
        {
            if self.units[i].coord.x == c.x && self.units[i].coord.y == c.y {
                return Some(i);
            }
        }
        None
    }

    /// The hit points of the unit standing at `(x, y)`, if any.
    pub fn unit_hp(&self, x: i64, y: i64) -> (r: Option<i64>) {
        match self.unit_at(&Coord { y, x }) {
            Some(i) => Some(self.units[i].hp),
            None => None,
        }
    }

    /// Where the enemies of a side stand.
    pub fn targets(&self, is_elf: bool) -> (r: Vec<Coord>)
        requires
            cave_ok(*self),
        ensures
            forall|k: int|
                0 <= k < r@.len() ==> 0 <= (#[trigger] r@[k]).x <= 1_000 && 0 <= r@[k].y <= 1_000,
    {
        let mut out: Vec<Coord> = Vec::new();
        let n = self.units.len();
        for i in 0..n
            invariant
                n == self.units@.len(),
                cave_ok(*self),
                forall|k: int|
                    0 <= k < out@.len() ==> 0 <= (#[trigger] out@[k]).x <= 1_000 && 0 <= out@[k].y
                        <= 1_000,
        {
            if self.units[i].is_elf != is_elf {
                out.push(self.units[i].coord);
                proof {
                    assert forall|k: int|
                        0 <= k < out@.len() implies 0 <= (#[trigger] out@[k]).x <= 1_000 && 0
                        <= out@[k].y <= 1_000 by {}
                }
            }
        }
        out
    }

    /// Whether some target stands next to the square.
    fn beside_target(&self, c: &Coord, targets: &Vec<Coord>) -> (r: bool)
        requires
            -10_000 <= c.x <= 10_000,
            -10_000 <= c.y <= 10_000,
            forall|k: int|
                0 <= k < targets@.len() ==> 0 <= (#[trigger] targets@[k]).x <= 1_000 && 0
                    <= targets@[k].y <= 1_000,
    {
        let n = targets.len();
        for i in 0..n
            invariant
                n == targets@.len(),
                -10_000 <= c.x <= 10_000,
                -10_000 <= c.y <= 10_000,
                forall|k: int|
                    0 <= k < targets@.len() ==> 0 <= (#[trigger] targets@[k]).x <= 1_000 && 0
                        <= targets@[k].y <= 1_000,
        {
            if adjacent(c, &targets[i]) {
                return true;
            }
        }
        false
    }

    /// The first step of the chosen shortest path towards a target: all
    /// shortest paths that end beside a target are gathered breadth
    /// first, and the winner has the reading-order-first destination,
    /// then the reading-order-first first step.  No step comes back when
    /// no target is reachable or the unit already stands beside one.
    pub fn next_move(&self, start: &Coord, targets: &Vec<Coord>) -> (r: Option<Coord>)
        requires
            cave_ok(*self),
            0 <= start.x <= 1_000,
            0 <= start.y <= 1_000,
            forall|k: int|
                0 <= k < targets@.len() ==> 0 <= (#[trigger] targets@[k]).x <= 1_000 && 0
                    <= targets@[k].y <= 1_000,
    {
        let mut paths: Vec<Vec<Coord>> = Vec::new();
        let mut visited: Vec<Coord> = Vec::new();
        let mut queue: Vec<(Vec<Coord>, Coord)> = Vec::new();
        let empty_path: Vec<Coord> = Vec::new();
        queue.push((empty_path, *start));
        visited.push(*start);
        let mut head: usize = 0;
        let mut fuel: u64 = 4_000_000;
        while head < queue.len() && fuel > 0
            invariant
                cave_ok(*self),
                forall|k: int|
                    0 <= k < targets@.len() ==> 0 <= (#[trigger] targets@[k]).x <= 1_000 && 0
                        <= targets@[k].y <= 1_000,
                forall|k: int|
                    0 <= k < queue@.len() ==> -10_000 <= (#[trigger] queue@[k]).1.x <= 10_000
                        && -10_000 <= queue@[k].1.y <= 10_000,
            decreases fuel,
        {
            fuel = fuel - 1;
            let path = clone_path(&queue[head].0);
            let coord = queue[head].1;
            head = head + 1;
            if self.beside_target(&coord, targets) {
                paths.push(path);
            } else {
                let mut step: usize = 0;
                while step < 4
                    invariant
                        step <= 4,
                        cave_ok(*self),
                        -10_000 <= coord.x <= 10_000,
                        -10_000 <= coord.y <= 10_000,
                        forall|k: int|
                            0 <= k < queue@.len() ==> -10_000 <= (#[trigger] queue@[k]).1.x
                                <= 10_000 && -10_000 <= queue@[k].1.y <= 10_000,
                    decreases 4 - step,
                {
                    // Neighbours in reading order: above, left, right,
                    // below.
                    let next = if step == 0 {
                        Coord { y: coord.y - 1, x: coord.x }
                    } else if step == 1 {
                        Coord { y: coord.y, x: coord.x - 1 }
                    } else if step == 2 {
                        Coord { y: coord.y, x: coord.x + 1 }
                    } else {
                        Coord { y: coord.y + 1, x: coord.x }
                    };
                    step = step + 1;
                    if next.x < -9_999 || next.x > 9_999 || next.y < -9_999 || next.y > 9_999 {
                        continue ;
                    }
                    if !self.is_wall(&next) && matches!(self.unit_at(&next), None) && !contains_coord(
                        &visited,
                        &next,
                    ) {
                        let mut longer = clone_path(&path);
                        longer.push(next);
                        queue.push((longer, next));
                        visited.push(next);
                        proof {
                            assert forall|k: int|
                                0 <= k < queue@.len() implies -10_000 <= (#[trigger] queue@[
                                k]).1.x <= 10_000 && -10_000 <= queue@[k].1.y <= 10_000 by {}
                        }
                    }
                }
            }
        }
        // The shortest paths, then the reading-order tie-break.
        let pn = paths.len();
        if pn == 0 {
            return None;
        }
        let mut best: Option<usize> = None;
        for i in 0..pn
            invariant
                pn == paths@.len(),
                best matches Some(b) ==> b < pn,
        {
            let better = match best {
                Some(b) => {
                    let cand = &paths[i];
                    let cur = &paths[b];
                    if cand.len() != cur.len() {
                        cand.len() < cur.len()
                    } else if cand.len() == 0 {
                        false
                    } else {
                        let cl = cand[cand.len() - 1];
                        let bl = cur[cur.len() - 1];
                        if cl.y != bl.y || cl.x != bl.x {
                            coord_less(&cl, &bl)
                        } else {
                            coord_less(&cand[0], &cur[0])
                        }
                    }
                },
                None => true,
            };
            if better {
                best = Some(i);
            }
        }
        match best {
            Some(b) => {
                let chosen = &paths[b];
                if chosen.len() == 0 {
                    None
                } else {
                    Some(chosen[0])
                }
            },
            None => None,
        }
    }

    /// One full round in reading order: each unit walks one step along
    /// its chosen path and strikes the weakest adjacent enemy, reading
    /// order breaking ties; a unit that finds no enemies at all ends the
    /// combat mid-round, and `false` reports it.
    pub fn round(&mut self) -> (r: Result<bool, String>)
        requires
            cave_ok(*old(self)),
        ensures
            cave_ok(*final(self)),
    {
        // The turn order is fixed before anyone moves.
        let mut order: Vec<Coord> = Vec::new();
        let n = self.units.len();
        for i in 0..n
            invariant
                n == self.units@.len(),
                cave_ok(*self),
                forall|k: int|
                    0 <= k < order@.len() ==> 0 <= (#[trigger] order@[k]).x <= 1_000 && 0
                        <= order@[k].y <= 1_000,
        {
            let c = self.units[i].coord;
            let mut at = order.len();
            while at > 0
                invariant
                    at <= order@.len(),
                decreases at,
            {
                if coord_less(&c, &order[at - 1]) {
                    at = at - 1;
                } else {
                    break ;
                }
            }
            order.insert(at, c);
            proof {
                assert forall|k: int|
                    0 <= k < order@.len() implies 0 <= (#[trigger] order@[k]).x <= 1_000 && 0
                    <= order@[k].y <= 1_000 by {}
            }
        }
        let mut killed: Vec<Coord> = Vec::new();
        let total = order.len();
        let mut t: usize = 0;
        while t < total
            invariant
                t <= total,
                total == order@.len(),
                cave_ok(*self),
                forall|k: int|
                    0 <= k < order@.len() ==> 0 <= (#[trigger] order@[k]).x <= 1_000 && 0
                        <= order@[k].y <= 1_000,
            decreases total - t,
        {
            let coord = order[t];
            t = t + 1;
            if contains_coord(&killed, &coord) {
                continue ;
            }
            let idx = match self.unit_at(&coord) {
                Some(i) => i,
                None => {
                    continue ;
                },
            };
            let unit = self.units[idx];
            let targets = self.targets(unit.is_elf);
            if targets.len() == 0 {
                return Ok(false);
            }
            let mut current = coord;
            match self.next_move(&coord, &targets) {
                Some(next) => {
                    if next.x < 0 || next.x > 1_000 || next.y < 0 || next.y > 1_000 {
                        return Err("step off the map".to_owned());
                    }
                    let mut moved = unit;
                    moved.coord = next;
                    self.units.set(idx, moved);
                    proof {
                        assert(cave_ok(*self));
                    }
                    current = next;
                },
                None => {},
            }
            // The weakest adjacent enemy, reading order breaking ties.
            let mut victim: Option<usize> = None;
            let un = self.units.len();
            for i in 0..un
                invariant
                    un == self.units@.len(),
                    cave_ok(*self),
                    0 <= current.x <= 1_000,
                    0 <= current.y <= 1_000,
                    victim matches Some(v) ==> v < un,
            {
                let candidate = self.units[i];
                if candidate.is_elf != unit.is_elf && adjacent(&current, &candidate.coord) {
                    let better = match victim {
                        Some(v) => {
                            let best = self.units[v];
                            candidate.hp < best.hp || (candidate.hp == best.hp && coord_less(
                                &candidate.coord,
                                &best.coord,
                            ))
                        },
                        None => true,
                    };
                    if better {
                        victim = Some(i);
                    }
                }
            }
            match victim {
                Some(v) => {
                    let target = self.units[v];
                    let damage = if target.is_elf {
                        3
                    } else {
                        self.elf_damage
                    };
                    let mut hurt = target;
                    hurt.hp = hurt.hp - damage;
                    if hurt.hp <= 0 {
                        self.units.remove(v);
                        killed.push(target.coord);
                    } else {
                        self.units.set(v, hurt);
                    }
                    proof {
                        assert(cave_ok(*self));
                    }
                },
                None => {},
            }
        }
        Ok(true)
    }

    /// The map as text: walls, elves, goblins and open ground up to the
    /// furthest occupied column and row.
    pub fn to_string(&self) -> (r: String)
        requires
            cave_ok(*self),
    {
        let mut max_x: i64 = 0;
        let mut max_y: i64 = 0;
        let rows = self.walls.len();
        for y in 0..rows
            invariant
                rows == self.walls@.len(),
                cave_ok(*self),
                0 <= max_x <= 1_000,
                0 <= max_y <= 1_000,
        {
            let row = &self.walls[y];
            let width = row.len();
            for x in 0..width
                invariant
                    width == row@.len(),
                    width <= 1_000,
                    y < rows <= 1_000,
                    0 <= max_x <= 1_000,
                    0 <= max_y <= 1_000,
            {
                if row[x] {
                    if x as i64 > max_x {
                        max_x = x as i64;
                    }
                    if y as i64 > max_y {
                        max_y = y as i64;
                    }
                }
            }
        }
        let un = self.units.len();
        for i in 0..un
            invariant
                un == self.units@.len(),
                cave_ok(*self),
                0 <= max_x <= 1_000,
                0 <= max_y <= 1_000,
        {
            let c = self.units[i].coord;
            if c.x > max_x {
                max_x = c.x;
            }
            if c.y > max_y {
                max_y = c.y;
            }
        }
        let mut s = String::new();
        let mut y: i64 = 0;
        while y <= max_y
            invariant
                cave_ok(*self),
                0 <= y,
                y <= max_y + 1,
                0 <= max_x <= 1_000,
                0 <= max_y <= 1_000,
            decreases max_y + 1 - y,
        {
            let mut x: i64 = 0;
            while x <= max_x
                invariant
                    cave_ok(*self),
                    0 <= x,
                    x <= max_x + 1,
                    0 <= y <= 1_000,
                    0 <= max_x <= 1_000,
                decreases max_x + 1 - x,
            {
                let c = Coord { y, x };
                if self.is_wall(&c) {
                    text::push_char(&mut s, '#');
                } else {
                    match self.unit_at(&c) {
                        Some(i) => {
                            if self.units[i].is_elf {
                                text::push_char(&mut s, 'E');
                            } else {
                                text::push_char(&mut s, 'G');
                            }
                        },
                        None => {
                            text::push_char(&mut s, '.');
                        },
                    }
                }
                x = x + 1;
            }
            text::push_char(&mut s, '\n');
            y = y + 1;
        }
        s
    }
}

/// An exact copy of a path.
fn clone_path(v: &Vec<Coord>) -> (r: Vec<Coord>)
    ensures
        r@ == v@,
{
    let mut out: Vec<Coord> = Vec::new();
    let n = v.len();
    for i in 0..n
        invariant
            n == v@.len(),
            out@ == v@.take(i as int),
    {
        proof {
            assert(v@.take(i + 1) =~= v@.take(i as int).push(v@[i as int]));
        }
        out.push(v[i]);
    }
    proof {
        assert(v@.take(n as int) =~= v@);
    }
    out
}

/// Whether `v` lists the square.
fn contains_coord(v: &Vec<Coord>, c: &Coord) -> (r: bool) {
    let n = v.len();
    for i in 0..n
        invariant
            n == v@.len(),
    {
        if v[i].x == c.x && v[i].y == c.y {
            return true;
        }
    }
    false
}

/// Runs a battle to its end and returns the outcome (full rounds times
/// remaining hit points) with whether every elf survived.
fn run_to_end(input: &str, damage: i64) -> (r: Result<(u64, bool), String>)
    requires
        0 <= damage <= 100_000,
{
    let mut cave = parse_cave(input)?;
    let mut elf_count: usize = 0;
    let n = cave.units.len();
    for i in 0..n
        invariant
            n == cave.units@.len(),
            elf_count <= i,
    {
        if cave.units[i].is_elf {
            elf_count = elf_count + 1;
        }
    }
    cave.elf_damage = damage;
    let mut rounds: u64 = 0;
    let mut budget: u32 = 100_000;
    while budget > 0
        invariant
            cave_ok(cave),
            rounds <= 100_000,
        decreases budget,
    {
        budget = budget - 1;
        let finished = cave.round()?;
        if finished && rounds < 100_000 {
            rounds = rounds + 1;
        }
        let mut elves: u64 = 0;
        let mut goblins: u64 = 0;
        let un = cave.units.len();
        for i in 0..un
            invariant
                un == cave.units@.len(),
                cave_ok(cave),
        {
            if cave.units[i].is_elf {
                elves = match elves.checked_add(1) {
                    Some(v) => v,
                    None => u64::MAX,
                };
            } else {
                goblins = match goblins.checked_add(1) {
                    Some(v) => v,
                    None => u64::MAX,
                };
            }
        }
        if elves == 0 || goblins == 0 {
            // One side is gone: total the survivors.
            let mut hp_sum: u64 = 0;
            let mut surviving_elves: usize = 0;
            let sn = cave.units.len();
            for i in 0..sn
                invariant
                    sn == cave.units@.len(),
                    cave_ok(cave),
                    surviving_elves <= i,
            {
                let u = cave.units[i];
                if u.hp > 0 {
                    hp_sum = match hp_sum.checked_add(u.hp as u64) {
                        Some(v) => v,
                        None => u64::MAX,
                    };
                }
                if u.is_elf {
                    surviving_elves = surviving_elves + 1;
                }
            }
            let outcome = match rounds.checked_mul(hp_sum) {
                Some(v) => v,
                None => u64::MAX,
            };
            return Ok((outcome, surviving_elves == elf_count));
        }
    }
    Err("combat did not end within the round budget".to_owned())
}

/// The battle outcome with the standard elf attack power.
pub fn part1(input: &str) -> Result<u64, String> {
    match run_to_end(input, 3) {
        Ok((outcome, _)) => Ok(outcome),
        Err(e) => Err(e),
    }
}

/// The outcome under the smallest elf attack power that wins the battle
/// without losing an elf; powers that need the same number of blows per
/// kill are skipped as a block.
pub fn part2(input: &str) -> Result<u64, String> {
    let mut damage: i64 = 4;
    let mut kill_turns: i64 = 200 / 4;
    let mut budget: u32 = 300;
    while budget > 0
        invariant
            4 <= damage <= 100_000,
            0 <= kill_turns <= 201,
        decreases budget,
    {
        budget = budget - 1;
        let (rounds, is_elf_win) = run_to_end(input, damage)?;
        if is_elf_win {
            return Ok(rounds);
        }
        let mut new_kill_turns = kill_turns;
        let mut inner: u32 = 300;
        while new_kill_turns == kill_turns && inner > 0
            invariant
                4 <= damage <= 100_000,
                0 <= new_kill_turns <= 201,
                0 <= kill_turns <= 201,
            decreases inner,
        {
            inner = inner - 1;
            if damage >= 1_000 {
                return Err("no winning attack power found".to_owned());
            }
            damage = damage + 1;
            new_kill_turns = 200 / damage;
            if 200 % damage != 0 {
                new_kill_turns = new_kill_turns + 1;
            }
        }
        kill_turns = new_kill_turns;
    }
    Err("no winning attack power found".to_owned())
}

} // verus!
