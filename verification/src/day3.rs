//! Fabric claim puzzle: counts square inches claimed more than once, and
//! finds the one claim that overlaps no other.

use vstd::prelude::*;

use crate::day::{Day, DayResult};
use crate::text;

verus! {

pub struct Instance;

/// A rectangular claim on the fabric.
pub struct Claim {
    pub id: u16,
    pub x: i64,
    pub y: i64,
    pub width: i64,
    pub height: i64,
}

/// The coordinates are tame enough that no corner arithmetic can leave
/// the 64-bit range; parsing enforces this.
pub open spec fn claim_ok(c: Claim) -> bool {
    &&& -1_000_000_000 <= c.x <= 1_000_000_000
    &&& -1_000_000_000 <= c.y <= 1_000_000_000
    &&& 0 <= c.width <= 1_000_000_000
    &&& 0 <= c.height <= 1_000_000_000
}

impl Day for Instance {
    fn run(&self, input: &str) -> Result<DayResult, String> {
        if !input.is_ascii() {
            return Err("input is not ascii".to_owned());
        }
        let lines = text::split_lines(input.as_bytes());
        let mut claims: Vec<Claim> = Vec::new();
        let n = lines.len();
        for i in 0..n
            invariant
                n == lines@.len(),
                forall|j: int| 0 <= j < claims@.len() ==> claim_ok(#[trigger] claims@[j]),
        {
            match parse_claim(lines[i].as_slice()) {
                Ok(c) => claims.push(c),
                Err(e) => {
                    return Err(e);
                },
            }
        }
        let mut fabric = Fabric { cells: Vec::new() };
        let m = claims.len();
        for i in 0..m
            invariant
                m == claims@.len(),
                forall|j: int| 0 <= j < claims@.len() ==> claim_ok(#[trigger] claims@[j]),
        {
            fabric.add_claim(&claims[i]);
        }
        let overlaps = fabric.count_overlaps();
        let part2 = match fabric.find_non_overlapping_claim(&claims) {
            Some(id) => Some(id.to_string()),
            None => None,
        };
        Ok(DayResult { part1: overlaps.to_string(), part2 })
    }
}

/// Reads `#id @ x,y: wxh`; anything else is a construction failure.
fn parse_claim(line: &[u8]) -> (r: Result<Claim, String>)
    ensures
        r matches Ok(c) ==> claim_ok(c),
{
    let parts = text::split_byte(line, 32);
    if parts.len() != 4 {
        return Err("Invalid claim".to_owned());
    }
    // The id, without its leading `#` marks.
    let tag = parts[0].as_slice();
    let mut start: usize = 0;
    let tn = tag.len();
    while start < tn && tag[start] == 35
        invariant
            start <= tn,
            tn == tag@.len(),
        decreases tn - start,
    {
        start = start + 1;
    }
    let id = match text::parse_u64(&tag[start..tn]) {
        Some(v) => {
            if v > 65535 {
                return Err("Invalid id".to_owned());
            }
            v as u16
        },
        None => {
            return Err("Invalid id".to_owned());
        },
    };
    // The corner, with its trailing `:` stripped.
    let corner = parts[2].as_slice();
    let cn = if corner.len() > 0 && corner[corner.len() - 1] == 58 {
        corner.len() - 1
    } else {
        corner.len()
    };
    let coords = text::split_byte(&corner[0..cn], 44);
    if coords.len() != 2 {
        return Err("Invalid claim".to_owned());
    }
    let x = match text::parse_i64(coords[0].as_slice()) {
        Some(v) => v,
        None => {
            return Err("Invalid coordinate".to_owned());
        },
    };
    let y = match text::parse_i64(coords[1].as_slice()) {
        Some(v) => v,
        None => {
            return Err("Invalid coordinate".to_owned());
        },
    };
    // The size.
    let size = text::split_byte(parts[3].as_slice(), 120);
    if size.len() != 2 {
        return Err("Invalid claim".to_owned());
    }
    let width = match text::parse_i64(size[0].as_slice()) {
        Some(v) => v,
        None => {
            return Err("Invalid size".to_owned());
        },
    };
    let height = match text::parse_i64(size[1].as_slice()) {
        Some(v) => v,
        None => {
            return Err("Invalid size".to_owned());
        },
    };
    if x < -1_000_000_000 || x > 1_000_000_000 || y < -1_000_000_000 || y > 1_000_000_000 || width
        < 0 || width > 1_000_000_000 || height < 0 || height > 1_000_000_000 {
        return Err("Invalid claim".to_owned());
    }
    Ok(Claim { id, x, y, width, height })
}

/// The fabric as a sparse map: each touched square inch with the ids that
/// claim it.
pub struct Fabric {
    cells: Vec<(i64, i64, Vec<u16>)>,
}

impl Fabric {
    /// Records `claim.id` on every square inch the claim covers.
    fn add_claim(&mut self, claim: &Claim)
        requires
            claim_ok(*claim),
    {
        let mut cx = claim.x;
        while cx < claim.x + claim.width
            invariant
                claim_ok(*claim),
                claim.x <= cx,
            decreases claim.x + claim.width - cx,
        {
            let mut cy = claim.y;
            while cy < claim.y + claim.height
                invariant
                    claim_ok(*claim),
                    claim.y <= cy,
                decreases claim.y + claim.height - cy,
            {
                self.mark(cx, cy, claim.id);
                cy = cy + 1;
            }
            cx = cx + 1;
        }
    }

    /// Appends `id` to the cell at `(x, y)`, creating it if needed.
    fn mark(&mut self, x: i64, y: i64, id: u16) {
        let n = self.cells.len();
        for i in 0..n
            invariant
                n == self.cells@.len(),
        {
            if self.cells[i].0 == x && self.cells[i].1 == y {
                let mut entry = self.cells.remove(i);
                entry.2.push(id);
                self.cells.insert(i, entry);
                return ;
            }
        }
        let mut ids: Vec<u16> = Vec::new();
        ids.push(id);
        self.cells.push((x, y, ids));
    }

    /// How many square inches carry two or more claims.
    fn count_overlaps(&self) -> (r: usize) {
        let n = self.cells.len();
        let mut count: usize = 0;
        for i in 0..n
            invariant
                n == self.cells@.len(),
                count <= i,
        {
            if self.cells[i].2.len() > 1 {
                count = count + 1;
            }
        }
        count
    }

    /// The id of the first claim that shares no square inch with another.
    fn find_non_overlapping_claim(&self, claims: &Vec<Claim>) -> (r: Option<u16>) {
        let m = claims.len();
        for k in 0..m
            invariant
                m == claims@.len(),
        {
            let id = claims[k].id;
            let mut overlaps = false;
            let n = self.cells.len();
            for i in 0..n
                invariant
                    n == self.cells@.len(),
            {
                if self.cells[i].2.len() > 1 && contains_id(&self.cells[i].2, id) {
                    overlaps = true;
                }
            }
            if !overlaps {
                return Some(id);
            }
        }
        None
    }
}

/// Whether `v` lists `x`.
fn contains_id(v: &Vec<u16>, x: u16) -> (r: bool)
    ensures
        r == v@.contains(x),
{
    let n = v.len();
    for i in 0..n
        invariant
            n == v@.len(),
            forall|j: int| 0 <= j < i ==> v@[j] != x,
    {
        if v[i] == x {
            assert(v@[i as int] == x);
            return true;
        }
    }
    false
}

} // verus!
