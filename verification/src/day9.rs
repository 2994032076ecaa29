//! Marble game puzzle: marbles enter a circle clockwise, every
//! twenty-third marble scores and pulls out the marble seven places
//! behind, and the answer is the best player score.

use vstd::prelude::*;

use crate::day::{Day, DayResult};
use crate::text;

verus! {

pub struct Instance;

impl Day for Instance {
    fn run(&self, input: &str) -> Result<DayResult, String> {
        if !input.is_ascii() {
            return Err("input is not ascii".to_owned());
        }
        let (players, marbles) = parse(input)?;
        if players == 0 || players > 1_000_000 {
            return Err("player count out of range".to_owned());
        }
        if marbles > 10_000_000 {
            return Err("marble count out of range".to_owned());
        }
        let part1 = match play_game(players, marbles) {
            Some(v) => v,
            None => {
                return Err("score overflowed".to_owned());
            },
        };
        let part2 = match play_game(players, marbles * 100) {
            Some(v) => v,
            None => {
                return Err("score overflowed".to_owned());
            },
        };
        Ok(DayResult { part1: part1.to_string(), part2: Some(part2.to_string()) })
    }
}

/// Reads the two numbers of `N players; last marble is worth M points`.
fn parse(input: &str) -> Result<(usize, usize), String> {
    let fields = text::split_fields(input.as_bytes());
    let mut nums: Vec<u64> = Vec::new();
    let n = fields.len();
    for i in 0..n
        invariant
            n == fields@.len(),
            nums@.len() <= i,
    {
        match text::parse_u64(fields[i].as_slice()) {
            Some(v) => {
                if v <= 0xffff_ffff {
                    nums.push(v);
                }
            },
            None => {},
        }
    }
    if nums.len() < 2 {
        return Err("missing player or marble count".to_owned());
    }
    Ok((nums[0] as usize, nums[1] as usize))
}

/// The circle of marbles as a doubly linked ring stored by marble number,
/// with the per-player scores.
pub struct MarbleGame {
    scores: Vec<u64>,
    marbles: Vec<(usize, usize)>,
    current_player: usize,
    current_marble: usize,
}

impl MarbleGame {
    /// The ring links stay inside the arena and the cursors stay inside
    /// their vectors.
    pub closed spec fn wf(self) -> bool {
        &&& 0 < self.scores@.len() <= 1_000_000
        &&& self.marbles@.len() > 0
        &&& self.current_player < self.scores@.len()
        &&& self.current_marble < self.marbles@.len()
        &&& forall|i: int|
            0 <= i < self.marbles@.len() ==> (#[trigger] self.marbles@[i]).0 < self.marbles@.len()
                && self.marbles@[i].1 < self.marbles@.len()
    }

    /// A fresh game: marble 0 alone in the circle, every score zero.
    pub fn new(players: usize, max_marble: usize) -> (r: Self)
        requires
            1 <= players <= 1_000_000,
            max_marble <= 0xffff_fffe,
        ensures
            r.wf(),
            r.arena_size() == max_marble + 1,
            r.arena_size() <= 0xffff_ffff,
    {
        let mut scores: Vec<u64> = Vec::new();
        for i in 0..players
            invariant
                scores@.len() == i,
        {
            scores.push(0);
        }
        let mut marbles: Vec<(usize, usize)> = Vec::new();
        let total = max_marble + 1;
        for i in 0..total
            invariant
                marbles@.len() == i,
                forall|j: int|
                    0 <= j < marbles@.len() ==> (#[trigger] marbles@[j]).0 == 0 && marbles@[j].1
                        == 0,
        {
            marbles.push((0, 0));
        }
        Self { scores, marbles, current_player: 0, current_marble: 0 }
    }

    /// How many marbles the arena can hold.
    pub closed spec fn arena_size(self) -> nat {
        self.marbles@.len()
    }

    /// Plays `marble`: a multiple of 23 scores and removes the marble
    /// seven places counter-clockwise, anything else enters two places
    /// clockwise.  Nothing on score overflow.
    pub fn insert(&mut self, marble: usize) -> (r: bool)
        requires
            old(self).wf(),
            marble < old(self).arena_size(),
            old(self).arena_size() <= 0xffff_ffff,
        ensures
            final(self).wf(),
            final(self).arena_size() == old(self).arena_size(),
    {
        if marble % 23 == 0 {
            let mut removed = self.current_marble;
            let mut step: usize = 0;
            while step < 7
                invariant
                    self.wf(),
                    removed < self.marbles@.len(),
                decreases 7 - step,
            {
                removed = self.marbles[removed].0;
                step = step + 1;
            }
            let left = self.marbles[removed].0;
            let right = self.marbles[removed].1;
            let l = self.marbles[left];
            self.marbles.set(left, (l.0, right));
            let r = self.marbles[right];
            self.marbles.set(right, (left, r.1));
            let gained = (marble as u64) + (removed as u64);
            let current_score = self.scores[self.current_player];
            match current_score.checked_add(gained) {
                Some(s) => self.scores.set(self.current_player, s),
                None => {
                    return false;
                },
            }
            self.current_marble = right;
        } else {
            let left = self.marbles[self.current_marble].1;
            let right = self.marbles[left].1;
            self.marbles.set(marble, (left, right));
            let l = self.marbles[left];
            self.marbles.set(left, (l.0, marble));
            let r = self.marbles[right];
            self.marbles.set(right, (marble, r.1));
            self.current_marble = marble;
        }
        self.current_player = (self.current_player + 1) % self.scores.len();
        true
    }

    /// The best player score.
    fn high_score(&self) -> (r: u64) {
        let n = self.scores.len();
        let mut best: u64 = 0;
        for i in 0..n
            invariant
                n == self.scores@.len(),
        {
            if self.scores[i] > best {
                best = self.scores[i];
            }
        }
        best
    }
}

/// Plays the whole game and returns the winning score, or nothing on
/// score overflow.
pub fn play_game(players: usize, marbles: usize) -> (r: Option<u64>)
    requires
        1 <= players <= 1_000_000,
        marbles <= 0xffff_fffe,
{
    let mut game = MarbleGame::new(players, marbles);
    let mut marble: usize = 1;
    while marble <= marbles
        invariant
            game.wf(),
            game.arena_size() == marbles + 1,
            game.arena_size() <= 0xffff_ffff,
            marble >= 1,
        decreases marbles + 1 - marble,
    {
        if !game.insert(marble) {
            return None;
        }
        marble = marble + 1;
    }
    Some(game.high_score())
}

} // verus!
