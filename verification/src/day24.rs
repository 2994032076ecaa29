//! Immune war puzzle: two armies of unit groups pick targets by damage
//! and initiative and fight to the death; the answers are the winner's
//! unit count and the same after the smallest immune-system boost that
//! flips the outcome.

use vstd::prelude::*;

use crate::day::{Day, DayResult};
use crate::text;

verus! {

pub struct Instance;

/// One group: identical units fighting as a block.
#[derive(Debug, PartialEq, Eq)]
pub struct Group {
    pub unit_count: u64,
    pub hit_points: u64,
    pub damage: u64,
    pub damage_type: String,
    pub initiative: u64,
    pub weaknesses: Vec<String>,
    pub immunities: Vec<String>,
}

/// The numeric fields stay small enough for the damage arithmetic.
pub open spec fn group_ok(g: Group) -> bool {
    &&& g.unit_count <= 1_000_000_000
    &&& 1 <= g.hit_points <= 1_000_000_000
    &&& g.damage <= 1_000_010_000
    &&& g.initiative <= 1_000_000_000
}

#[derive(Debug, PartialEq, Eq)]
pub struct Army {
    pub groups: Vec<Group>,
}

pub open spec fn army_ok(a: Army) -> bool {
    forall|j: int| 0 <= j < a.groups@.len() ==> group_ok(#[trigger] a.groups@[j])
}

#[derive(Debug, PartialEq, Eq)]
pub struct Armies {
    pub immune_system: Army,
    pub infection: Army,
}

pub open spec fn armies_ok(a: Armies) -> bool {
    army_ok(a.immune_system) && army_ok(a.infection)
}

impl Day for Instance {
    fn run(&self, input: &str) -> Result<DayResult, String> {
        if !input.is_ascii() {
            return Err("input is not ascii".to_owned());
        }
        let mut armies = parse_armies(input)?;
        let part1 = armies.to_death();
        let fresh = parse_armies(input)?;
        let part2 = part2(&fresh);
        Ok(DayResult { part1: part1.to_string(), part2: Some(part2.to_string()) })
    }
}

/// Whether `v` lists the string `s`.
fn contains_string(v: &Vec<String>, s: &String) -> (r: bool) {
    let n = v.len();
    for i in 0..n
        invariant
            n == v@.len(),
    {
        if v[i].as_str() == s.as_str() {
            return true;
        }
    }
    false
}

impl Group {
    /// Units times per-unit damage.
    pub fn effective_power(&self) -> (r: u64)
        requires
            group_ok(*self),
        ensures
            r <= 1_000_010_000 * 1_000_000_000,
    {
        proof {
            assert(self.unit_count * self.damage <= 1_000_000_000 * 1_000_010_000)
                by (nonlinear_arith)
                requires
                    0 <= self.unit_count <= 1_000_000_000,
                    0 <= self.damage <= 1_000_010_000,
            ;
        }
        self.unit_count * self.damage
    }

    /// The damage this group deals the other: nothing against an immune
    /// target, double against a weak one, effective power otherwise.
    pub fn damage_to(&self, other: &Group) -> (r: u64)
        requires
            group_ok(*self),
    {
        if contains_string(&other.immunities, &self.damage_type) {
            0
        } else if contains_string(&other.weaknesses, &self.damage_type) {
            self.effective_power() * 2
        } else {
            self.effective_power()
        }
    }
}

/// An independent copy of a group, numeric fields and all.
fn clone_group(g: &Group) -> (r: Group)
    ensures
        r.unit_count == g.unit_count,
        r.hit_points == g.hit_points,
        r.damage == g.damage,
        r.initiative == g.initiative,
{
    let mut weaknesses: Vec<String> = Vec::new();
    let wn = g.weaknesses.len();
    for i in 0..wn
        invariant
            wn == g.weaknesses@.len(),
    {
        weaknesses.push(clone_string(&g.weaknesses[i]));
    }
    let mut immunities: Vec<String> = Vec::new();
    let im = g.immunities.len();
    for i in 0..im
        invariant
            im == g.immunities@.len(),
    {
        immunities.push(clone_string(&g.immunities[i]));
    }
    Group {
        unit_count: g.unit_count,
        hit_points: g.hit_points,
        damage: g.damage,
        damage_type: clone_string(&g.damage_type),
        initiative: g.initiative,
        weaknesses,
        immunities,
    }
}

/// An independent copy of a string.
fn clone_string(s: &String) -> (r: String)
    ensures
        r@ == s@,
{
    s.clone()
}

/// An independent copy of an army.
fn clone_army(a: &Army) -> (r: Army)
    requires
        army_ok(*a),
    ensures
        army_ok(r),
        r.groups@.len() == a.groups@.len(),
        forall|j: int|
            0 <= j < r.groups@.len() ==> (#[trigger] r.groups@[j]).damage == a.groups@[j].damage,
{
    let mut groups: Vec<Group> = Vec::new();
    let n = a.groups.len();
    for i in 0..n
        invariant
            n == a.groups@.len(),
            army_ok(*a),
            groups@.len() == i,
            forall|j: int| 0 <= j < groups@.len() ==> group_ok(#[trigger] groups@[j]),
            forall|j: int|
                0 <= j < groups@.len() ==> (#[trigger] groups@[j]).damage == a.groups@[j].damage,
    {
        groups.push(clone_group(&a.groups[i]));
        proof {
            assert forall|j: int|
                0 <= j < groups@.len() implies group_ok(#[trigger] groups@[j]) && groups@[j].damage
                == a.groups@[j].damage by {}
        }
    }
    Army { groups }
}

impl Army {
    /// Pairs each group with its target in the other army: groups choose
    /// in order of effective power then initiative, each takes the
    /// not-yet-taken enemy it damages most (power, then initiative break
    /// ties), and a group it cannot damage selects nothing.
    pub fn select_targets(&self, other: &Army) -> (r: Vec<(usize, usize)>)
        requires
            army_ok(*self),
            army_ok(*other),
        ensures
            forall|k: int|
                0 <= k < r@.len() ==> (#[trigger] r@[k]).0 < self.groups@.len() && r@[k].1
                    < other.groups@.len(),
    {
        let n = self.groups.len();
        // The group indices, sorted by descending power and initiative.
        let mut order: Vec<usize> = Vec::new();
        for i in 0..n
            invariant
                n == self.groups@.len(),
                army_ok(*self),
                order@.len() == i,
                forall|k: int| 0 <= k < order@.len() ==> #[trigger] order@[k] < n,
        {
            let mut at = order.len();
            let power = self.groups[i].effective_power();
            let initiative = self.groups[i].initiative;
            while at > 0
                invariant
                    at <= order@.len(),
                    n == self.groups@.len(),
                    army_ok(*self),
                    forall|k: int| 0 <= k < order@.len() ==> #[trigger] order@[k] < n,
                decreases at,
            {
                let before = order[at - 1];
                let bp = self.groups[before].effective_power();
                let bi = self.groups[before].initiative;
                if power > bp || (power == bp && initiative > bi) {
                    at = at - 1;
                } else {
                    break ;
                }
            }
            order.insert(at, i);
            proof {
                assert forall|k: int| 0 <= k < order@.len() implies #[trigger] order@[k] < n by {}
            }
        }
        let mut targets: Vec<(usize, usize)> = Vec::new();
        let mut selected: Vec<usize> = Vec::new();
        let m = other.groups.len();
        for oi in 0..n
            invariant
                n == self.groups@.len(),
                m == other.groups@.len(),
                army_ok(*self),
                army_ok(*other),
                forall|k: int| 0 <= k < order@.len() ==> #[trigger] order@[k] < n,
                order@.len() == n,
                forall|k: int|
                    0 <= k < targets@.len() ==> (#[trigger] targets@[k]).0 < n && targets@[k].1 < m,
        {
            let i = order[oi];
            let group = &self.groups[i];
            let mut best: Option<usize> = None;
            let mut best_damage: u64 = 0;
            let mut best_power: u64 = 0;
            let mut best_initiative: u64 = 0;
            for j in 0..m
                invariant
                    n == self.groups@.len(),
                    m == other.groups@.len(),
                    i < n,
                    army_ok(*self),
                    army_ok(*other),
                    group_ok(*group),
                    best matches Some(b) ==> b < m,
            {
                let enemy = &other.groups[j];
                if !contains_string(&enemy.immunities, &group.damage_type) && !contains_index(
                    &selected,
                    j,
                ) {
                    let damage = group.damage_to(enemy);
                    let power = enemy.effective_power();
                    let initiative = enemy.initiative;
                    let better = match best {
                        Some(_) => (damage > best_damage) || (damage == best_damage && power
                            > best_power) || (damage == best_damage && power == best_power
                            && initiative >= best_initiative),
                        None => true,
                    };
                    if better {
                        best = Some(j);
                        best_damage = damage;
                        best_power = power;
                        best_initiative = initiative;
                    }
                }
            }
            match best {
                Some(j) => {
                    targets.push((i, j));
                    selected.push(j);
                    proof {
                        assert forall|k: int|
                            0 <= k < targets@.len() implies (#[trigger] targets@[k]).0 < n
                            && targets@[k].1 < m by {}
                    }
                },
                None => {},
            }
        }
        targets
    }
}

/// Whether `v` lists the index `x`.
fn contains_index(v: &Vec<usize>, x: usize) -> (r: bool) {
    let n = v.len();
    for i in 0..n
        invariant
            n == v@.len(),
    {
        if v[i] == x {
            return true;
        }
    }
    false
}

/// Sorts a target list by descending attacker initiative; the pairs keep
/// their index bounds.
fn sort_targets_by_initiative(targets: &mut Vec<(usize, usize)>, army: &Army, other_len: Ghost<nat>)
    requires
        army_ok(*army),
        forall|k: int|
            0 <= k < old(targets)@.len() ==> (#[trigger] old(targets)@[k]).0 < army.groups@.len()
                && old(targets)@[k].1 < other_len@,
    ensures
        forall|k: int|
            0 <= k < final(targets)@.len() ==> (#[trigger] final(targets)@[k]).0
                < army.groups@.len() && final(targets)@[k].1 < other_len@,
{
    let n = targets.len();
    let mut sorted: Vec<(usize, usize)> = Vec::new();
    for i in 0..n
        invariant
            n == targets@.len(),
            army_ok(*army),
            forall|k: int|
                0 <= k < targets@.len() ==> (#[trigger] targets@[k]).0 < army.groups@.len()
                    && targets@[k].1 < other_len@,
            forall|k: int|
                0 <= k < sorted@.len() ==> (#[trigger] sorted@[k]).0 < army.groups@.len()
                    && sorted@[k].1 < other_len@,
    {
        let entry = targets[i];
        let mut at = sorted.len();
        while at > 0
            invariant
                at <= sorted@.len(),
                army_ok(*army),
                forall|k: int|
                    0 <= k < sorted@.len() ==> (#[trigger] sorted@[k]).0 < army.groups@.len()
                        && sorted@[k].1 < other_len@,
                entry.0 < army.groups@.len(),
            decreases at,
        {
            let before = sorted[at - 1];
            if army.groups[entry.0].initiative > army.groups[before.0].initiative {
                at = at - 1;
            } else {
                break ;
            }
        }
        sorted.insert(at, entry);
        proof {
            assert forall|k: int|
                0 <= k < sorted@.len() implies (#[trigger] sorted@[k]).0 < army.groups@.len()
                && sorted@[k].1 < other_len@ by {}
        }
    }
    *targets = sorted;
}

impl Armies {
    /// One fight: both sides select targets, then every attacking group
    /// strikes in order of descending initiative, killing whole units;
    /// emptied groups leave the field.
    pub fn attack(&mut self)
        requires
            armies_ok(*old(self)),
        ensures
            armies_ok(*final(self)),
    {
        let mut immune_targets = self.immune_system.select_targets(&self.infection);
        let mut infection_targets = self.infection.select_targets(&self.immune_system);
        sort_targets_by_initiative(
            &mut immune_targets,
            &self.immune_system,
            Ghost(self.infection.groups@.len()),
        );
        sort_targets_by_initiative(
            &mut infection_targets,
            &self.infection,
            Ghost(self.immune_system.groups@.len()),
        );
        let mut immune_index: usize = 0;
        let mut infection_index: usize = 0;
        while immune_index < immune_targets.len() || infection_index < infection_targets.len()
            invariant
                armies_ok(*self),
                immune_index <= immune_targets@.len(),
                infection_index <= infection_targets@.len(),
                forall|k: int|
                    0 <= k < immune_targets@.len() ==> (#[trigger] immune_targets@[k]).0
                        < self.immune_system.groups@.len() && immune_targets@[k].1
                        < self.infection.groups@.len(),
                forall|k: int|
                    0 <= k < infection_targets@.len() ==> (#[trigger] infection_targets@[k]).0
                        < self.infection.groups@.len() && infection_targets@[k].1
                        < self.immune_system.groups@.len(),
            decreases immune_targets@.len() + infection_targets@.len() - immune_index
                - infection_index,
        {
            let is_infection = if immune_index == immune_targets.len() {
                true
            } else if infection_index == infection_targets.len() {
                false
            } else {
                self.immune_system.groups[immune_targets[immune_index].0].initiative
                    < self.infection.groups[infection_targets[infection_index].0].initiative
            };
            if is_infection {
                if infection_index >= infection_targets.len() {
                    break ;
                }
                let (a, t) = infection_targets[infection_index];
                infection_index = infection_index + 1;
                let damage = self.infection.groups[a].damage_to(&self.immune_system.groups[t]);
                let hp = self.immune_system.groups[t].hit_points;
                let killed = damage / hp;
                let mut target = clone_group(&self.immune_system.groups[t]);
                target.unit_count = if target.unit_count >= killed {
                    target.unit_count - killed
                } else {
                    0
                };
                self.immune_system.groups.set(t, target);
            } else {
                if immune_index >= immune_targets.len() {
                    break ;
                }
                let (a, t) = immune_targets[immune_index];
                immune_index = immune_index + 1;
                let damage = self.immune_system.groups[a].damage_to(&self.infection.groups[t]);
                let hp = self.infection.groups[t].hit_points;
                let killed = damage / hp;
                let mut target = clone_group(&self.infection.groups[t]);
                target.unit_count = if target.unit_count >= killed {
                    target.unit_count - killed
                } else {
                    0
                };
                self.infection.groups.set(t, target);
            }
            proof {
                assert(armies_ok(*self));
            }
        }
        self.immune_system = drop_empty(&self.immune_system);
        self.infection = drop_empty(&self.infection);
    }

    /// Fights until one side is wiped out or a round changes nothing (a
    /// stalemate), and returns the surviving units; infection survivors
    /// count when the immune system is gone.
    pub fn to_death(&mut self) -> (r: u64)
        requires
            armies_ok(*old(self)),
        ensures
            armies_ok(*final(self)),
    {
        let mut budget: u32 = 100_000;
        while self.immune_system.groups.len() > 0 && self.infection.groups.len() > 0 && budget > 0
            invariant
                armies_ok(*self),
            decreases budget,
        {
            budget = budget - 1;
            let before_immune = total_units(&self.immune_system);
            let before_infection = total_units(&self.infection);
            self.attack();
            if total_units(&self.immune_system) == before_immune && total_units(&self.infection)
                == before_infection {
                // No units fell: the armies are locked in a stalemate.
                break ;
            }
        }
        if self.immune_system.groups.len() == 0 {
            total_units(&self.infection)
        } else {
            total_units(&self.immune_system)
        }
    }

    /// Raises every immune-system group's damage.
    pub fn boost(&mut self, boost: u64)
        requires
            armies_ok(*old(self)),
            boost <= 10_000,
            forall|j: int|
                0 <= j < old(self).immune_system.groups@.len() ==> (#[trigger] old(
                    self,
                ).immune_system.groups@[j]).damage <= 1_000_000_000,
        ensures
            armies_ok(*final(self)),
    {
        let n = self.immune_system.groups.len();
        for i in 0..n
            invariant
                n == self.immune_system.groups@.len(),
                boost <= 10_000,
                armies_ok(*self),
                forall|j: int|
                    i <= j < self.immune_system.groups@.len() ==> (#[trigger] self
                        .immune_system
                        .groups@[j]).damage <= 1_000_000_000,
        {
            let mut g = clone_group(&self.immune_system.groups[i]);
            g.damage = g.damage + boost;
            self.immune_system.groups.set(i, g);
            proof {
                assert(armies_ok(*self));
            }
        }
    }
}

/// The army without its emptied groups.
fn drop_empty(a: &Army) -> (r: Army)
    requires
        army_ok(*a),
    ensures
        army_ok(r),
{
    let mut groups: Vec<Group> = Vec::new();
    let n = a.groups.len();
    for i in 0..n
        invariant
            n == a.groups@.len(),
            army_ok(*a),
            forall|j: int| 0 <= j < groups@.len() ==> group_ok(#[trigger] groups@[j]),
    {
        if a.groups[i].unit_count > 0 {
            groups.push(clone_group(&a.groups[i]));
            proof {
                assert forall|j: int| 0 <= j < groups@.len() implies group_ok(
                    #[trigger] groups@[j],
                ) by {}
            }
        }
    }
    Army { groups }
}

/// The army's total unit count, saturating at the integer limit.
fn total_units(a: &Army) -> (r: u64) {
    let mut total: u64 = 0;
    let n = a.groups.len();
    for i in 0..n
        invariant
            n == a.groups@.len(),
    {
        total = match total.checked_add(a.groups[i].unit_count) {
            Some(t) => t,
            None => u64::MAX,
        };
    }
    total
}

/// The smallest boost in `0..10_000` that lets the immune system win,
/// found by binary search, and the units it then keeps.
fn part2(armies: &Armies) -> (r: u64)
    requires
        armies_ok(*armies),
        forall|j: int|
            0 <= j < armies.immune_system.groups@.len() ==> (#[trigger] armies
                .immune_system
                .groups@[j]).damage <= 1_000_000_000,
{
    let mut low: u64 = 0;
    let mut high: u64 = 10_000;
    while low < high
        invariant
            armies_ok(*armies),
            low <= high <= 10_000,
            forall|j: int|
                0 <= j < armies.immune_system.groups@.len() ==> (#[trigger] armies
                    .immune_system
                    .groups@[j]).damage <= 1_000_000_000,
        decreases high - low,
    {
        let mid = low + (high - low) / 2;
        if boost_clears(armies, mid) {
            high = mid;
        } else {
            low = mid + 1;
        }
    }
    let mut boosted = Armies {
        immune_system: clone_army(&armies.immune_system),
        infection: clone_army(&armies.infection),
    };
    boosted.boost(low);
    boosted.to_death()
}

/// Whether the boosted immune system wipes the infection out.
fn boost_clears(armies: &Armies, boost: u64) -> (r: bool)
    requires
        armies_ok(*armies),
        boost <= 10_000,
        forall|j: int|
            0 <= j < armies.immune_system.groups@.len() ==> (#[trigger] armies
                .immune_system
                .groups@[j]).damage <= 1_000_000_000,
{
    let mut trial = Armies {
        immune_system: clone_army(&armies.immune_system),
        infection: clone_army(&armies.infection),
    };
    trial.boost(boost);
    trial.to_death();
    trial.infection.groups.len() == 0
}

/// Reads both armies: a header line each, then one group per line.
pub fn parse_armies(input: &str) -> (r: Result<Armies, String>)
    ensures
        r matches Ok(a) ==> armies_ok(a) && forall|j: int|
            0 <= j < a.immune_system.groups@.len() ==> (#[trigger] a.immune_system.groups@[j]).damage
                <= 1_000_000_000,
{
    let lines = text::split_lines(input.as_bytes());
    let mut immune: Vec<Group> = Vec::new();
    let mut infection: Vec<Group> = Vec::new();
    let mut in_infection = false;
    let n = lines.len();
    for i in 0..n
        invariant
            n == lines@.len(),
            forall|j: int|
                0 <= j < immune@.len() ==> group_ok(#[trigger] immune@[j]) && immune@[j].damage
                    <= 1_000_000_000,
            forall|j: int| 0 <= j < infection@.len() ==> group_ok(#[trigger] infection@[j]),
    {
        let line = lines[i].as_slice();
        if line.len() == 0 {
            // A blank separator line.
        } else if text::bytes_eq(line, "Immune System:".as_bytes()) {
            in_infection = false;
        } else if text::bytes_eq(line, "Infection:".as_bytes()) {
            in_infection = true;
        } else {
            match parse_group(line) {
                Ok(g) => {
                    if in_infection {
                        infection.push(g);
                        proof {
                            assert forall|j: int| 0 <= j < infection@.len() implies group_ok(
                                #[trigger] infection@[j],
                            ) by {}
                        }
                    } else {
                        immune.push(g);
                        proof {
                            assert forall|j: int|
                                0 <= j < immune@.len() implies group_ok(#[trigger] immune@[j])
                                && immune@[j].damage <= 1_000_000_000 by {}
                        }
                    }
                },
                Err(e) => {
                    return Err(e);
                },
            }
        }
    }
    Ok(Armies { immune_system: Army { groups: immune }, infection: Army { groups: infection } })
}

/// Strips the bracket punctuation group descriptions carry.
fn strip_punctuation(token: &[u8]) -> (r: Vec<u8>) {
    let mut out: Vec<u8> = Vec::new();
    let n = token.len();
    for i in 0..n
        invariant
            n == token@.len(),
    {
        let b = token[i];
        if b != 40 && b != 41 && b != 44 && b != 59 {
            out.push(b);
        }
    }
    out
}

/// Reads one group line: counts, the optional weakness and immunity
/// clause in parentheses, the attack and the initiative.
pub fn parse_group(line: &[u8]) -> (r: Result<Group, String>)
    ensures
        r matches Ok(g) ==> group_ok(g) && g.damage <= 1_000_000_000,
{
    let parts = text::split_fields(line);
    if parts.len() < 18 {
        return Err("invalid group".to_owned());
    }
    let unit_count = match text::parse_u64(parts[0].as_slice()) {
        Some(v) if 1 <= v && v <= 1_000_000_000 => v,
        _ => {
            return Err("invalid unit count".to_owned());
        },
    };
    let hit_points = match text::parse_u64(parts[4].as_slice()) {
        Some(v) if 1 <= v && v <= 1_000_000_000 => v,
        _ => {
            return Err("invalid hit points".to_owned());
        },
    };
    let mut offset: usize = 0;
    let mut weaknesses: Vec<String> = Vec::new();
    let mut immunities: Vec<String> = Vec::new();
    let total = parts.len();
    if parts[7].as_slice().len() > 0 && parts[7].as_slice()[0] == 40 {
        // Scan the parenthesised clause and collect each kind's types.
        let mut end: usize = 7;
        while end < total && !ends_with_paren(parts[end].as_slice())
            invariant
                7 <= end <= total,
                total == parts@.len(),
            decreases total - end,
        {
            end = end + 1;
        }
        if end >= total {
            return Err("unclosed clause".to_owned());
        }
        offset = end - 7 + 1;
        let mut kind_weak = false;
        let mut k: usize = 7;
        while k <= end
            invariant
                7 <= k,
                k <= end + 1,
                end < total,
                total == parts@.len(),
            decreases end + 1 - k,
        {
            let word = strip_punctuation(parts[k].as_slice());
            if text::bytes_eq(word.as_slice(), "weak".as_bytes()) {
                kind_weak = true;
            } else if text::bytes_eq(word.as_slice(), "immune".as_bytes()) {
                kind_weak = false;
            } else if text::bytes_eq(word.as_slice(), "to".as_bytes()) {
                // The connective carries nothing.
            } else if word.len() > 0 {
                if kind_weak {
                    weaknesses.push(text::ascii_string(word.as_slice()));
                } else {
                    immunities.push(text::ascii_string(word.as_slice()));
                }
            }
            k = k + 1;
        }
    }
    if total < offset || total - offset < 18 {
        return Err("invalid group".to_owned());
    }
    let damage = match text::parse_u64(parts[12 + offset].as_slice()) {
        Some(v) if 1 <= v && v <= 1_000_000_000 => v,
        _ => {
            return Err("invalid damage".to_owned());
        },
    };
    let damage_type = text::ascii_string(parts[13 + offset].as_slice());
    let initiative = match text::parse_u64(parts[17 + offset].as_slice()) {
        Some(v) if v <= 1_000_000_000 => v,
        _ => {
            return Err("invalid initiative".to_owned());
        },
    };
    Ok(
        Group {
            unit_count,
            hit_points,
            damage,
            damage_type,
            initiative,
            weaknesses,
            immunities,
        },
    )
}

/// Whether the token closes the parenthesised clause.
fn ends_with_paren(token: &[u8]) -> (r: bool) {
    token.len() > 0 && token[token.len() - 1] == 41
}

} // verus!
