//! License tree puzzle: a tree serialized as a number list, the sum of
//! all metadata entries, and the root value computed through
//! metadata-as-child-index lookups.

use vstd::prelude::*;

use crate::day::{Day, DayResult};
use crate::text;

verus! {

pub struct Instance;

/// A license node: children and metadata entries.
pub struct Tree {
    pub children: Vec<Tree>,
    pub metadata: Vec<u64>,
}

impl Day for Instance {
    fn run(&self, input: &str) -> Result<DayResult, String> {
        if !input.is_ascii() {
            return Err("input is not ascii".to_owned());
        }
        let tree = parse_tree(input)?;
        let sum = match tree.metadata_sum() {
            Some(v) => v,
            None => {
                return Err("metadata sum overflowed".to_owned());
            },
        };
        let value = match tree.root_value() {
            Some(v) => v,
            None => {
                return Err("root value overflowed".to_owned());
            },
        };
        Ok(DayResult { part1: sum.to_string(), part2: Some(value.to_string()) })
    }
}

/// Reads the whitespace-separated number list and builds the tree; left
/// over numbers after the root are ignored, a truncated tree is a
/// construction failure.
fn parse_tree(input: &str) -> Result<Tree, String> {
    let fields = text::split_fields(input.as_bytes());
    let mut nums: Vec<u64> = Vec::new();
    let n = fields.len();
    for i in 0..n
        invariant
            n == fields@.len(),
    {
        match text::parse_u64(fields[i].as_slice()) {
            Some(v) => {
                if v > 0xffff_ffff {
                    return Err("number out of range".to_owned());
                }
                nums.push(v);
            },
            None => {
                return Err("invalid number".to_owned());
            },
        }
    }
    let mut idx: usize = 0;
    parse_node(&nums, &mut idx)
}

/// Reads one node at the cursor: child count, metadata count, the
/// children, then the metadata.
fn parse_node(nums: &Vec<u64>, idx: &mut usize) -> (r: Result<Tree, String>)
    requires
        *old(idx) <= nums@.len(),
    ensures
        *old(idx) <= *final(idx) <= nums@.len(),
        r is Ok ==> *final(idx) >= *old(idx) + 2,
    decreases nums@.len() - *idx,
{
    if *idx >= nums.len() || nums.len() - *idx < 2 {
        return Err("missing child count".to_owned());
    }
    let child_count = nums[*idx];
    let metadata_count = nums[*idx + 1];
    *idx = *idx + 2;
    let mut children: Vec<Tree> = Vec::new();
    let mut k: u64 = 0;
    while k < child_count
        invariant
            *old(idx) + 2 <= *idx <= nums@.len(),
        decreases child_count - k, nums@.len() - *idx,
    {
        match parse_node(nums, idx) {
            Ok(child) => children.push(child),
            Err(e) => {
                return Err(e);
            },
        }
        k = k + 1;
    }
    let mut metadata: Vec<u64> = Vec::new();
    let mut m: u64 = 0;
    while m < metadata_count
        invariant
            *old(idx) + 2 <= *idx <= nums@.len(),
        decreases metadata_count - m,
    {
        if *idx >= nums.len() {
            // A truncated list still yields the entries it has.
            return Ok(Tree { children, metadata });
        }
        metadata.push(nums[*idx]);
        *idx = *idx + 1;
        m = m + 1;
    }
    Ok(Tree { children, metadata })
}

impl Tree {
    /// The sum of every metadata entry of the node and its descendants,
    /// or nothing on arithmetic overflow.
    fn metadata_sum(&self) -> (r: Option<u64>)
        decreases *self,
    {
        let mut total: u64 = 0;
        let m = self.metadata.len();
        for i in 0..m
            invariant
                m == self.metadata@.len(),
        {
            total = match total.checked_add(self.metadata[i]) {
                Some(t) => t,
                None => {
                    return None;
                },
            };
        }
        let n = self.children.len();
        for i in 0..n
            invariant
                n == self.children@.len(),
        {
            proof {
                assert(decreases_to!(*self => self.children@[i as int]));
            }
            let child_sum = match self.children[i].metadata_sum() {
                Some(s) => s,
                None => {
                    return None;
                },
            };
            total = match total.checked_add(child_sum) {
                Some(t) => t,
                None => {
                    return None;
                },
            };
        }
        Some(total)
    }

    /// The node's value: the metadata sum for a leaf, else the sum of the
    /// values of the children that the metadata entries select one-based;
    /// an entry that selects no child contributes nothing.  Nothing on
    /// arithmetic overflow.
    fn root_value(&self) -> (r: Option<u64>)
        decreases *self,
    {
        let n = self.children.len();
        if n == 0 {
            return self.metadata_sum();
        }
        let mut total: u64 = 0;
        let m = self.metadata.len();
        for i in 0..m
            invariant
                m == self.metadata@.len(),
                n == self.children@.len(),
        {
            let index = self.metadata[i];
            if index >= 1 && index <= n as u64 {
                let at = (index - 1) as usize;
                proof {
                    assert(decreases_to!(*self => self.children@[at as int]));
                }
                let child_value = match self.children[at].root_value() {
                    Some(v) => v,
                    None => {
                        return None;
                    },
                };
                total = match total.checked_add(child_value) {
                    Some(t) => t,
                    None => {
                        return None;
                    },
                };
            }
        }
        Some(total)
    }
}

} // verus!
