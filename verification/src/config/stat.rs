//! A node of the stat hierarchy: the attribute tree a player is checked
//! against. Leaves are checkable attributes, inner nodes are families.
use vstd::prelude::*;

use crate::config::parser::{TreeError, TreeStructure};
use crate::text::{normalize_seq, normalize_str, trim, trim_spec};

verus! {

/// The number of direct children a stat family may hold.
pub const STAT_CHILD_CAP: usize = 20;

/// Represent a stat tree node
#[derive(Debug, PartialEq, Eq)]
pub struct Stat {
    pub id: String,
    pub display_name: String,
    pub sub_stats: Vec<Stat>,
}

impl TreeStructure for Stat {
    open spec fn display_of(&self) -> Seq<char> {
        self.display_name@
    }

    open spec fn id_of(&self) -> Seq<char> {
        self.id@
    }

    open spec fn children_of(&self) -> Seq<Self> {
        self.sub_stats@
    }

    open spec fn cap_ok(n: nat) -> bool {
        n <= STAT_CHILD_CAP
    }

    fn get_children(&self) -> (r: &Vec<Self>) {
        &self.sub_stats
    }

    fn take_children(self) -> (r: Vec<Self>) {
        self.sub_stats
    }

    /// Create a Stat from a raw line of the file; the raw input is
    /// normalized to become the stat's identifier. Refuses a family of
    /// more than twenty direct members.
    fn from_line(raw_line: &str, sub_stats: Vec<Self>) -> (r: Result<Self, TreeError>) {
        if sub_stats.len() > STAT_CHILD_CAP {
            return Err(TreeError::TooManyChildren);
        }
        let trimmed = trim(raw_line);
        Ok(Stat {
            id: normalize_str(trimmed),
            display_name: trimmed.to_owned(),
            sub_stats,
        })
    }
}

} // verus!
