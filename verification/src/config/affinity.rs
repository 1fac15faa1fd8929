//! Affinities: named groupings of stats that grant a learning-speed
//! bonus, and a player's declared major and minor memberships.
use vstd::prelude::*;

use crate::config::parser::{TreeError, TreeStructure};
use crate::text::{normalize_seq, normalize_str, trim, trim_spec};

verus! {

/// Represent an affinity with its name and stats included in this affinity
#[derive(Debug, PartialEq, Eq)]
pub struct Affinity {
    pub id: String,
    pub display_name: String,
    pub stats: Vec<Affinity>,
}

impl TreeStructure for Affinity {
    open spec fn display_of(&self) -> Seq<char> {
        self.display_name@
    }

    open spec fn id_of(&self) -> Seq<char> {
        self.id@
    }

    open spec fn children_of(&self) -> Seq<Self> {
        self.stats@
    }

    open spec fn cap_ok(n: nat) -> bool {
        true
    }

    fn get_children(&self) -> (r: &Vec<Self>) {
        &self.stats
    }

    fn take_children(self) -> (r: Vec<Self>) {
        self.stats
    }

    /// Create an Affinity from a raw line of the file; the raw input is
    /// normalized to become the affinity's identifier. An affinity group
    /// accepts any number of members.
    fn from_line(raw_line: &str, stats: Vec<Self>) -> (r: Result<Self, TreeError>) {
        let trimmed = trim(raw_line);
        Ok(Affinity {
            id: normalize_str(trimmed),
            display_name: trimmed.to_owned(),
            stats,
        })
    }
}

/// Error of a roll-time lookup: a configured name that the loaded data
/// does not know.
#[derive(Debug, Clone, PartialEq, Eq)]
pub enum LookupError {
    /// An affinity name that the affinity forest does not hold.
    AffinityNotFound(String),
    /// A stat name that the player's experience map does not hold.
    StatNotFound(String),
}

/// Position of the first top-level affinity called `name`, or `-1`.
pub open spec fn affinity_index(list: Seq<Affinity>, name: Seq<char>) -> int
    decreases list.len(),
{
    if list.len() == 0 {
        -1
    } else if list[0].display_name@ == name {
        0
    } else {
        let r = affinity_index(list.drop_first(), name);
        if r < 0 {
            -1
        } else {
            1 + r
        }
    }
}

pub proof fn lemma_affinity_index_at(list: Seq<Affinity>, name: Seq<char>, i: int)
    requires
        0 <= i <= list.len(),
        forall|k: int| 0 <= k < i ==> (#[trigger] list[k].display_name)@ != name,
        i == list.len() || list[i].display_name@ == name,
    ensures
        affinity_index(list, name) == if i == list.len() {
            -1int
        } else {
            i
        },
    decreases i,
{
    if list.len() == 0 {
    } else if i == 0 {
    } else {
        assert(list[0].display_name@ != name);
        assert(list.drop_first() =~= list.skip(1));
        lemma_affinity_index_at(list.skip(1), name, i - 1);
    }
}

/// Whether the affinity grants its bonus for the stat called `stat`: a
/// lone affinity covers the stat of its own name, a group covers the
/// stats named by its members.
pub open spec fn stat_in_affinity_spec(stat: Seq<char>, aff: Affinity) -> bool {
    if aff.stats@.len() == 0 {
        aff.display_name@ == stat
    } else {
        exists|k: int| 0 <= k < aff.stats@.len() && (#[trigger] aff.stats@[k].display_name)@ == stat
    }
}

/// Look `affinity_name` up among the top-level affinities and test
/// whether it covers `stat`; fails exactly when the name is unknown.
pub fn is_stat_in_affinity(stat: &str, affinity_name: &str, affinity_list: &Vec<Affinity>) -> (r:
    Result<bool, LookupError>)
    ensures
        r is Ok <==> affinity_index(affinity_list@, affinity_name@) >= 0,
        r matches Ok(b) ==> b == stat_in_affinity_spec(
            stat@,
            affinity_list@[affinity_index(affinity_list@, affinity_name@)],
        ),
        r is Err ==> (r matches Err(LookupError::AffinityNotFound(n)) && n@ == affinity_name@),
{
    let n = affinity_list.len();
    let mut i: usize = 0;
    while i < n && !crate::text::str_eq(affinity_list[i].display_name.as_str(), affinity_name)
        invariant
            0 <= i <= n,
            n == affinity_list@.len(),
            forall|k: int|
                0 <= k < i ==> (#[trigger] affinity_list@[k].display_name)@ != affinity_name@,
        decreases n - i,
    {
        i = i + 1;
    }
    proof {
        lemma_affinity_index_at(affinity_list@, affinity_name@, i as int);
    }
    if i >= n {
        return Err(LookupError::AffinityNotFound(string_err_name(affinity_name)));
    }
    let affinity = &affinity_list[i];
    let m = affinity.stats.len();
    if m == 0 {
        Ok(crate::text::str_eq(affinity.display_name.as_str(), stat))
    } else {
        let mut k: usize = 0;
        while k < m
            invariant
                0 <= k <= m,
                i < affinity_list@.len(),
                affinity_index(affinity_list@, affinity_name@) == i as int,
                m == affinity.stats@.len(),
                m > 0,
                affinity == affinity_list@[i as int],
                forall|q: int| 0 <= q < k ==> (#[trigger] affinity.stats@[q].display_name)@ != stat@,
            decreases m - k,
        {
            if crate::text::str_eq(affinity.stats[k].display_name.as_str(), stat) {
                return Ok(true);
            }
            k = k + 1;
        }
        Ok(false)
    }
}

/// A copy of a name for an error report.
fn string_err_name(name: &str) -> (r: String)
    ensures
        r@ == name@,
{
    name.to_owned()
}

/// The result of walking a player's declared affinity names in order:
/// `None` when a name fails to resolve before any bonus is found,
/// otherwise whether some resolved name covers the stat.
pub open spec fn membership(names: Seq<String>, stat: Seq<char>, list: Seq<Affinity>) -> Option<
    bool,
>
    decreases names.len(),
{
    if names.len() == 0 {
        Some(false)
    } else {
        let idx = affinity_index(list, names[0]@);
        if idx < 0 {
            None
        } else if stat_in_affinity_spec(stat, list[idx]) {
            Some(true)
        } else {
            membership(names.drop_first(), stat, list)
        }
    }
}

/// The first declared name that does not resolve, when one exists before
/// a bonus is found.
pub open spec fn first_unresolved(names: Seq<String>, stat: Seq<char>, list: Seq<Affinity>) -> Seq<
    char,
>
    decreases names.len(),
{
    if names.len() == 0 {
        Seq::empty()
    } else {
        let idx = affinity_index(list, names[0]@);
        if idx < 0 {
            names[0]@
        } else {
            first_unresolved(names.drop_first(), stat, list)
        }
    }
}

#[derive(Debug, Clone, PartialEq, Eq)]
pub struct Affinities {
    /// The major affinities (the larger experience bonus)
    pub major: Vec<String>,
    /// The minor affinities (the smaller experience bonus)
    pub minor: Vec<String>,
}

impl Affinities {
    /// Whether some major affinity of the player covers `stat`; fails
    /// when a declared name is unknown before a bonus is found.
    pub fn is_major(&self, stat: &str, affinity_list: &Vec<Affinity>) -> (r: Result<
        bool,
        LookupError,
    >)
        ensures
            r is Ok <==> membership(self.major@, stat@, affinity_list@) is Some,
            r matches Ok(b) ==> Some(b) == membership(self.major@, stat@, affinity_list@),
            r is Err ==> (r matches Err(LookupError::AffinityNotFound(n)) && n@
                == first_unresolved(self.major@, stat@, affinity_list@)),
    {
        walk_membership(&self.major, stat, affinity_list)
    }

    /// Whether some minor affinity of the player covers `stat`; fails
    /// when a declared name is unknown before a bonus is found.
    pub fn is_minor(&self, stat: &str, affinity_list: &Vec<Affinity>) -> (r: Result<
        bool,
        LookupError,
    >)
        ensures
            r is Ok <==> membership(self.minor@, stat@, affinity_list@) is Some,
            r matches Ok(b) ==> Some(b) == membership(self.minor@, stat@, affinity_list@),
            r is Err ==> (r matches Err(LookupError::AffinityNotFound(n)) && n@
                == first_unresolved(self.minor@, stat@, affinity_list@)),
    {
        walk_membership(&self.minor, stat, affinity_list)
    }
}

/// Walk declared affinity names in order, as [`membership`] describes.
fn walk_membership(names: &Vec<String>, stat: &str, affinity_list: &Vec<Affinity>) -> (r: Result<
    bool,
    LookupError,
>)
    ensures
        r is Ok <==> membership(names@, stat@, affinity_list@) is Some,
        r matches Ok(b) ==> Some(b) == membership(names@, stat@, affinity_list@),
        r is Err ==> (r matches Err(LookupError::AffinityNotFound(n)) && n@ == first_unresolved(
            names@,
            stat@,
            affinity_list@,
        )),
{
    let n = names.len();
    let mut i: usize = 0;
    proof {
        assert(names@.skip(0) =~= names@);
    }
    while i < n
        invariant
            0 <= i <= n,
            n == names@.len(),
            membership(names@, stat@, affinity_list@) == membership(
                names@.skip(i as int),
                stat@,
                affinity_list@,
            ),
            first_unresolved(names@, stat@, affinity_list@) == first_unresolved(
                names@.skip(i as int),
                stat@,
                affinity_list@,
            ),
        decreases n - i,
    {
        let ghost rem = names@.skip(i as int);
        proof {
            assert(rem[0] == names@[i as int]);
            assert(rem.drop_first() =~= names@.skip(i + 1));
        }
        match is_stat_in_affinity(stat, names[i].as_str(), affinity_list) {
            Err(e) => {
                return Err(e);
            },
            Ok(true) => {
                return Ok(true);
            },
            Ok(false) => {},
        }
        i = i + 1;
    }
    proof {
        assert(names@.skip(n as int) =~= Seq::<String>::empty());
    }
    Ok(false)
}

} // verus!
