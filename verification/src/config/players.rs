//! A player record: identity, per-stat experience, affinity memberships,
//! talents and flat modifiers, with the experience-update step.
use vstd::prelude::*;

use crate::config::affinity::{
    Affinities, Affinity, LookupError, first_unresolved, membership,
};

verus! {

/// Position of the first entry named `name` in an association list, or
/// `-1` when there is none.
pub open spec fn entry_index(entries: Seq<(String, i32)>, name: Seq<char>) -> int
    decreases entries.len(),
{
    if entries.len() == 0 {
        -1
    } else if entries[0].0@ == name {
        0
    } else {
        let r = entry_index(entries.drop_first(), name);
        if r < 0 {
            -1
        } else {
            1 + r
        }
    }
}

proof fn lemma_entry_index_at(entries: Seq<(String, i32)>, name: Seq<char>, i: int)
    requires
        0 <= i <= entries.len(),
        forall|k: int| 0 <= k < i ==> (#[trigger] entries[k].0)@ != name,
        i == entries.len() || entries[i].0@ == name,
    ensures
        entry_index(entries, name) == if i == entries.len() {
            -1int
        } else {
            i
        },
    decreases i,
{
    if entries.len() == 0 {
    } else if i == 0 {
    } else {
        assert(entries[0].0@ != name);
        assert(entries.drop_first() =~= entries.skip(1));
        lemma_entry_index_at(entries.skip(1), name, i - 1);
    }
}

/// An entry index is either `-1` or a position in the list.
pub proof fn lemma_entry_index_bounds(entries: Seq<(String, i32)>, name: Seq<char>)
    ensures
        -1 <= entry_index(entries, name) < entries.len(),
    decreases entries.len(),
{
    if entries.len() > 0 && entries[0].0@ != name {
        lemma_entry_index_bounds(entries.drop_first(), name);
    }
}

/// Two association lists with pointwise equal names index alike.
pub proof fn lemma_entry_index_same_names(
    a: Seq<(String, i32)>,
    b: Seq<(String, i32)>,
    name: Seq<char>,
)
    requires
        a.len() == b.len(),
        forall|k: int| 0 <= k < a.len() ==> (#[trigger] a[k].0)@ == b[k].0@,
    ensures
        entry_index(a, name) == entry_index(b, name),
    decreases a.len(),
{
    if a.len() > 0 {
        assert(a[0].0@ == b[0].0@);
        let at = a.drop_first();
        let bt = b.drop_first();
        assert forall|k: int| 0 <= k < at.len() implies (#[trigger] at[k].0)@ == bt[k].0@ by {
            assert(at[k] == a[k + 1]);
            assert(bt[k] == b[k + 1]);
        }
        lemma_entry_index_same_names(at, bt, name);
    }
}

/// Position of the first name equal to `name` in a name list, or `-1`.
pub open spec fn name_index(names: Seq<String>, name: Seq<char>) -> int
    decreases names.len(),
{
    if names.len() == 0 {
        -1
    } else if names[0]@ == name {
        0
    } else {
        let r = name_index(names.drop_first(), name);
        if r < 0 {
            -1
        } else {
            1 + r
        }
    }
}

proof fn lemma_name_index_at(names: Seq<String>, name: Seq<char>, i: int)
    requires
        0 <= i <= names.len(),
        forall|k: int| 0 <= k < i ==> (#[trigger] names[k])@ != name,
        i == names.len() || names[i]@ == name,
    ensures
        name_index(names, name) == if i == names.len() {
            -1int
        } else {
            i
        },
    decreases i,
{
    if names.len() == 0 {
    } else if i == 0 {
    } else {
        assert(names[0]@ != name);
        assert(names.drop_first() =~= names.skip(1));
        lemma_name_index_at(names.skip(1), name, i - 1);
    }
}

/// Describe a player
#[derive(Debug, Clone, PartialEq, Eq)]
pub struct Player {
    /// The location of the durable record this player was loaded from
    pub path: String,
    /// The name of the player in the game
    pub name: String,
    /// The external identity of the player
    pub discord_name: String,
    /// The stats of the player along with the experience for each of them
    pub stats: Vec<(String, i32)>,
    /// The affinities of the player
    pub affinities: Affinities,
    /// The talents of the player (a learning-speed bonus)
    pub talents: Vec<String>,
    /// The permanent bonus and malus of the player
    pub modifiers: Vec<(String, i32)>,
}

impl Player {
    /// The experience recorded for the stat called `name`, if any.
    pub open spec fn experience_of(&self, name: Seq<char>) -> Option<int> {
        let idx = entry_index(self.stats@, name);
        if idx < 0 {
            None
        } else {
            Some(self.stats@[idx].1 as int)
        }
    }

    /// The flat modifier recorded for the stat called `name`, absent
    /// entries counting zero.
    pub open spec fn modifier_of(&self, name: Seq<char>) -> int {
        let idx = entry_index(self.modifiers@, name);
        if idx < 0 {
            0
        } else {
            self.modifiers@[idx].1 as int
        }
    }

    /// Whether the stat called `name` is a declared talent.
    pub open spec fn talent_spec(&self, name: Seq<char>) -> bool {
        name_index(self.talents@, name) >= 0
    }

    /// Increase the experience of the player in the given stat by the
    /// given amount; a stat the player does not track is left untouched.
    pub fn increase_experience(&mut self, exp_to_add: i32, stat_name: &str)
        requires
            entry_index(old(self).stats@, stat_name@) >= 0 ==> {
                let idx = entry_index(old(self).stats@, stat_name@);
                i32::MIN <= old(self).stats@[idx].1 + exp_to_add <= i32::MAX
            },
        ensures
            entry_index(old(self).stats@, stat_name@) < 0 ==> *final(self) == *old(self),
            entry_index(old(self).stats@, stat_name@) >= 0 ==> {
                let idx = entry_index(old(self).stats@, stat_name@);
                &&& final(self).stats@ == old(self).stats@.update(
                    idx,
                    (old(self).stats@[idx].0, (old(self).stats@[idx].1 + exp_to_add) as i32),
                )
                &&& final(self).path == old(self).path
                &&& final(self).name == old(self).name
                &&& final(self).discord_name == old(self).discord_name
                &&& final(self).affinities == old(self).affinities
                &&& final(self).talents == old(self).talents
                &&& final(self).modifiers == old(self).modifiers
            },
    {
        let n = self.stats.len();
        let mut i: usize = 0;
        while i < n && !crate::text::str_eq(self.stats[i].0.as_str(), stat_name)
            invariant
                0 <= i <= n,
                n == self.stats@.len(),
                self == old(self),
                forall|k: int| 0 <= k < i ==> (#[trigger] self.stats@[k].0)@ != stat_name@,
            decreases n - i,
        {
            i = i + 1;
        }
        proof {
            lemma_entry_index_at(self.stats@, stat_name@, i as int);
        }
        if i < n {
            let entry_name = self.stats[i].0.clone();
            let current = self.stats[i].1;
            self.stats[i] = (entry_name, current + exp_to_add);
        }
    }

    /// Is the provided stat a talent of this player?
    pub fn is_talent(&self, stat: &str) -> (r: bool)
        ensures
            r == self.talent_spec(stat@),
    {
        let n = self.talents.len();
        let mut i: usize = 0;
        while i < n
            invariant
                0 <= i <= n,
                n == self.talents@.len(),
                forall|k: int| 0 <= k < i ==> (#[trigger] self.talents@[k])@ != stat@,
            decreases n - i,
        {
            if crate::text::str_eq(self.talents[i].as_str(), stat) {
                proof {
                    lemma_name_index_at(self.talents@, stat@, i as int);
                }
                return true;
            }
            i = i + 1;
        }
        proof {
            lemma_name_index_at(self.talents@, stat@, n as int);
        }
        false
    }

    /// Is the provided stat covered by a major affinity of this player?
    pub fn is_major_affinity(&self, stat: &str, affinity_list: &Vec<Affinity>) -> (r: Result<
        bool,
        LookupError,
    >)
        ensures
            r is Ok <==> membership(self.affinities.major@, stat@, affinity_list@) is Some,
            r matches Ok(b) ==> Some(b) == membership(
                self.affinities.major@,
                stat@,
                affinity_list@,
            ),
            r is Err ==> (r matches Err(LookupError::AffinityNotFound(n)) && n@
                == first_unresolved(self.affinities.major@, stat@, affinity_list@)),
    {
        self.affinities.is_major(stat, affinity_list)
    }

    /// Is the provided stat covered by a minor affinity of this player?
    pub fn is_minor_affinity(&self, stat: &str, affinity_list: &Vec<Affinity>) -> (r: Result<
        bool,
        LookupError,
    >)
        ensures
            r is Ok <==> membership(self.affinities.minor@, stat@, affinity_list@) is Some,
            r matches Ok(b) ==> Some(b) == membership(
                self.affinities.minor@,
                stat@,
                affinity_list@,
            ),
            r is Err ==> (r matches Err(LookupError::AffinityNotFound(n)) && n@
                == first_unresolved(self.affinities.minor@, stat@, affinity_list@)),
    {
        self.affinities.is_minor(stat, affinity_list)
    }

    /// Get the bonus / malus for this stat
    pub fn get_modifier(&self, stat: &str) -> (r: i32)
        ensures
            r == self.modifier_of(stat@),
    {
        let n = self.modifiers.len();
        let mut i: usize = 0;
        while i < n
            invariant
                0 <= i <= n,
                n == self.modifiers@.len(),
                forall|k: int| 0 <= k < i ==> (#[trigger] self.modifiers@[k].0)@ != stat@,
            decreases n - i,
        {
            if crate::text::str_eq(self.modifiers[i].0.as_str(), stat) {
                proof {
                    lemma_entry_index_at(self.modifiers@, stat@, i as int);
                }
                return self.modifiers[i].1;
            }
            i = i + 1;
        }
        proof {
            lemma_entry_index_at(self.modifiers@, stat@, n as int);
        }
        0
    }

    /// The experience recorded for this stat, if the player tracks it.
    pub fn get_experience(&self, stat: &str) -> (r: Option<i32>)
        ensures
            r is Some <==> entry_index(self.stats@, stat@) >= 0,
            r matches Some(e) ==> Some(e as int) == self.experience_of(stat@),
    {
        let n = self.stats.len();
        let mut i: usize = 0;
        while i < n
            invariant
                0 <= i <= n,
                n == self.stats@.len(),
                forall|k: int| 0 <= k < i ==> (#[trigger] self.stats@[k].0)@ != stat@,
            decreases n - i,
        {
            if crate::text::str_eq(self.stats[i].0.as_str(), stat) {
                proof {
                    lemma_entry_index_at(self.stats@, stat@, i as int);
                }
                return Some(self.stats[i].1);
            }
            i = i + 1;
        }
        proof {
            lemma_entry_index_at(self.stats@, stat@, n as int);
        }
        None
    }
}

} // verus!
