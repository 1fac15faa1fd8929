//! The decision core of a tabletop-role-play assistant: an
//! indentation-defined hierarchy of attributes is compiled into trees, a
//! selection state machine drills down to a leaf attribute, and a
//! probabilistic check against the player's experience, talents and
//! affinities resolves the roll and updates the experience.
pub mod commands;
pub mod config;
pub mod parser;
pub mod stats;
pub mod text;

use vstd::prelude::*;

use crate::config::Config;
use crate::config::affinity::{Affinity, affinity_index};
use crate::config::players::{Player, entry_index};
use crate::config::stat::Stat;

verus! {

/// Error of the configuration consistency check, run once after all
/// trees and player records are loaded: it names the offending
/// identifier and, where one is involved, the player's file.
#[derive(Debug, Clone, PartialEq, Eq)]
pub enum ConfigError {
    /// An affinity leaf whose identifier matches no stat.
    AffinityStatUnknown { affinity: String },
    /// A player tracks a stat that is no leaf of the stat tree.
    StatNotInTree { stat: String, file: String },
    /// A leaf of the stat tree that a player's record does not track.
    StatMissingForPlayer { stat: String, file: String },
    /// A declared major affinity name that the affinity forest lacks.
    UnknownMajorAffinity { name: String, file: String },
    /// A declared minor affinity name that the affinity forest lacks.
    UnknownMinorAffinity { name: String, file: String },
    /// A declared talent that is no leaf of the stat tree.
    UnknownTalent { name: String, file: String },
}

/// Some node of the forest `v`, from position `i` on, carries the
/// identifier `id`.
pub open spec fn forest_has_id(v: Vec<Stat>, i: int, id: Seq<char>) -> bool
    decreases v, v@.len() - i,
{
    if i < 0 || i >= v@.len() {
        false
    } else {
        ||| v@[i].id@ == id
        ||| forest_has_id(v@[i].sub_stats, 0, id)
        ||| forest_has_id(v, i + 1, id)
    }
}

/// Walk the forest from position `i` for a node carrying `id`.
pub fn forest_contains_id(v: &Vec<Stat>, i: usize, id: &str) -> (r: bool)
    requires
        i <= v@.len(),
    ensures
        r == forest_has_id(*v, i as int, id@),
    decreases *v, v@.len() - i,
{
    if i >= v.len() {
        return false;
    }
    if crate::text::str_eq(v[i].id.as_str(), id) {
        return true;
    }
    if forest_contains_id(&v[i].sub_stats, 0, id) {
        return true;
    }
    forest_contains_id(v, i + 1, id)
}

/// Some leaf of the forest `v`, from position `i` on, is displayed as
/// `name`.
pub open spec fn forest_has_leaf_name(v: Vec<Stat>, i: int, name: Seq<char>) -> bool
    decreases v, v@.len() - i,
{
    if i < 0 || i >= v@.len() {
        false
    } else {
        ||| (if v@[i].sub_stats@.len() == 0 {
            v@[i].display_name@ == name
        } else {
            forest_has_leaf_name(v@[i].sub_stats, 0, name)
        })
        ||| forest_has_leaf_name(v, i + 1, name)
    }
}

/// Walk the forest from position `i` for a leaf displayed as `name`.
pub fn forest_contains_leaf_name(v: &Vec<Stat>, i: usize, name: &str) -> (r: bool)
    requires
        i <= v@.len(),
    ensures
        r == forest_has_leaf_name(*v, i as int, name@),
    decreases *v, v@.len() - i,
{
    if i >= v.len() {
        return false;
    }
    if v[i].sub_stats.len() == 0 {
        if crate::text::str_eq(v[i].display_name.as_str(), name) {
            return true;
        }
    } else {
        if forest_contains_leaf_name(&v[i].sub_stats, 0, name) {
            return true;
        }
    }
    forest_contains_leaf_name(v, i + 1, name)
}

/// Every affinity leaf of the forest, from position `i` on, carries an
/// identifier that some stat carries too.
pub open spec fn affinity_leaves_ok(affs: Vec<Affinity>, i: int, stats: Vec<Stat>) -> bool
    decreases affs, affs@.len() - i,
{
    if i < 0 || i >= affs@.len() {
        true
    } else {
        &&& (if affs@[i].stats@.len() == 0 {
            forest_has_id(stats, 0, affs@[i].id@)
        } else {
            affinity_leaves_ok(affs@[i].stats, 0, stats)
        })
        &&& affinity_leaves_ok(affs, i + 1, stats)
    }
}

/// The display name of the first affinity leaf, from position `i` on,
/// whose identifier no stat carries.
pub open spec fn first_bad_affinity(affs: Vec<Affinity>, i: int, stats: Vec<Stat>) -> Seq<char>
    decreases affs, affs@.len() - i,
{
    if i < 0 || i >= affs@.len() {
        Seq::empty()
    } else if affs@[i].stats@.len() == 0 {
        if !forest_has_id(stats, 0, affs@[i].id@) {
            affs@[i].display_name@
        } else {
            first_bad_affinity(affs, i + 1, stats)
        }
    } else {
        if !affinity_leaves_ok(affs@[i].stats, 0, stats) {
            first_bad_affinity(affs@[i].stats, 0, stats)
        } else {
            first_bad_affinity(affs, i + 1, stats)
        }
    }
}

/// Check every affinity leaf from position `i` on against the stat
/// forest, reporting the first leaf that refers to no stat.
fn check_affinity_forest(affs: &Vec<Affinity>, i: usize, stats: &Vec<Stat>) -> (r: Result<
    (),
    ConfigError,
>)
    requires
        i <= affs@.len(),
    ensures
        r is Ok <==> affinity_leaves_ok(*affs, i as int, *stats),
        r is Err ==> (r matches Err(ConfigError::AffinityStatUnknown { affinity }) && affinity@
            == first_bad_affinity(*affs, i as int, *stats)),
    decreases *affs, affs@.len() - i,
{
    if i >= affs.len() {
        return Ok(());
    }
    let a = &affs[i];
    if a.stats.len() == 0 {
        if !forest_contains_id(stats, 0, a.id.as_str()) {
            return Err(ConfigError::AffinityStatUnknown { affinity: a.display_name.clone() });
        }
    } else {
        match check_affinity_forest(&a.stats, 0, stats) {
            Ok(()) => {},
            Err(e) => {
                return Err(e);
            },
        }
    }
    check_affinity_forest(affs, i + 1, stats)
}

/// Every stat the record tracks is a leaf of the stat tree.
pub open spec fn entries_are_leaves(entries: Seq<(String, i32)>, stats: Vec<Stat>) -> bool
    decreases entries.len(),
{
    if entries.len() == 0 {
        true
    } else {
        forest_has_leaf_name(stats, 0, entries[0].0@) && entries_are_leaves(
            entries.drop_first(),
            stats,
        )
    }
}

/// The first tracked stat that is no leaf of the stat tree.
pub open spec fn first_extra_entry(entries: Seq<(String, i32)>, stats: Vec<Stat>) -> Seq<char>
    decreases entries.len(),
{
    if entries.len() == 0 {
        Seq::empty()
    } else if !forest_has_leaf_name(stats, 0, entries[0].0@) {
        entries[0].0@
    } else {
        first_extra_entry(entries.drop_first(), stats)
    }
}

/// Every leaf of the forest, from position `i` on, has an entry in the
/// record.
pub open spec fn leaves_tracked(stats: Vec<Stat>, i: int, entries: Seq<(String, i32)>) -> bool
    decreases stats, stats@.len() - i,
{
    if i < 0 || i >= stats@.len() {
        true
    } else {
        &&& (if stats@[i].sub_stats@.len() == 0 {
            entry_index(entries, stats@[i].display_name@) >= 0
        } else {
            leaves_tracked(stats@[i].sub_stats, 0, entries)
        })
        &&& leaves_tracked(stats, i + 1, entries)
    }
}

/// The display name of the first leaf, from position `i` on, that the
/// record does not track.
pub open spec fn first_untracked_leaf(stats: Vec<Stat>, i: int, entries: Seq<(String, i32)>) -> Seq<
    char,
>
    decreases stats, stats@.len() - i,
{
    if i < 0 || i >= stats@.len() {
        Seq::empty()
    } else if stats@[i].sub_stats@.len() == 0 {
        if entry_index(entries, stats@[i].display_name@) < 0 {
            stats@[i].display_name@
        } else {
            first_untracked_leaf(stats, i + 1, entries)
        }
    } else {
        if !leaves_tracked(stats@[i].sub_stats, 0, entries) {
            first_untracked_leaf(stats@[i].sub_stats, 0, entries)
        } else {
            first_untracked_leaf(stats, i + 1, entries)
        }
    }
}

/// Every name of the list resolves to a top-level affinity.
pub open spec fn names_in_affinities(names: Seq<String>, affs: Vec<Affinity>) -> bool
    decreases names.len(),
{
    if names.len() == 0 {
        true
    } else {
        affinity_index(affs@, names[0]@) >= 0 && names_in_affinities(names.drop_first(), affs)
    }
}

/// The first name of the list that no top-level affinity carries.
pub open spec fn first_unknown_affinity_name(names: Seq<String>, affs: Vec<Affinity>) -> Seq<char>
    decreases names.len(),
{
    if names.len() == 0 {
        Seq::empty()
    } else if affinity_index(affs@, names[0]@) < 0 {
        names[0]@
    } else {
        first_unknown_affinity_name(names.drop_first(), affs)
    }
}

/// Every name of the list is a leaf of the stat tree.
pub open spec fn names_are_leaves(names: Seq<String>, stats: Vec<Stat>) -> bool
    decreases names.len(),
{
    if names.len() == 0 {
        true
    } else {
        forest_has_leaf_name(stats, 0, names[0]@) && names_are_leaves(names.drop_first(), stats)
    }
}

/// The first name of the list that is no leaf of the stat tree.
pub open spec fn first_non_leaf_name(names: Seq<String>, stats: Vec<Stat>) -> Seq<char>
    decreases names.len(),
{
    if names.len() == 0 {
        Seq::empty()
    } else if !forest_has_leaf_name(stats, 0, names[0]@) {
        names[0]@
    } else {
        first_non_leaf_name(names.drop_first(), stats)
    }
}

/// One player record agrees with the trees: it tracks exactly the stat
/// leaves, and every declared affinity and talent name exists.
pub open spec fn player_ok(p: Player, stats: Vec<Stat>, affs: Vec<Affinity>) -> bool {
    &&& entries_are_leaves(p.stats@, stats)
    &&& leaves_tracked(stats, 0, p.stats@)
    &&& names_in_affinities(p.affinities.major@, affs)
    &&& names_in_affinities(p.affinities.minor@, affs)
    &&& names_are_leaves(p.talents@, stats)
}

/// What the check reports for one player: the first violation, in the
/// order the checks run.
pub open spec fn player_error_matches(
    r: Result<(), ConfigError>,
    p: Player,
    stats: Vec<Stat>,
    affs: Vec<Affinity>,
) -> bool {
    if !entries_are_leaves(p.stats@, stats) {
        r matches Err(ConfigError::StatNotInTree { stat, file }) && stat@ == first_extra_entry(
            p.stats@,
            stats,
        ) && file@ == p.path@
    } else if !leaves_tracked(stats, 0, p.stats@) {
        r matches Err(ConfigError::StatMissingForPlayer { stat, file }) && stat@
            == first_untracked_leaf(stats, 0, p.stats@) && file@ == p.path@
    } else if !names_in_affinities(p.affinities.major@, affs) {
        r matches Err(ConfigError::UnknownMajorAffinity { name, file }) && name@
            == first_unknown_affinity_name(p.affinities.major@, affs) && file@ == p.path@
    } else if !names_in_affinities(p.affinities.minor@, affs) {
        r matches Err(ConfigError::UnknownMinorAffinity { name, file }) && name@
            == first_unknown_affinity_name(p.affinities.minor@, affs) && file@ == p.path@
    } else if !names_are_leaves(p.talents@, stats) {
        r matches Err(ConfigError::UnknownTalent { name, file }) && name@ == first_non_leaf_name(
            p.talents@,
            stats,
        ) && file@ == p.path@
    } else {
        r is Ok
    }
}

/// Check every leaf of the stat forest, from position `i` on, against a
/// record's entries, reporting the first untracked leaf.
fn check_leaves_tracked(stats: &Vec<Stat>, i: usize, p: &Player) -> (r: Result<(), ConfigError>)
    requires
        i <= stats@.len(),
    ensures
        r is Ok <==> leaves_tracked(*stats, i as int, p.stats@),
        r is Err ==> (r matches Err(ConfigError::StatMissingForPlayer { stat, file }) && stat@
            == first_untracked_leaf(*stats, i as int, p.stats@) && file@ == p.path@),
    decreases *stats, stats@.len() - i,
{
    if i >= stats.len() {
        return Ok(());
    }
    let s = &stats[i];
    if s.sub_stats.len() == 0 {
        if p.get_experience(s.display_name.as_str()).is_none() {
            return Err(ConfigError::StatMissingForPlayer {
                stat: s.display_name.clone(),
                file: p.path.clone(),
            });
        }
    } else {
        match check_leaves_tracked(&s.sub_stats, 0, p) {
            Ok(()) => {},
            Err(e) => {
                return Err(e);
            },
        }
    }
    check_leaves_tracked(stats, i + 1, p)
}

/// Check one player record against the trees, in the order: tracked
/// stats exist, all leaves tracked, major names, minor names, talents.
fn check_player(p: &Player, stats: &Vec<Stat>, affinities: &Vec<Affinity>) -> (r: Result<
    (),
    ConfigError,
>)
    ensures
        r is Ok <==> player_ok(*p, *stats, *affinities),
        player_error_matches(r, *p, *stats, *affinities),
{
    let n = p.stats.len();
    let mut i: usize = 0;
    proof {
        assert(p.stats@.skip(0) =~= p.stats@);
    }
    while i < n
        invariant
            0 <= i <= n,
            n == p.stats@.len(),
            entries_are_leaves(p.stats@, *stats) == entries_are_leaves(
                p.stats@.skip(i as int),
                *stats,
            ),
            first_extra_entry(p.stats@, *stats) == first_extra_entry(
                p.stats@.skip(i as int),
                *stats,
            ),
        decreases n - i,
    {
        let ghost rem = p.stats@.skip(i as int);
        proof {
            assert(rem[0] == p.stats@[i as int]);
            assert(rem.drop_first() =~= p.stats@.skip(i + 1));
        }
        if !forest_contains_leaf_name(stats, 0, p.stats[i].0.as_str()) {
            return Err(ConfigError::StatNotInTree {
                stat: p.stats[i].0.clone(),
                file: p.path.clone(),
            });
        }
        i = i + 1;
    }
    proof {
        assert(p.stats@.skip(n as int) =~= Seq::<(String, i32)>::empty());
    }
    match check_leaves_tracked(stats, 0, p) {
        Ok(()) => {},
        Err(e) => {
            return Err(e);
        },
    }
    match check_affinity_names(&p.affinities.major, affinities) {
        Some(name) => {
            return Err(ConfigError::UnknownMajorAffinity { name, file: p.path.clone() });
        },
        None => {},
    }
    match check_affinity_names(&p.affinities.minor, affinities) {
        Some(name) => {
            return Err(ConfigError::UnknownMinorAffinity { name, file: p.path.clone() });
        },
        None => {},
    }
    let tn = p.talents.len();
    let mut t: usize = 0;
    proof {
        assert(p.talents@.skip(0) =~= p.talents@);
    }
    while t < tn
        invariant
            0 <= t <= tn,
            tn == p.talents@.len(),
            entries_are_leaves(p.stats@, *stats),
            leaves_tracked(*stats, 0, p.stats@),
            names_in_affinities(p.affinities.major@, *affinities),
            names_in_affinities(p.affinities.minor@, *affinities),
            names_are_leaves(p.talents@, *stats) == names_are_leaves(
                p.talents@.skip(t as int),
                *stats,
            ),
            first_non_leaf_name(p.talents@, *stats) == first_non_leaf_name(
                p.talents@.skip(t as int),
                *stats,
            ),
        decreases tn - t,
    {
        let ghost rem = p.talents@.skip(t as int);
        proof {
            assert(rem[0] == p.talents@[t as int]);
            assert(rem.drop_first() =~= p.talents@.skip(t + 1));
        }
        if !forest_contains_leaf_name(stats, 0, p.talents[t].as_str()) {
            return Err(ConfigError::UnknownTalent {
                name: p.talents[t].clone(),
                file: p.path.clone(),
            });
        }
        t = t + 1;
    }
    proof {
        assert(p.talents@.skip(tn as int) =~= Seq::<String>::empty());
    }
    Ok(())
}

/// Walk a list of declared affinity names; give back the first that no
/// top-level affinity carries, if any.
fn check_affinity_names(names: &Vec<String>, affinities: &Vec<Affinity>) -> (r: Option<String>)
    ensures
        r is None <==> names_in_affinities(names@, *affinities),
        r matches Some(name) ==> name@ == first_unknown_affinity_name(names@, *affinities),
{
    let n = names.len();
    let mut i: usize = 0;
    proof {
        assert(names@.skip(0) =~= names@);
    }
    while i < n
        invariant
            0 <= i <= n,
            n == names@.len(),
            names_in_affinities(names@, *affinities) == names_in_affinities(
                names@.skip(i as int),
                *affinities,
            ),
            first_unknown_affinity_name(names@, *affinities) == first_unknown_affinity_name(
                names@.skip(i as int),
                *affinities,
            ),
        decreases n - i,
    {
        let ghost rem = names@.skip(i as int);
        proof {
            assert(rem[0] == names@[i as int]);
            assert(rem.drop_first() =~= names@.skip(i + 1));
        }
        if !affinity_known(names[i].as_str(), affinities) {
            return Some(names[i].clone());
        }
        i = i + 1;
    }
    proof {
        assert(names@.skip(n as int) =~= Seq::<String>::empty());
    }
    None
}

/// Whether some top-level affinity is displayed as `name`.
fn affinity_known(name: &str, affinities: &Vec<Affinity>) -> (r: bool)
    ensures
        r == (affinity_index(affinities@, name@) >= 0),
{
    let n = affinities.len();
    let mut i: usize = 0;
    while i < n
        invariant
            0 <= i <= n,
            n == affinities@.len(),
            forall|k: int| 0 <= k < i ==> (#[trigger] affinities@[k].display_name)@ != name@,
        decreases n - i,
    {
        if crate::text::str_eq(affinities[i].display_name.as_str(), name) {
            proof {
                crate::config::affinity::lemma_affinity_index_at(affinities@, name@, i as int);
            }
            return true;
        }
        i = i + 1;
    }
    proof {
        crate::config::affinity::lemma_affinity_index_at(affinities@, name@, n as int);
    }
    false
}

/// The whole configuration agrees with itself: every affinity leaf
/// names a stat, and every player record agrees with the trees.
pub open spec fn config_consistent(
    stats: Vec<Stat>,
    affs: Vec<Affinity>,
    players: Seq<Player>,
) -> bool {
    &&& affinity_leaves_ok(affs, 0, stats)
    &&& forall|k: int| 0 <= k < players.len() ==> player_ok(#[trigger] players[k], stats, affs)
}

/// Check the loaded configuration for coherence: affinity leaves first,
/// then each player record in order. The first violation found is
/// reported with the offending identifier and the player's file; the
/// process must not start on an error.
pub fn check_validity(stats: &Vec<Stat>, affinities: &Vec<Affinity>, players: &Vec<Player>) -> (r:
    Result<(), ConfigError>)
    ensures
        r is Ok <==> config_consistent(*stats, *affinities, players@),
        !affinity_leaves_ok(*affinities, 0, *stats) ==> (r matches Err(
            ConfigError::AffinityStatUnknown { affinity },
        ) && affinity@ == first_bad_affinity(*affinities, 0, *stats)),
        affinity_leaves_ok(*affinities, 0, *stats) && r is Err ==> exists|i: int|
            0 <= i < players@.len() && (forall|k: int|
                0 <= k < i ==> player_ok(#[trigger] players@[k], *stats, *affinities))
                && !player_ok(players@[i], *stats, *affinities) && player_error_matches(
                r,
                players@[i],
                *stats,
                *affinities,
            ),
{
    match check_affinity_forest(affinities, 0, stats) {
        Ok(()) => {},
        Err(e) => {
            return Err(e);
        },
    }
    let n = players.len();
    let mut i: usize = 0;
    while i < n
        invariant
            0 <= i <= n,
            n == players@.len(),
            affinity_leaves_ok(*affinities, 0, *stats),
            forall|k: int| 0 <= k < i ==> player_ok(#[trigger] players@[k], *stats, *affinities),
        decreases n - i,
    {
        match check_player(&players[i], stats, affinities) {
            Ok(()) => {},
            Err(e) => {
                proof {
                    assert(!player_ok(players@[i as int], *stats, *affinities));
                }
                return Err(e);
            },
        }
        i = i + 1;
    }
    Ok(())
}

/// Position of the first locator whose external identity is `name`.
pub open spec fn locator_index(entries: Seq<(String, String)>, name: Seq<char>) -> int
    decreases entries.len(),
{
    if entries.len() == 0 {
        -1
    } else if entries[0].0@ == name {
        0
    } else {
        let r = locator_index(entries.drop_first(), name);
        if r < 0 {
            -1
        } else {
            1 + r
        }
    }
}

proof fn lemma_locator_index_at(entries: Seq<(String, String)>, name: Seq<char>, i: int)
    requires
        0 <= i <= entries.len(),
        forall|k: int| 0 <= k < i ==> (#[trigger] entries[k].0)@ != name,
        i == entries.len() || entries[i].0@ == name,
    ensures
        locator_index(entries, name) == if i == entries.len() {
            -1int
        } else {
            i
        },
    decreases i,
{
    if entries.len() == 0 {
    } else if i == 0 {
    } else {
        assert(entries[0].0@ != name);
        assert(entries.drop_first() =~= entries.skip(1));
        lemma_locator_index_at(entries.skip(1), name, i - 1);
    }
}

/// Holds the configuration, list of stats, and player locators at all
/// time: built once at startup from the configuration resources, after
/// the consistency check passed.
#[derive(Debug)]
pub struct State {
    /// A global config
    pub config: Config,
    /// The stat tree that will be used to select a stat
    pub stats: Vec<Stat>,
    /// The available affinities groups
    pub affinities: Vec<Affinity>,
    /// The mapping of an external identity to a player record locator
    pub players: Vec<(String, String)>,
}

impl State {
    /// The record locator of the player with the given external
    /// identity, if one is known.
    pub fn player_path(&self, discord_name: &str) -> (r: Option<&String>)
        ensures
            r is Some <==> locator_index(self.players@, discord_name@) >= 0,
            r matches Some(path) ==> path@ == self.players@[locator_index(
                self.players@,
                discord_name@,
            )].1@,
    {
        let n = self.players.len();
        let mut i: usize = 0;
        while i < n
            invariant
                0 <= i <= n,
                n == self.players@.len(),
                forall|k: int| 0 <= k < i ==> (#[trigger] self.players@[k].0)@ != discord_name@,
            decreases n - i,
        {
            if crate::text::str_eq(self.players[i].0.as_str(), discord_name) {
                proof {
                    lemma_locator_index_at(self.players@, discord_name@, i as int);
                }
                return Some(&self.players[i].1);
            }
            i = i + 1;
        }
        proof {
            lemma_locator_index_at(self.players@, discord_name@, n as int);
        }
        None
    }
}

} // verus!
