//! The roll command's core: the interactive descent through the stat
//! tree as a state machine, the roll samplers, and the resolution of a
//! roll against a player's mastery with the experience update.
use vstd::prelude::*;

use rand::Rng;

use crate::commands::utils::{
    effective_coefficient_spec, get_mastery, mastery_value,
};
use crate::config::Config;
use crate::config::affinity::{Affinity, LookupError, first_unresolved, membership};
use crate::config::players::{Player, entry_index};
use crate::config::stat::Stat;

verus! {

/// What the transport hands back for one prompt: the identifier of the
/// clicked choice, or the news that the wait timed out.
#[derive(Debug, PartialEq, Eq)]
pub enum ChoiceEvent {
    /// The user clicked the choice with this identifier.
    Selected(String),
    /// No choice arrived within the wait bound.
    Timeout,
}

/// Where one step of the descent leads.
pub enum StepOutcome<'a> {
    /// A family was chosen: descend into its members and prompt again.
    Descend(&'a Vec<Stat>),
    /// A leaf was chosen: the descent is over.
    Resolved(&'a Stat),
    /// The user aborted; terminal, nothing is persisted.
    Aborted,
    /// The wait timed out; terminal, nothing is persisted.
    TimedOut,
    /// The choice named no current candidate: a desynchronized session,
    /// treated as an abort with the offending identifier reported.
    Invalid(String),
}

/// Position of the first candidate whose identifier is `id`, or `-1`.
pub open spec fn stat_index(list: Seq<Stat>, id: Seq<char>) -> int
    decreases list.len(),
{
    if list.len() == 0 {
        -1
    } else if list[0].id@ == id {
        0
    } else {
        let r = stat_index(list.drop_first(), id);
        if r < 0 {
            -1
        } else {
            1 + r
        }
    }
}

proof fn lemma_stat_index_at(list: Seq<Stat>, id: Seq<char>, i: int)
    requires
        0 <= i <= list.len(),
        forall|k: int| 0 <= k < i ==> (#[trigger] list[k].id)@ != id,
        i == list.len() || list[i].id@ == id,
    ensures
        stat_index(list, id) == if i == list.len() {
            -1int
        } else {
            i
        },
    decreases i,
{
    if list.len() == 0 {
    } else if i == 0 {
    } else {
        assert(list[0].id@ != id);
        assert(list.drop_first() =~= list.skip(1));
        lemma_stat_index_at(list.skip(1), id, i - 1);
    }
}

/// One transition of the selection state machine: from the current
/// candidate set and one event to the next state.
pub fn choose_stat_step<'a>(candidates: &'a Vec<Stat>, event: &ChoiceEvent) -> (r: StepOutcome<'a>)
    ensures
        event is Timeout ==> r is TimedOut,
        event matches ChoiceEvent::Selected(id) ==> {
            if id@ == "abort"@ {
                r is Aborted
            } else {
                let idx = stat_index(candidates@, id@);
                if idx < 0 {
                    r matches StepOutcome::Invalid(n) && n@ == id@
                } else {
                    let chosen = candidates@[idx];
                    if chosen.sub_stats@.len() == 0 {
                        r matches StepOutcome::Resolved(s) && *s == chosen
                    } else {
                        r matches StepOutcome::Descend(v) && v@ == chosen.sub_stats@
                    }
                }
            }
        },
{
    let id = match event {
        ChoiceEvent::Timeout => {
            return StepOutcome::TimedOut;
        },
        ChoiceEvent::Selected(id) => id,
    };
    if crate::text::str_eq(id.as_str(), "abort") {
        return StepOutcome::Aborted;
    }
    let n = candidates.len();
    let mut i: usize = 0;
    while i < n && !crate::text::str_eq(candidates[i].id.as_str(), id.as_str())
        invariant
            0 <= i <= n,
            n == candidates@.len(),
            forall|k: int| 0 <= k < i ==> (#[trigger] candidates@[k].id)@ != id@,
        decreases n - i,
    {
        i = i + 1;
    }
    proof {
        lemma_stat_index_at(candidates@, id@, i as int);
    }
    if i >= n {
        return StepOutcome::Invalid(id.as_str().to_owned());
    }
    let chosen = &candidates[i];
    if chosen.sub_stats.len() == 0 {
        StepOutcome::Resolved(chosen)
    } else {
        StepOutcome::Descend(&chosen.sub_stats)
    }
}

/// How a roll request is handled, decided from whether the requester
/// has a player record and whether they are the game master.
#[derive(Debug, Clone, PartialEq, Eq)]
pub enum RollMode {
    /// No record, no privilege: ask for confirmation, then roll bare.
    ConfirmThenBareRoll,
    /// No record, but the game master: roll bare at once.
    BareRoll,
    /// A record exists: drive the full drill-down session.
    Session,
}

/// Decide how to handle a roll request for the given identity.
pub fn roll_mode(has_player_record: bool, discord_name: &str, config: &Config) -> (r: RollMode)
    ensures
        has_player_record ==> r is Session,
        !has_player_record && discord_name@ == config.game_master_discord_name@ ==> r is BareRoll,
        !has_player_record && discord_name@ != config.game_master_discord_name@
            ==> r is ConfirmThenBareRoll,
{
    if has_player_record {
        RollMode::Session
    } else if crate::text::str_eq(discord_name, config.game_master_discord_name.as_str()) {
        RollMode::BareRoll
    } else {
        RollMode::ConfirmThenBareRoll
    }
}

/// Whether an answer to the yes/no confirmation lets the session go on.
pub fn accepts_proceed(answer: &str) -> (r: bool)
    ensures
        r == (answer@ == "yes"@),
{
    crate::text::str_eq(answer, "yes")
}

/// Where a whole descent ends when the events arrive as given; running
/// out of events stands for a wait that timed out.
pub enum SessionSpecOutcome {
    Resolved(Stat),
    Aborted,
    TimedOut,
    Invalid(Seq<char>),
}

/// The outcome of the descent driven by a given event sequence.
pub open spec fn walk_spec(candidates: Seq<Stat>, events: Seq<ChoiceEvent>) -> SessionSpecOutcome
    decreases events.len(),
{
    if events.len() == 0 {
        SessionSpecOutcome::TimedOut
    } else {
        match events[0] {
            ChoiceEvent::Timeout => SessionSpecOutcome::TimedOut,
            ChoiceEvent::Selected(id) => {
                if id@ == "abort"@ {
                    SessionSpecOutcome::Aborted
                } else {
                    let idx = stat_index(candidates, id@);
                    if idx < 0 {
                        SessionSpecOutcome::Invalid(id@)
                    } else if candidates[idx].sub_stats@.len() == 0 {
                        SessionSpecOutcome::Resolved(candidates[idx])
                    } else {
                        walk_spec(candidates[idx].sub_stats@, events.drop_first())
                    }
                }
            },
        }
    }
}

/// The terminal state of a whole descent.
pub enum SessionOutcome<'a> {
    /// The user drilled down to this leaf stat.
    Resolved(&'a Stat),
    /// The user aborted; nothing is persisted.
    Aborted,
    /// A wait timed out; nothing is persisted.
    TimedOut,
    /// A choice named no candidate of its prompt; nothing is persisted.
    Invalid(String),
}

/// Drive the selection state machine over a queue of events, one event
/// per prompt, until it reaches a terminal state.
pub fn run_session<'a>(stats: &'a Vec<Stat>, events: &Vec<ChoiceEvent>) -> (r: SessionOutcome<'a>)
    ensures
        ({
            match walk_spec(stats@, events@) {
                SessionSpecOutcome::TimedOut => r is TimedOut,
                SessionSpecOutcome::Aborted => r is Aborted,
                SessionSpecOutcome::Resolved(s) => r matches SessionOutcome::Resolved(t) && *t
                    == s,
                SessionSpecOutcome::Invalid(id) => r matches SessionOutcome::Invalid(n) && n@
                    == id,
            }
        }),
{
    let mut current: &'a Vec<Stat> = stats;
    let n = events.len();
    let mut ev: usize = 0;
    proof {
        assert(events@.skip(0) =~= events@);
    }
    while ev < n
        invariant
            0 <= ev <= n,
            n == events@.len(),
            walk_spec(stats@, events@) == walk_spec(current@, events@.skip(ev as int)),
        decreases n - ev,
    {
        let ghost rem = events@.skip(ev as int);
        proof {
            assert(rem[0] == events@[ev as int]);
            assert(rem.drop_first() =~= events@.skip(ev + 1));
        }
        match choose_stat_step(current, &events[ev]) {
            StepOutcome::TimedOut => {
                return SessionOutcome::TimedOut;
            },
            StepOutcome::Aborted => {
                return SessionOutcome::Aborted;
            },
            StepOutcome::Invalid(id) => {
                return SessionOutcome::Invalid(id);
            },
            StepOutcome::Resolved(s) => {
                return SessionOutcome::Resolved(s);
            },
            StepOutcome::Descend(v) => {
                current = v;
            },
        }
        ev = ev + 1;
    }
    SessionOutcome::TimedOut
}

/// Which bonus kinds apply to a rolled stat.
#[derive(Debug, Clone, PartialEq, Eq)]
pub struct StatType {
    pub is_talent: bool,
    pub is_major_affinity: bool,
    pub is_minor_affinity: bool,
}

impl StatType {
    /// Whether any bonus applies at all.
    pub open spec fn is_special_spec(&self) -> bool {
        self.is_talent || self.is_major_affinity || self.is_minor_affinity
    }

    pub fn is_special(&self) -> (r: bool)
        ensures
            r == self.is_special_spec(),
    {
        self.is_talent || self.is_major_affinity || self.is_minor_affinity
    }

    /// The human-readable tag list: the applicable bonus kinds joined
    /// by plus signs.
    pub open spec fn label_spec(&self) -> Seq<char> {
        let t: Seq<char> = if self.is_talent {
            "Talent"@
        } else {
            Seq::empty()
        };
        let m: Seq<char> = if self.is_major_affinity {
            if self.is_talent {
                " + "@ + "Major affinity"@
            } else {
                "Major affinity"@
            }
        } else {
            Seq::empty()
        };
        let n: Seq<char> = if self.is_minor_affinity {
            if self.is_talent || self.is_major_affinity {
                " + "@ + "Minor affinity"@
            } else {
                "Minor affinity"@
            }
        } else {
            Seq::empty()
        };
        t + m + n
    }

    /// Render the tag list.
    pub fn label(&self) -> (r: String)
        ensures
            r@ == self.label_spec(),
    {
        let mut out = String::new();
        if self.is_talent {
            out.append("Talent");
        }
        if self.is_major_affinity {
            if self.is_talent {
                out.append(" + ");
            }
            out.append("Major affinity");
        }
        if self.is_minor_affinity {
            if self.is_talent || self.is_major_affinity {
                out.append(" + ");
            }
            out.append("Minor affinity");
        }
        proof {
            assert(out@ =~= self.label_spec());
        }
        out
    }
}

/// The structured outcome of one roll, handed to the rendering side.
#[derive(Debug, Clone, PartialEq, Eq)]
pub struct RollResult {
    pub stat: Option<String>,
    pub stat_type: StatType,
    pub player_name: String,
    pub roll: i32,
    pub mastery: Option<i32>,
    pub new_mastery: Option<i32>,
    pub modifier: Option<i32>,
    pub successful: Option<bool>,
}

impl RollResult {
    /// A roll resolved against a player's stat, with the full context.
    /// Fails exactly when a declared affinity name of the player cannot
    /// be resolved.
    pub fn with_player(
        stat: &str,
        player: &Player,
        affinities: &Vec<Affinity>,
        roll: i32,
        mastery: i32,
        new_mastery: i32,
        modifier: i32,
        successful: bool,
    ) -> (r: Result<Self, LookupError>)
        ensures
            r is Ok <==> (membership(player.affinities.major@, stat@, affinities@) is Some
                && membership(player.affinities.minor@, stat@, affinities@) is Some),
            r is Err ==> (r matches Err(LookupError::AffinityNotFound(n)) && n@ == (
            if membership(player.affinities.major@, stat@, affinities@) is None {
                first_unresolved(player.affinities.major@, stat@, affinities@)
            } else {
                first_unresolved(player.affinities.minor@, stat@, affinities@)
            })),
            r matches Ok(rr) ==> {
                &&& rr.stat matches Some(s) && s@ == stat@
                &&& rr.stat_type.is_talent == player.talent_spec(stat@)
                &&& Some(rr.stat_type.is_major_affinity) == membership(
                    player.affinities.major@,
                    stat@,
                    affinities@,
                )
                &&& Some(rr.stat_type.is_minor_affinity) == membership(
                    player.affinities.minor@,
                    stat@,
                    affinities@,
                )
                &&& rr.player_name == player.name
                &&& rr.roll == roll
                &&& rr.mastery == Some(mastery)
                &&& rr.new_mastery == Some(new_mastery)
                &&& rr.modifier == Some(modifier)
                &&& rr.successful == Some(successful)
            },
    {
        let is_talent = player.is_talent(stat);
        let is_major_affinity = match player.is_major_affinity(stat, affinities) {
            Ok(b) => b,
            Err(e) => {
                return Err(e);
            },
        };
        let is_minor_affinity = match player.is_minor_affinity(stat, affinities) {
            Ok(b) => b,
            Err(e) => {
                return Err(e);
            },
        };
        Ok(RollResult {
            stat: Some(stat.to_owned()),
            stat_type: StatType { is_talent, is_major_affinity, is_minor_affinity },
            player_name: player.name.clone(),
            roll,
            mastery: Some(mastery),
            new_mastery: Some(new_mastery),
            modifier: Some(modifier),
            successful: Some(successful),
        })
    }

    /// A bare roll for a requester without a bound player record.
    pub fn new(roll: i32, player_name: &str) -> (r: Self)
        ensures
            r.stat is None,
            !r.stat_type.is_talent,
            !r.stat_type.is_major_affinity,
            !r.stat_type.is_minor_affinity,
            r.player_name@ == player_name@,
            r.roll == roll,
            r.mastery is None,
            r.new_mastery is None,
            r.modifier is None,
            r.successful is None,
    {
        RollResult {
            stat: None,
            stat_type: StatType {
                is_talent: false,
                is_major_affinity: false,
                is_minor_affinity: false,
            },
            player_name: player_name.to_owned(),
            roll,
            mastery: None,
            new_mastery: None,
            modifier: None,
            successful: None,
        }
    }

    /// The headline of the rendered outcome.
    pub fn title(&self) -> (r: &'static str)
        ensures
            self.successful matches Some(true) ==> r@ == "SUCCESS"@,
            self.successful matches Some(false) ==> r@ == "FAILURE"@,
            self.successful is None ==> r@ == ""@,
    {
        match self.successful {
            Some(true) => "SUCCESS",
            Some(false) => "FAILURE",
            None => "",
        }
    }

    /// The body text of the rendered outcome: the player in bold, then
    /// the stat in italics and its bonus tags when a stat was rolled.
    pub open spec fn description_spec(&self) -> Seq<char> {
        let head = "**"@ + self.player_name@ + "**"@;
        match self.stat {
            Some(stat) => {
                let with_stat = head + " / *"@ + stat@ + "*"@;
                if self.stat_type.is_special_spec() {
                    with_stat + "\n"@ + self.stat_type.label_spec()
                } else {
                    with_stat
                }
            },
            None => head,
        }
    }

    /// Render the body text.
    pub fn description(&self) -> (r: String)
        ensures
            r@ == self.description_spec(),
    {
        let mut out = String::from_str("**");
        out.append(self.player_name.as_str());
        out.append("**");
        if let Some(stat) = &self.stat {
            out.append(" / *");
            out.append(stat.as_str());
            out.append("*");
            if self.stat_type.is_special() {
                out.append("\n");
                let label = self.stat_type.label();
                out.append(label.as_str());
            }
        }
        proof {
            assert(out@ =~= self.description_spec());
        }
        out
    }

    /// Whether the roll raised the mastery past its old value: the
    /// threshold will be higher for the next rolls.
    pub open spec fn leveled_up_spec(&self) -> bool {
        &&& self.stat is Some
        &&& self.mastery is Some
        &&& self.new_mastery is Some
        &&& self.new_mastery.unwrap() > self.mastery.unwrap()
    }

    pub fn leveled_up(&self) -> (r: bool)
        ensures
            r == self.leveled_up_spec(),
    {
        match (&self.stat, self.mastery, self.new_mastery) {
            (Some(_), Some(t), Some(m)) => m > t,
            _ => false,
        }
    }
}

#[verifier::external_type_specification]
#[verifier::external_body]
pub struct ExStdRng(rand::rngs::StdRng);

/// Relies on rand::SeedableRng::from_entropy: builds a standard
/// generator seeded from the operating system's entropy source; it
/// panics only if that source fails, never on any input.
#[verifier::external_body]
fn rng_from_entropy() -> rand::rngs::StdRng {
    rand::SeedableRng::from_entropy()
}

/// Relies on rand::Rng::gen_range: a sample from an inclusive range
/// lies within that range; it panics only on an empty range, which the
/// precondition excludes. Two calls on equal inputs may differ.
#[verifier::external_body]
fn sample_range(rng: &mut rand::rngs::StdRng, lo: u64, hi: u64) -> (r: u64)
    requires
        lo <= hi,
    ensures
        lo <= r <= hi,
{
    rng.gen_range(lo..=hi)
}

/// One roll under the uniform law: an integer from 1 to 100 inclusive,
/// freshly seeded for each call.
pub fn get_roll_uniform() -> (r: i32)
    ensures
        1 <= r <= 100,
{
    let mut rng = rng_from_entropy();
    let v = sample_range(&mut rng, 1, 100);
    v as i32
}

/// One throw of a die with the given number of faces.
pub fn dice_roll(faces: u32) -> (r: u32)
    requires
        faces >= 1,
    ensures
        1 <= r <= faces,
{
    let mut rng = rng_from_entropy();
    let v = sample_range(&mut rng, 1, faces as u64);
    v as u32
}

/// Clamp an already-truncated sample into the roll range; the normal
/// law feeds its samples through this.
pub fn clamp_roll(sample: i64) -> (r: i32)
    ensures
        r == clamp_roll_spec(sample as int),
{
    if sample < 1 {
        1
    } else if sample > 100 {
        100
    } else {
        sample as i32
    }
}

/// A sample forced into the roll range.
pub open spec fn clamp_roll_spec(sample: int) -> int {
    if sample < 1 {
        1
    } else if sample > 100 {
        100
    } else {
        sample
    }
}

/// All roll-time lookups resolve: the player tracks the stat, and every
/// declared affinity name that has to be inspected is known.
pub open spec fn lookups_resolve(p: Player, stat: Seq<char>, affs: Seq<Affinity>) -> bool {
    &&& p.experience_of(stat) is Some
    &&& membership(p.affinities.major@, stat, affs) is Some
    &&& membership(p.affinities.minor@, stat, affs) is Some
}

/// The effective learning coefficient of `p` for `stat`.
pub open spec fn player_coefficient(p: Player, stat: Seq<char>, config: Config, affs: Seq<
    Affinity,
>) -> int {
    effective_coefficient_spec(
        config.learning_constant_milli as int,
        p.talent_spec(stat),
        membership(p.affinities.major@, stat, affs).unwrap(),
        membership(p.affinities.minor@, stat, affs).unwrap(),
        config.talent_increase_permille as int,
        config.major_affinity_increase_permille as int,
        config.minor_affinity_increase_permille as int,
    )
}

/// The mastery of `p` for `stat` before any flat modifier.
pub open spec fn player_mastery(p: Player, stat: Seq<char>, config: Config, affs: Seq<
    Affinity,
>) -> int {
    mastery_value(p.experience_of(stat).unwrap(), player_coefficient(p, stat, config, affs))
}

/// The success threshold: mastery plus the stat's flat modifier.
pub open spec fn roll_threshold(p: Player, stat: Seq<char>, config: Config, affs: Seq<
    Affinity,
>) -> int {
    player_mastery(p, stat, config, affs) + p.modifier_of(stat)
}

/// Whether a roll passes: it must not exceed the threshold.
pub open spec fn roll_succeeds(
    roll: int,
    p: Player,
    stat: Seq<char>,
    config: Config,
    affs: Seq<Affinity>,
) -> bool {
    roll <= roll_threshold(p, stat, config, affs)
}

/// The experience the roll earns: the configured success or failure
/// delta.
pub open spec fn earned_delta(
    roll: int,
    p: Player,
    stat: Seq<char>,
    config: Config,
    affs: Seq<Affinity>,
) -> int {
    if roll_succeeds(roll, p, stat, config, affs) {
        config.experience_earned_after_success as int
    } else {
        config.experience_earned_after_failure as int
    }
}

/// Resolve a roll against a player's stat: compute the mastery and the
/// threshold, decide success, credit the configured experience delta to
/// the stat, and report the full outcome. Exactly on failure nothing of
/// the player changes; the caller persists the updated record.
pub fn get_roll_result(
    p: &mut Player,
    stat_name: &str,
    roll: i32,
    config: &Config,
    affinities: &Vec<Affinity>,
) -> (r: Result<RollResult, LookupError>)
    requires
        config.wf(),
        entry_index(old(p).stats@, stat_name@) >= 0 ==> ({
            let idx = entry_index(old(p).stats@, stat_name@);
            &&& i32::MIN <= old(p).stats@[idx].1 + config.experience_earned_after_success
                <= i32::MAX
            &&& i32::MIN <= old(p).stats@[idx].1 + config.experience_earned_after_failure
                <= i32::MAX
        }),
    ensures
        r is Ok <==> lookups_resolve(*old(p), stat_name@, affinities@),
        r is Err ==> *final(p) == *old(p),
        r matches Ok(rr) ==> ({
            let stat = stat_name@;
            let earned = earned_delta(roll as int, *old(p), stat, *config, affinities@);
            let idx = entry_index(old(p).stats@, stat);
            let new_exp = old(p).stats@[idx].1 + earned;
            &&& final(p).stats@ == old(p).stats@.update(
                idx,
                (old(p).stats@[idx].0, new_exp as i32),
            )
            &&& final(p).path == old(p).path
            &&& final(p).name == old(p).name
            &&& final(p).discord_name == old(p).discord_name
            &&& final(p).affinities == old(p).affinities
            &&& final(p).talents == old(p).talents
            &&& final(p).modifiers == old(p).modifiers
            &&& rr.stat matches Some(s) && s@ == stat
            &&& rr.stat_type.is_talent == old(p).talent_spec(stat)
            &&& Some(rr.stat_type.is_major_affinity) == membership(
                old(p).affinities.major@,
                stat,
                affinities@,
            )
            &&& Some(rr.stat_type.is_minor_affinity) == membership(
                old(p).affinities.minor@,
                stat,
                affinities@,
            )
            &&& rr.player_name == old(p).name
            &&& rr.roll == roll
            &&& rr.mastery matches Some(m) && m as int == player_mastery(
                *old(p),
                stat,
                *config,
                affinities@,
            )
            &&& rr.new_mastery matches Some(m2) && m2 as int == mastery_value(
                new_exp,
                player_coefficient(*old(p), stat, *config, affinities@),
            )
            &&& rr.modifier matches Some(md) && md as int == old(p).modifier_of(stat)
            &&& rr.successful == Some(
                roll_succeeds(roll as int, *old(p), stat, *config, affinities@),
            )
        }),
{
    let ghost p0 = *p;
    let mastery = match get_mastery(p, stat_name, config, affinities) {
        Ok(m) => m,
        Err(e) => {
            return Err(e);
        },
    };
    let modifier = p.get_modifier(stat_name);
    let threshold: i64 = mastery as i64 + modifier as i64;
    let successful = (roll as i64) <= threshold;
    let experience_earned = if successful {
        config.experience_earned_after_success
    } else {
        config.experience_earned_after_failure
    };
    let ghost idx = entry_index(p0.stats@, stat_name@);
    p.increase_experience(experience_earned, stat_name);
    proof {
        crate::config::players::lemma_entry_index_bounds(p0.stats@, stat_name@);
        assert(p.stats@ == p0.stats@.update(
            idx,
            (p0.stats@[idx].0, (p0.stats@[idx].1 + experience_earned) as i32),
        ));
        assert(p.stats@.len() == p0.stats@.len());
        assert forall|k: int| 0 <= k < p.stats@.len() implies (#[trigger] p.stats@[k].0)@
            == p0.stats@[k].0@ by {
            if k != idx {
                assert(p.stats@[k] == p0.stats@[k]);
            }
        }
        crate::config::players::lemma_entry_index_same_names(p.stats@, p0.stats@, stat_name@);
        assert(p.experience_of(stat_name@) == Some(p0.stats@[idx].1 + experience_earned));
    }
    let new_mastery = match get_mastery(p, stat_name, config, affinities) {
        Ok(m) => m,
        Err(e) => {
            proof {
                assert(false);
            }
            return Err(e);
        },
    };
    RollResult::with_player(
        stat_name,
        p,
        affinities,
        roll,
        mastery,
        new_mastery,
        modifier,
        successful,
    )
}

} // verus!
