pub mod affinity;
pub mod parser;
pub mod players;
pub mod stat;

use vstd::prelude::*;

verus! {

/// The probability law of a roll. Fractional configuration values are
/// carried in thousandths so the core works on plain integers; the glue
/// that reads the configuration file converts.
#[derive(Debug, Clone, PartialEq, Eq)]
pub enum StatisticLaw {
    /// Uniform over the whole roll range.
    Uniform,
    /// Normal with the given mean and standard deviation, both in
    /// thousandths, the sample clamped into the roll range.
    Normal(i64, u64),
}

/// Corresponds to the customizable config file that can be modified by
/// the user; fractional values are carried in thousandths.
#[derive(Debug, Clone, PartialEq, Eq)]
pub struct Config {
    pub game_master_discord_name: String,
    pub experience_earned_after_success: i32,
    pub experience_earned_after_failure: i32,
    /// The learning constant, in thousandths: the baseline denominator
    /// of the mastery curve.
    pub learning_constant_milli: u64,
    /// How much a talent shrinks the learning constant, in thousandths.
    pub talent_increase_permille: u32,
    /// How much a major affinity shrinks the learning constant, in
    /// thousandths.
    pub major_affinity_increase_permille: u32,
    /// How much a minor affinity shrinks the learning constant, in
    /// thousandths.
    pub minor_affinity_increase_permille: u32,
    pub roll_command_statistic_law: StatisticLaw,
}

impl Config {
    /// A usable configuration: a positive learning constant and bonus
    /// fractions strictly below one.
    pub open spec fn wf(&self) -> bool {
        &&& self.learning_constant_milli >= 1
        &&& self.talent_increase_permille <= 999
        &&& self.major_affinity_increase_permille <= 999
        &&& self.minor_affinity_increase_permille <= 999
    }

    /// Executable form of [`Config::wf`], for callers outside the core.
    pub fn check_wf(&self) -> (r: bool)
        ensures
            r == self.wf(),
    {
        self.learning_constant_milli >= 1 && self.talent_increase_permille <= 999
            && self.major_affinity_increase_permille <= 999
            && self.minor_affinity_increase_permille <= 999
    }
}

} // verus!
