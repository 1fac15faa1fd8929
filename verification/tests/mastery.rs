//! The mastery calculator: curve values, monotonicity, stacking, and
//! its lookup failures.
use rp_tool::commands::utils::{compute_mastery, effective_coefficient, get_mastery};
use rp_tool::config::affinity::{Affinities, Affinity, LookupError};
use rp_tool::config::players::Player;
use rp_tool::config::{Config, StatisticLaw};

fn test_config() -> Config {
    Config {
        game_master_discord_name: "gm".to_string(),
        experience_earned_after_success: 1,
        experience_earned_after_failure: 2,
        learning_constant_milli: 334_600,
        talent_increase_permille: 200,
        major_affinity_increase_permille: 100,
        minor_affinity_increase_permille: 50,
        roll_command_statistic_law: StatisticLaw::Uniform,
    }
}

fn bare_player(stats: Vec<(String, i32)>) -> Player {
    Player {
        path: "players/test.json".to_string(),
        name: "Test".to_string(),
        discord_name: "test#1".to_string(),
        stats,
        affinities: Affinities { major: vec![], minor: vec![] },
        talents: vec![],
        modifiers: vec![],
    }
}

#[test]
fn mastery_zero_experience_is_one() {
    assert_eq!(compute_mastery(0, 334_600), 1);
    assert_eq!(compute_mastery(0, 1), 1);
    assert_eq!(compute_mastery(-5, 334_600), 1);
}

#[test]
fn mastery_exact_curve_values() {
    assert_eq!(compute_mastery(50, 334_600), 15);
    assert_eq!(compute_mastery(100, 334_600), 27);
    assert_eq!(compute_mastery(334, 334_600), 64);
    assert_eq!(compute_mastery(1000, 334_600), 95);
}

#[test]
fn mastery_never_reaches_one_hundred() {
    assert_eq!(compute_mastery(i32::MAX, 1), 99);
    assert!(compute_mastery(1_000_000, 334_600) < 100);
}

#[test]
fn mastery_monotone_in_experience() {
    let mut previous = 0;
    for e in [0, 1, 10, 50, 100, 334, 1000, 5000, 100_000] {
        let m = compute_mastery(e, 334_600);
        assert!(m >= previous);
        assert!((1..=99).contains(&m));
        previous = m;
    }
}

#[test]
fn mastery_stacking_lowers_coefficient() {
    let config = test_config();
    let none = effective_coefficient(false, false, false, &config);
    let all = effective_coefficient(true, true, true, &config);
    assert_eq!(none, 334_600);
    assert_eq!(all, 228_866);
    assert!(all < none);
    assert!(compute_mastery(334, all) >= compute_mastery(334, none));
    assert_eq!(compute_mastery(334, all), 77);
}

#[test]
fn mastery_lookup_of_player_experience() {
    let config = test_config();
    let player = bare_player(vec![("Strength".to_string(), 0)]);
    let mastery = get_mastery(&player, "Strength", &config, &vec![]).unwrap();
    assert_eq!(mastery, 1);
}

#[test]
fn mastery_unknown_stat_is_an_error() {
    let config = test_config();
    let player = bare_player(vec![("Strength".to_string(), 0)]);
    let result = get_mastery(&player, "Agility", &config, &vec![]);
    assert_eq!(result, Err(LookupError::StatNotFound("Agility".to_string())));
}

#[test]
fn mastery_unknown_affinity_is_an_error() {
    let config = test_config();
    let mut player = bare_player(vec![("Strength".to_string(), 0)]);
    player.affinities.major.push("Brawn".to_string());
    let result = get_mastery(&player, "Strength", &config, &vec![]);
    assert_eq!(result, Err(LookupError::AffinityNotFound("Brawn".to_string())));
}

#[test]
fn mastery_affinity_bonus_applies() {
    let config = test_config();
    let affinities = vec![Affinity {
        id: "brawn".to_string(),
        display_name: "Brawn".to_string(),
        stats: vec![Affinity {
            id: "strength".to_string(),
            display_name: "Strength".to_string(),
            stats: vec![],
        }],
    }];
    let mut with_bonus = bare_player(vec![("Strength".to_string(), 334)]);
    with_bonus.affinities.major.push("Brawn".to_string());
    let without_bonus = bare_player(vec![("Strength".to_string(), 334)]);
    let m_with = get_mastery(&with_bonus, "Strength", &config, &affinities).unwrap();
    let m_without = get_mastery(&without_bonus, "Strength", &config, &affinities).unwrap();
    assert!(m_with >= m_without);
    assert_eq!(m_without, 64);
    assert_eq!(m_with, 67);
}
