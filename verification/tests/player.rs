//! The player record: lookups, the experience update, and the state's
//! locator index.
use rp_tool::config::affinity::{Affinities, Affinity};
use rp_tool::config::players::Player;
use rp_tool::config::{Config, StatisticLaw};
use rp_tool::State;

fn sample_player() -> Player {
    Player {
        path: "players/arya.json".to_string(),
        name: "Arya".to_string(),
        discord_name: "arya#7".to_string(),
        stats: vec![("Strength".to_string(), 12), ("Stamina".to_string(), 3)],
        affinities: Affinities {
            major: vec!["Brawn".to_string()],
            minor: vec!["Grace".to_string()],
        },
        talents: vec!["Strength".to_string()],
        modifiers: vec![("Stamina".to_string(), -4)],
    }
}

fn affinity_forest() -> Vec<Affinity> {
    vec![
        Affinity {
            id: "brawn".to_string(),
            display_name: "Brawn".to_string(),
            stats: vec![Affinity {
                id: "strength".to_string(),
                display_name: "Strength".to_string(),
                stats: vec![],
            }],
        },
        Affinity {
            id: "grace".to_string(),
            display_name: "Grace".to_string(),
            stats: vec![],
        },
    ]
}

#[test]
fn player_talent_lookup() {
    let p = sample_player();
    assert!(p.is_talent("Strength"));
    assert!(!p.is_talent("Stamina"));
}

#[test]
fn player_modifier_defaults_to_zero() {
    let p = sample_player();
    assert_eq!(p.get_modifier("Stamina"), -4);
    assert_eq!(p.get_modifier("Strength"), 0);
    assert_eq!(p.get_modifier("Luck"), 0);
}

#[test]
fn player_experience_lookup() {
    let p = sample_player();
    assert_eq!(p.get_experience("Strength"), Some(12));
    assert_eq!(p.get_experience("Luck"), None);
}

#[test]
fn player_affinity_membership() {
    let p = sample_player();
    let affs = affinity_forest();
    // "Brawn" is a group holding Strength; "Grace" is a lone affinity
    assert_eq!(p.is_major_affinity("Strength", &affs), Ok(true));
    assert_eq!(p.is_major_affinity("Stamina", &affs), Ok(false));
    assert_eq!(p.is_minor_affinity("Grace", &affs), Ok(true));
    assert_eq!(p.is_minor_affinity("Strength", &affs), Ok(false));
}

#[test]
fn player_experience_increase() {
    let mut p = sample_player();
    p.increase_experience(5, "Strength");
    assert_eq!(p.get_experience("Strength"), Some(17));
    assert_eq!(p.get_experience("Stamina"), Some(3));
}

#[test]
fn player_experience_increase_negative_delta() {
    let mut p = sample_player();
    p.increase_experience(-2, "Stamina");
    assert_eq!(p.get_experience("Stamina"), Some(1));
}

#[test]
fn player_experience_increase_unknown_stat_is_noop() {
    let mut p = sample_player();
    let before = p.clone();
    p.increase_experience(5, "Luck");
    assert_eq!(p, before);
}

#[test]
fn state_locates_players() {
    let state = State {
        config: Config {
            game_master_discord_name: "gm".to_string(),
            experience_earned_after_success: 1,
            experience_earned_after_failure: 1,
            learning_constant_milli: 334_600,
            talent_increase_permille: 200,
            major_affinity_increase_permille: 100,
            minor_affinity_increase_permille: 50,
            roll_command_statistic_law: StatisticLaw::Uniform,
        },
        stats: vec![],
        affinities: vec![],
        players: vec![("arya#7".to_string(), "players/arya.json".to_string())],
    };
    assert_eq!(
        state.player_path("arya#7").map(|s| s.as_str()),
        Some("players/arya.json")
    );
    assert_eq!(state.player_path("bran#2"), None);
}

#[test]
fn player_duplicate_entries_first_wins() {
    let mut p = sample_player();
    p.stats.push(("Strength".to_string(), 99));
    assert_eq!(p.get_experience("Strength"), Some(12));
    p.increase_experience(1, "Strength");
    assert_eq!(p.get_experience("Strength"), Some(13));
    // the shadowed duplicate stays untouched
    assert_eq!(p.stats[2], ("Strength".to_string(), 99));
}
