//! The configuration consistency check run at startup.
use rp_tool::config::affinity::{Affinities, Affinity};
use rp_tool::config::players::Player;
use rp_tool::config::stat::Stat;
use rp_tool::{check_validity, ConfigError};

fn leaf(name: &str) -> Stat {
    Stat {
        id: name.to_lowercase(),
        display_name: name.to_string(),
        sub_stats: vec![],
    }
}

fn family(name: &str, children: Vec<Stat>) -> Stat {
    Stat {
        id: name.to_lowercase(),
        display_name: name.to_string(),
        sub_stats: children,
    }
}

fn affinity_leaf(name: &str) -> Affinity {
    Affinity {
        id: name.to_lowercase(),
        display_name: name.to_string(),
        stats: vec![],
    }
}

fn two_leaf_stats() -> Vec<Stat> {
    vec![family("Body", vec![leaf("Strength"), leaf("Stamina")])]
}

fn full_player(stats: Vec<(String, i32)>) -> Player {
    Player {
        path: "players/arya.json".to_string(),
        name: "Arya".to_string(),
        discord_name: "arya#7".to_string(),
        stats,
        affinities: Affinities { major: vec![], minor: vec![] },
        talents: vec![],
        modifiers: vec![],
    }
}

#[test]
fn validity_accepts_consistent_configuration() {
    let stats = two_leaf_stats();
    let affinities = vec![affinity_leaf("Strength")];
    let player = full_player(vec![
        ("Strength".to_string(), 0),
        ("Stamina".to_string(), 4),
    ]);
    assert_eq!(check_validity(&stats, &affinities, &vec![player]), Ok(()));
}

#[test]
fn validity_rejects_player_missing_leaf() {
    let stats = two_leaf_stats();
    let player = full_player(vec![("Strength".to_string(), 0)]);
    let result = check_validity(&stats, &vec![], &vec![player]);
    assert_eq!(
        result,
        Err(ConfigError::StatMissingForPlayer {
            stat: "Stamina".to_string(),
            file: "players/arya.json".to_string(),
        })
    );
}

#[test]
fn validity_rejects_stat_not_in_tree() {
    let stats = two_leaf_stats();
    let player = full_player(vec![
        ("Strength".to_string(), 0),
        ("Stamina".to_string(), 0),
        ("Luck".to_string(), 0),
    ]);
    let result = check_validity(&stats, &vec![], &vec![player]);
    assert_eq!(
        result,
        Err(ConfigError::StatNotInTree {
            stat: "Luck".to_string(),
            file: "players/arya.json".to_string(),
        })
    );
}

#[test]
fn validity_rejects_group_name_as_player_stat() {
    // a family is navigational only: tracking it is an extra entry
    let stats = two_leaf_stats();
    let player = full_player(vec![
        ("Body".to_string(), 0),
        ("Strength".to_string(), 0),
        ("Stamina".to_string(), 0),
    ]);
    let result = check_validity(&stats, &vec![], &vec![player]);
    assert_eq!(
        result,
        Err(ConfigError::StatNotInTree {
            stat: "Body".to_string(),
            file: "players/arya.json".to_string(),
        })
    );
}

#[test]
fn validity_rejects_affinity_leaf_without_stat() {
    let stats = two_leaf_stats();
    let affinities = vec![affinity_leaf("Sorcery")];
    let result = check_validity(&stats, &affinities, &vec![]);
    assert_eq!(
        result,
        Err(ConfigError::AffinityStatUnknown { affinity: "Sorcery".to_string() })
    );
}

#[test]
fn validity_accepts_affinity_group_of_known_stats() {
    let stats = two_leaf_stats();
    let affinities = vec![Affinity {
        id: "brawn".to_string(),
        display_name: "Brawn".to_string(),
        stats: vec![affinity_leaf("Strength"), affinity_leaf("Stamina")],
    }];
    assert_eq!(check_validity(&stats, &affinities, &vec![]), Ok(()));
}

#[test]
fn validity_rejects_unknown_major_affinity() {
    let stats = two_leaf_stats();
    let mut player = full_player(vec![
        ("Strength".to_string(), 0),
        ("Stamina".to_string(), 0),
    ]);
    player.affinities.major.push("Brawn".to_string());
    let result = check_validity(&stats, &vec![], &vec![player]);
    assert_eq!(
        result,
        Err(ConfigError::UnknownMajorAffinity {
            name: "Brawn".to_string(),
            file: "players/arya.json".to_string(),
        })
    );
}

#[test]
fn validity_rejects_unknown_minor_affinity() {
    let stats = two_leaf_stats();
    let affinities = vec![affinity_leaf("Strength")];
    let mut player = full_player(vec![
        ("Strength".to_string(), 0),
        ("Stamina".to_string(), 0),
    ]);
    player.affinities.minor.push("Grace".to_string());
    let result = check_validity(&stats, &affinities, &vec![player]);
    assert_eq!(
        result,
        Err(ConfigError::UnknownMinorAffinity {
            name: "Grace".to_string(),
            file: "players/arya.json".to_string(),
        })
    );
}

#[test]
fn validity_rejects_unknown_talent() {
    let stats = two_leaf_stats();
    let mut player = full_player(vec![
        ("Strength".to_string(), 0),
        ("Stamina".to_string(), 0),
    ]);
    player.talents.push("Body".to_string());
    let result = check_validity(&stats, &vec![], &vec![player]);
    assert_eq!(
        result,
        Err(ConfigError::UnknownTalent {
            name: "Body".to_string(),
            file: "players/arya.json".to_string(),
        })
    );
}

#[test]
fn validity_reports_first_failing_player() {
    let stats = two_leaf_stats();
    let good = full_player(vec![
        ("Strength".to_string(), 0),
        ("Stamina".to_string(), 0),
    ]);
    let mut bad = full_player(vec![
        ("Strength".to_string(), 0),
        ("Stamina".to_string(), 0),
    ]);
    bad.path = "players/bran.json".to_string();
    bad.talents.push("Luck".to_string());
    let result = check_validity(&stats, &vec![], &vec![good, bad]);
    assert_eq!(
        result,
        Err(ConfigError::UnknownTalent {
            name: "Luck".to_string(),
            file: "players/bran.json".to_string(),
        })
    );
}
