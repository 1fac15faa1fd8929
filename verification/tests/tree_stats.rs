//! The self-contained stat tree builder on indented line lists.
use rp_tool::stats::{build_stat_tree, get_stats, ParsedLine, Stat};

fn assert_vec_eq<T: PartialEq>(vec1: Vec<T>, vec2: Vec<T>) {
    assert!(vec1.iter().zip(vec2).all(|(v1, v2)| *v1 == v2));
}

fn get_parsed_lines(lines: &[&str]) -> Vec<ParsedLine> {
    let mut parsed_lines = vec![ParsedLine::root()];
    parsed_lines.extend(
        lines
            .iter()
            .map(|line| ParsedLine::from(line))
            .collect::<Vec<ParsedLine>>(),
    );
    parsed_lines
}

#[test]
fn stats_parse_stats_no_indent() {
    let lines = ["Stat1", "Stat2", "Stat3"];
    let result = build_stat_tree(&get_parsed_lines(&lines), 0)
        .unwrap()
        .sub_stats;
    let expected = vec![
        Stat::from("Stat1", vec![]).unwrap(),
        Stat::from("Stat2", vec![]).unwrap(),
        Stat::from("Stat3", vec![]).unwrap(),
    ];
    assert_vec_eq(result, expected);
}

#[test]
fn stats_parse_stats_one_level_indent() {
    let lines = ["Stat1", "    Stat2", "    Stat3"];
    let result = build_stat_tree(&get_parsed_lines(&lines), 0)
        .unwrap()
        .sub_stats;
    let expected = vec![Stat::from(
        "Stat1",
        vec![
            Stat::from("Stat2", vec![]).unwrap(),
            Stat::from("Stat3", vec![]).unwrap(),
        ],
    )
    .unwrap()];
    assert_vec_eq(result, expected);
}

#[test]
fn stats_parse_stats_multiple_one_level_indent() {
    let lines = [
        "Stat1",
        "    Stat2",
        "    Stat3",
        "Stat4",
        "    Stat5",
        "    Stat6",
    ];
    let result = build_stat_tree(&get_parsed_lines(&lines), 0)
        .unwrap()
        .sub_stats;
    let expected = vec![
        Stat::from(
            "Stat1",
            vec![
                Stat::from("Stat2", vec![]).unwrap(),
                Stat::from("Stat3", vec![]).unwrap(),
            ],
        )
        .unwrap(),
        Stat::from(
            "Stat4",
            vec![
                Stat::from("Stat5", vec![]).unwrap(),
                Stat::from("Stat6", vec![]).unwrap(),
            ],
        )
        .unwrap(),
    ];
    assert_vec_eq(result, expected);
}

#[test]
fn stats_parse_stats_complex_indent() {
    let lines = [
        "Stat1",
        "    Stat2",
        "        Stat3",
        "Stat4",
        "    Stat5",
        "        Stat6",
        "        Stat7",
        "    Stat8",
        "    Stat9",
        "        Stat10",
    ];
    let result = build_stat_tree(&get_parsed_lines(&lines), 0)
        .unwrap()
        .sub_stats;
    let expected = vec![
        Stat::from(
            "Stat1",
            vec![Stat::from("Stat2", vec![Stat::from("Stat3", vec![]).unwrap()]).unwrap()],
        )
        .unwrap(),
        Stat::from(
            "Stat4",
            vec![
                Stat::from(
                    "Stat5",
                    vec![
                        Stat::from("Stat6", vec![]).unwrap(),
                        Stat::from("Stat7", vec![]).unwrap(),
                    ],
                )
                .unwrap(),
                Stat::from("Stat8", vec![]).unwrap(),
                Stat::from("Stat9", vec![Stat::from("Stat10", vec![]).unwrap()]).unwrap(),
            ],
        )
        .unwrap(),
    ];
    assert_vec_eq(result, expected);
}

#[test]
fn stats_from_rejects_more_than_twenty_children() {
    let children: Vec<Stat> = (0..21)
        .map(|i| Stat::from(&format!("Child{}", i), vec![]).unwrap())
        .collect();
    assert!(Stat::from("Top", children).is_err());
}

#[test]
fn stats_get_stats_builds_forest() {
    let forest = get_stats("A\n    B\nC\n").unwrap();
    assert_eq!(forest.len(), 2);
    assert_eq!(forest[0].display_name, "A");
    assert_eq!(forest[0].sub_stats[0].display_name, "B");
    assert_eq!(forest[1].display_name, "C");
}
