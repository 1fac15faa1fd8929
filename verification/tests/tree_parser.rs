//! The generic tree compiler on indented line lists.
use rp_tool::config::parser::{build_tree, ParsedLine, TreeStructure};
use rp_tool::config::stat::Stat;

fn assert_vec_eq<T: PartialEq>(vec1: Vec<T>, vec2: Vec<T>) {
    assert!(vec1.iter().zip(vec2).all(|(v1, v2)| *v1 == v2));
}

fn get_parsed_lines(lines: &[&str]) -> Vec<ParsedLine> {
    let mut parsed_lines = vec![ParsedLine::root()];
    parsed_lines.extend(
        lines
            .iter()
            .map(|line| ParsedLine::from(line))
            .collect::<Vec<ParsedLine>>(),
    );
    parsed_lines
}

#[test]
fn parser_parse_stats_no_indent() {
    let lines = ["Stat1", "Stat2", "Stat3"];
    let result = build_tree::<Stat>(&get_parsed_lines(&lines), 0)
        .unwrap()
        .sub_stats;
    let expected = vec![
        Stat::from_line("Stat1", vec![]).unwrap(),
        Stat::from_line("Stat2", vec![]).unwrap(),
        Stat::from_line("Stat3", vec![]).unwrap(),
    ];
    assert_vec_eq(result, expected);
}

#[test]
fn parser_parse_stats_one_level_indent() {
    let lines = ["Stat1", "    Stat2", "    Stat3"];
    let result = build_tree::<Stat>(&get_parsed_lines(&lines), 0)
        .unwrap()
        .sub_stats;
    let expected = vec![Stat::from_line(
        "Stat1",
        vec![
            Stat::from_line("Stat2", vec![]).unwrap(),
            Stat::from_line("Stat3", vec![]).unwrap(),
        ],
    )
    .unwrap()];
    assert_vec_eq(result, expected);
}

#[test]
fn parser_parse_stats_multiple_one_level_indent() {
    let lines = [
        "Stat1",
        "    Stat2",
        "    Stat3",
        "Stat4",
        "    Stat5",
        "    Stat6",
    ];
    let result = build_tree::<Stat>(&get_parsed_lines(&lines), 0)
        .unwrap()
        .sub_stats;
    let expected = vec![
        Stat::from_line(
            "Stat1",
            vec![
                Stat::from_line("Stat2", vec![]).unwrap(),
                Stat::from_line("Stat3", vec![]).unwrap(),
            ],
        )
        .unwrap(),
        Stat::from_line(
            "Stat4",
            vec![
                Stat::from_line("Stat5", vec![]).unwrap(),
                Stat::from_line("Stat6", vec![]).unwrap(),
            ],
        )
        .unwrap(),
    ];
    assert_vec_eq(result, expected);
}

#[test]
fn parser_parse_stats_complex_indent() {
    let lines = [
        "Stat1",
        "    Stat2",
        "        Stat3",
        "Stat4",
        "    Stat5",
        "        Stat6",
        "        Stat7",
        "    Stat8",
        "    Stat9",
        "        Stat10",
    ];
    let result = build_tree::<Stat>(&get_parsed_lines(&lines), 0)
        .unwrap()
        .sub_stats;
    let expected = vec![
        Stat::from_line(
            "Stat1",
            vec![Stat::from_line("Stat2", vec![Stat::from_line("Stat3", vec![]).unwrap()]).unwrap()],
        )
        .unwrap(),
        Stat::from_line(
            "Stat4",
            vec![
                Stat::from_line(
                    "Stat5",
                    vec![
                        Stat::from_line("Stat6", vec![]).unwrap(),
                        Stat::from_line("Stat7", vec![]).unwrap(),
                    ],
                )
                .unwrap(),
                Stat::from_line("Stat8", vec![]).unwrap(),
                Stat::from_line("Stat9", vec![Stat::from_line("Stat10", vec![]).unwrap()]).unwrap(),
            ],
        )
        .unwrap(),
    ];
    assert_vec_eq(result, expected);
}

#[test]
fn parser_tree_from_text_resource() {
    let text = "Stat1\n    Stat2\n    Stat3\n\nStat4\n";
    let forest: Vec<Stat> = rp_tool::config::parser::get_tree(text).unwrap();
    assert_eq!(forest.len(), 2);
    assert_eq!(forest[0].display_name, "Stat1");
    assert_eq!(forest[0].sub_stats.len(), 2);
    assert_eq!(forest[0].sub_stats[0].display_name, "Stat2");
    assert_eq!(forest[0].sub_stats[1].display_name, "Stat3");
    assert_eq!(forest[1].display_name, "Stat4");
    assert!(forest[1].sub_stats.is_empty());
}

#[test]
fn parser_tree_empty_text_is_empty_forest() {
    let forest: Vec<Stat> = rp_tool::config::parser::get_tree("").unwrap();
    assert!(forest.is_empty());
}

#[test]
fn parser_tree_rejects_more_than_twenty_children() {
    let mut lines: Vec<String> = vec!["Top".to_string()];
    for i in 0..21 {
        lines.push(format!("    Child{}", i));
    }
    let text = lines.join("\n");
    let result: Result<Vec<Stat>, rp_tool::config::parser::TreeError> =
        rp_tool::config::parser::get_tree(&text);
    assert_eq!(result, Err(rp_tool::config::parser::TreeError::TooManyChildren));
}

#[test]
fn parser_node_ids_are_normalized() {
    let forest: Vec<Stat> =
        rp_tool::config::parser::get_tree("Close Combat\n    \u{c9}p\u{e9}e/Dague\n").unwrap();
    assert_eq!(forest[0].id, "close_combat");
    assert_eq!(forest[0].sub_stats[0].id, "epee_dague");
}

#[test]
fn parser_tree_accepts_exactly_twenty_children() {
    let mut lines: Vec<String> = vec!["Top".to_string()];
    for i in 0..20 {
        lines.push(format!("    Child{}", i));
    }
    let text = lines.join("\n");
    let forest: Vec<Stat> = rp_tool::config::parser::get_tree(&text).unwrap();
    assert_eq!(forest[0].sub_stats.len(), 20);
}

#[test]
fn parser_tab_counts_as_one_level() {
    let forest: Vec<Stat> =
        rp_tool::config::parser::get_tree("Top\n\tChild\n\t\tGrandchild\n").unwrap();
    assert_eq!(forest.len(), 1);
    assert_eq!(forest[0].sub_stats.len(), 1);
    assert_eq!(forest[0].sub_stats[0].display_name, "Child");
    assert_eq!(forest[0].sub_stats[0].sub_stats[0].display_name, "Grandchild");
}
