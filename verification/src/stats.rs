//! The stat hierarchy in its older, self-contained form: a stat node
//! with its own constructor and tree builder over parsed lines.
use vstd::prelude::*;

pub use crate::config::parser::ParsedLine;
pub use crate::config::parser::clean_input;
pub use crate::config::parser::get_indent_level;

use crate::config::parser::{
    TreeError, TreeStructure, build_tree, get_tree, kid_count, line_views, matches_kids,
    matches_node, node_ok, parsed_views,
};
use crate::text::{normalize_seq, normalize_str, trim, trim_spec};

verus! {

/// Represent a stat tree node
#[derive(Debug, PartialEq, Eq)]
pub struct Stat {
    pub id: String,
    pub display_name: String,
    pub sub_stats: Vec<Stat>,
}

impl Stat {
    /// Create a Stat from a raw line of the file
    /// The raw input will be cleaned to be used as an id for the stat
    pub fn from(raw_line: &str, sub_stats: Vec<Stat>) -> (r: Result<Self, TreeError>)
        ensures
            r is Ok <==> sub_stats@.len() <= 20,
            r matches Ok(t) ==> t.display_name@ == trim_spec(raw_line@) && t.id@ == normalize_seq(
                trim_spec(raw_line@),
            ) && t.sub_stats@ == sub_stats@,
    {
        if sub_stats.len() > 20 {
            return Err(TreeError::TooManyChildren);
        }
        let trimmed = trim(raw_line);
        Ok(Stat {
            id: normalize_str(trimmed),
            display_name: trimmed.to_owned(),
            sub_stats,
        })
    }
}

impl TreeStructure for Stat {
    open spec fn display_of(&self) -> Seq<char> {
        self.display_name@
    }

    open spec fn id_of(&self) -> Seq<char> {
        self.id@
    }

    open spec fn children_of(&self) -> Seq<Self> {
        self.sub_stats@
    }

    open spec fn cap_ok(n: nat) -> bool {
        n <= 20
    }

    fn get_children(&self) -> (r: &Vec<Self>) {
        &self.sub_stats
    }

    fn take_children(self) -> (r: Vec<Self>) {
        self.sub_stats
    }

    fn from_line(raw_line: &str, sub_stats: Vec<Self>) -> (r: Result<Self, TreeError>) {
        Stat::from(raw_line, sub_stats)
    }
}

/// Build a stat tree based on the stats as lines, by parsing the line's
/// indentation.
pub fn build_stat_tree(lines: &Vec<ParsedLine>, index: usize) -> (r: Result<Stat, TreeError>)
    requires
        index < lines@.len(),
        forall|k: int|
            0 <= k < lines@.len() ==> #[trigger] line_views(lines@)[k].indent + 4 <= usize::MAX,
    ensures
        r is Ok <==> node_ok::<Stat>(line_views(lines@), index as int),
        r matches Ok(t) ==> matches_node(t, line_views(lines@), index as int),
{
    build_tree::<Stat>(lines, index)
}

/// Compile the text of the stats resource into the stat forest.
pub fn get_stats(text: &str) -> (r: Result<Vec<Stat>, TreeError>)
    requires
        4 * text@.len() + 8 <= usize::MAX,
    ensures
        r is Ok <==> node_ok::<Stat>(parsed_views(text@), 0),
        r matches Ok(forest) ==> matches_kids(forest@, parsed_views(text@), 0, 1)
            && forest@.len() == kid_count(parsed_views(text@), 0, 1),
{
    get_tree::<Stat>(text)
}

} // verus!
