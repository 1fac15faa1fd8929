//! The indentation-to-tree compiler, shared by the stat and the affinity
//! hierarchies: raw text lines become a forest of named nodes, nesting
//! given by leading whitespace.
use vstd::prelude::*;

use crate::text::{
    indent_width, is_space, normalize_char, normalize_seq, space_char, trim, trim_spec,
};

verus! {

/// Error of tree construction: a node was handed more children than its
/// kind accepts.
#[derive(Debug, Clone, PartialEq, Eq)]
pub enum TreeError {
    TooManyChildren,
}

/// A node kind of the configuration tree: something with a normalized
/// identifier, a display name, and ordered children of the same kind.
pub trait TreeStructure: Sized {
    /// The display name the node carries.
    spec fn display_of(&self) -> Seq<char>;

    /// The normalized identifier the node carries.
    spec fn id_of(&self) -> Seq<char>;

    /// The node's ordered children.
    spec fn children_of(&self) -> Seq<Self>;

    /// Whether a node of this kind may hold `n` direct children.
    spec fn cap_ok(n: nat) -> bool;

    /// The node's ordered children, as stored.
    fn get_children(&self) -> (r: &Vec<Self>)
        ensures
            r@ == self.children_of(),
    ;

    /// The node's ordered children, taking the node apart.
    fn take_children(self) -> (r: Vec<Self>)
        ensures
            r@ == self.children_of(),
    ;

    /// Build a node from its raw line and its already-built children;
    /// fails exactly when this kind refuses that many children.
    fn from_line(line: &str, children: Vec<Self>) -> (r: Result<Self, TreeError>)
        ensures
            r is Ok <==> Self::cap_ok(children@.len()),
            r matches Ok(t) ==> t.display_of() == trim_spec(line@) && t.id_of() == normalize_seq(
                trim_spec(line@),
            ) && t.children_of() == children@,
    ;
}

/// One character of identifier text: ASCII letters lowercased, accented
/// Latin vowels reduced to their base letter, separators to underscores.
pub fn clean_input(c: char) -> (r: char)
    ensures
        r == normalize_char(c),
{
    crate::text::normalize_one(c)
}

/// What one raw line contributes to the tree: its trimmed text and its
/// indent level, already shifted so that a synthetic root sits at level 0.
pub struct LineV {
    pub value: Seq<char>,
    pub indent: int,
}

/// A raw line reduced to its label and its indent level.
pub struct ParsedLine {
    pub value: String,
    pub indent_level: usize,
}

impl View for ParsedLine {
    type V = LineV;

    open spec fn view(&self) -> LineV {
        LineV { value: self.value@, indent: self.indent_level as int }
    }
}

impl ParsedLine {
    /// The synthetic root above every top-level line.
    pub fn root() -> (r: Self)
        ensures
            r@.value == "root"@,
            r@.indent == 0,
    {
        ParsedLine { value: String::from_str("root"), indent_level: 0 }
    }

    /// Parse one raw line: trim it, and shift its indent by one level so
    /// the synthetic root owns the top-level lines.
    pub fn from(line: &str) -> (r: Self)
        requires
            4 * line@.len() + 4 <= usize::MAX,
        ensures
            r@.value == trim_spec(line@),
            r@.indent == indent_width(line@) + 4,
            r@.indent <= 4 * line@.len() + 4,
    {
        ParsedLine {
            value: trim(line).to_owned(),
            indent_level: get_indent_level(line) + 4,
        }
    }
}

/// How indented a line is, in columns: a tab counts four, any other
/// whitespace one.
pub fn get_indent_level(line: &str) -> (r: usize)
    requires
        4 * line@.len() <= usize::MAX,
    ensures
        r == indent_width(line@),
        r <= 4 * line@.len(),
{
    let n = line.unicode_len();
    let mut sum: usize = 0;
    let mut i: usize = 0;
    proof {
        assert(line@.skip(0) =~= line@);
    }
    while i < n && space_char(line.get_char(i))
        invariant
            0 <= i <= n,
            n == line@.len(),
            4 * n <= usize::MAX,
            sum <= 4 * i,
            forall|k: int| 0 <= k < i ==> is_space(#[trigger] line@[k]),
            indent_width(line@) == sum + indent_width(line@.skip(i as int)),
        decreases n - i,
    {
        let c = line.get_char(i);
        proof {
            assert(line@.skip(i as int)[0] == line@[i as int]);
            assert(line@.skip(i as int).drop_first() =~= line@.skip(i + 1));
        }
        if c == '\t' {
            sum = sum + 4;
        } else {
            sum = sum + 1;
        }
        i = i + 1;
    }
    proof {
        if i < n {
            assert(!is_space(line@.skip(i as int)[0]));
        }
        assert(indent_width(line@.skip(i as int)) == 0);
    }
    sum
}

/// The views of a sequence of parsed lines.
pub open spec fn line_views(lines: Seq<ParsedLine>) -> Seq<LineV> {
    lines.map_values(|p: ParsedLine| p@)
}

/// How many direct children the node at position `i` has, scanning from
/// position `j`: lines one level deeper are children, deeper lines belong
/// to a child's subtree, and the first shallower line ends the scan.
pub open spec fn kid_count(lines: Seq<LineV>, i: int, j: int) -> nat
    decreases lines.len() - j,
    when 0 <= i < j <= lines.len()
{
    if j >= lines.len() {
        0
    } else if lines[j].indent < lines[i].indent + 4 {
        0
    } else if lines[j].indent == lines[i].indent + 4 {
        1 + kid_count(lines, i, j + 1)
    } else {
        kid_count(lines, i, j + 1)
    }
}

/// The node `t` is exactly what the compiler builds for position `i`.
pub open spec fn matches_node<T: TreeStructure>(t: T, lines: Seq<LineV>, i: int) -> bool
    decreases lines.len() - i, 0int,
    when 0 <= i < lines.len()
{
    &&& t.display_of() == trim_spec(lines[i].value)
    &&& t.id_of() == normalize_seq(trim_spec(lines[i].value))
    &&& matches_kids(t.children_of(), lines, i, i + 1)
}

/// The sequence `kids` is exactly the children that the scan for node `i`
/// collects from position `j` on.
pub open spec fn matches_kids<T: TreeStructure>(
    kids: Seq<T>,
    lines: Seq<LineV>,
    i: int,
    j: int,
) -> bool
    decreases lines.len() - j, 1int,
    when 0 <= i < j <= lines.len()
{
    if j >= lines.len() || lines[j].indent < lines[i].indent + 4 {
        kids.len() == 0
    } else if lines[j].indent == lines[i].indent + 4 {
        &&& kids.len() > 0
        &&& matches_node(kids[0], lines, j)
        &&& matches_kids(kids.drop_first(), lines, i, j + 1)
    } else {
        matches_kids(kids, lines, i, j + 1)
    }
}

/// Every node of the subtree rooted at position `i` keeps within the
/// child cap of kind `T`.
pub open spec fn node_ok<T: TreeStructure>(lines: Seq<LineV>, i: int) -> bool
    decreases lines.len() - i, 0int,
    when 0 <= i < lines.len()
{
    &&& T::cap_ok(kid_count(lines, i, i + 1))
    &&& kids_ok::<T>(lines, i, i + 1)
}

/// Every subtree of a child of node `i` found from position `j` on keeps
/// within the child cap of kind `T`.
pub open spec fn kids_ok<T: TreeStructure>(lines: Seq<LineV>, i: int, j: int) -> bool
    decreases lines.len() - j, 1int,
    when 0 <= i < j <= lines.len()
{
    if j >= lines.len() || lines[j].indent < lines[i].indent + 4 {
        true
    } else if lines[j].indent == lines[i].indent + 4 {
        node_ok::<T>(lines, j) && kids_ok::<T>(lines, i, j + 1)
    } else {
        kids_ok::<T>(lines, i, j + 1)
    }
}

/// Build the node of kind `T` rooted at line `index`: scan the following
/// lines for children one level deeper, compile each child's subtree
/// recursively, and stop at the first shallower line.
pub fn build_tree<T: TreeStructure>(lines: &Vec<ParsedLine>, index: usize) -> (r: Result<
    T,
    TreeError,
>)
    requires
        index < lines@.len(),
        forall|k: int|
            0 <= k < lines@.len() ==> #[trigger] line_views(lines@)[k].indent + 4 <= usize::MAX,
    ensures
        r is Ok <==> node_ok::<T>(line_views(lines@), index as int),
        r matches Ok(t) ==> matches_node(t, line_views(lines@), index as int),
    decreases lines@.len() - index,
{
    let ghost lv = line_views(lines@);
    let ghost i = index as int;
    let n = lines.len();
    if index + 1 >= n {
        let empty: Vec<T> = Vec::new();
        let ghost empty_view = empty@;
        let r = T::from_line(lines[index].value.as_str(), empty);
        proof {
            assert(kid_count(lv, i, i + 1) == 0);
            assert(kids_ok::<T>(lv, i, i + 1));
            if r is Ok {
                assert(matches_kids(empty_view, lv, i, i + 1));
            }
        }
        return r;
    }
    let mut children: Vec<T> = Vec::new();
    let current_indent_level = lines[index].indent_level;
    proof {
        assert(lv[i] == lines@[i]@);
        assert(lv[i].indent + 4 <= usize::MAX);
    }
    let children_indent_level = current_indent_level + 4;
    let mut j: usize = index + 1;
    proof {
        assert(children@ + Seq::<T>::empty() =~= Seq::<T>::empty());
    }
    while j < lines.len() && lines[j].indent_level >= children_indent_level
        invariant
            index < j <= lines@.len(),
            lv == line_views(lines@),
            i == index as int,
            forall|k: int| 0 <= k < lines@.len() ==> #[trigger] lv[k].indent + 4 <= usize::MAX,
            children_indent_level == lv[i].indent + 4,
            children@.len() + kid_count(lv, i, j as int) == kid_count(lv, i, i + 1),
            kids_ok::<T>(lv, i, j as int) <==> kids_ok::<T>(lv, i, i + 1),
            forall|rest: Seq<T>|
                #[trigger] matches_kids(rest, lv, i, j as int) ==> matches_kids(
                    children@ + rest,
                    lv,
                    i,
                    i + 1,
                ),
        decreases lines@.len() - j,
    {
        if lines[j].indent_level == children_indent_level {
            let ghost j0 = j as int;
            let ghost old_children = children@;
            match build_tree::<T>(lines, j) {
                Ok(child) => {
                    proof {
                        assert(kid_count(lv, i, j0) == 1 + kid_count(lv, i, j0 + 1));
                        assert(kids_ok::<T>(lv, i, j0) <==> (node_ok::<T>(lv, j0)
                            && kids_ok::<T>(lv, i, j0 + 1)));
                    }
                    children.push(child);
                    proof {
                        assert forall|rest: Seq<T>| #[trigger]
                            matches_kids(rest, lv, i, j0 + 1) implies matches_kids(
                            children@ + rest,
                            lv,
                            i,
                            i + 1,
                        ) by {
                            let with_child = seq![child] + rest;
                            assert(with_child.drop_first() =~= rest);
                            assert(with_child[0] == child);
                            assert(matches_kids(with_child, lv, i, j0));
                            assert(children@ + rest =~= old_children + with_child);
                        }
                    }
                },
                Err(e) => {
                    proof {
                        assert(!node_ok::<T>(lv, j0));
                        assert(!kids_ok::<T>(lv, i, j0));
                        assert(!node_ok::<T>(lv, i));
                    }
                    return Err(e);
                },
            }
        } else {
            proof {
                let j0 = j as int;
                assert(lv[j0].indent > lv[i].indent + 4);
                assert(kid_count(lv, i, j0) == kid_count(lv, i, j0 + 1));
                assert(kids_ok::<T>(lv, i, j0) <==> kids_ok::<T>(lv, i, j0 + 1));
                assert forall|rest: Seq<T>| #[trigger]
                    matches_kids(rest, lv, i, j0 + 1) implies matches_kids(
                    children@ + rest,
                    lv,
                    i,
                    i + 1,
                ) by {
                    assert(matches_kids(rest, lv, i, j0));
                }
            }
        }
        j = j + 1;
    }
    proof {
        assert(kid_count(lv, i, j as int) == 0);
        assert(kids_ok::<T>(lv, i, j as int));
        assert(matches_kids(Seq::<T>::empty(), lv, i, j as int));
        assert(children@ + Seq::<T>::empty() =~= children@);
        assert(matches_kids(children@, lv, i, i + 1));
    }
    let ghost children_view = children@;
    let r = T::from_line(lines[index].value.as_str(), children);
    proof {
        assert(children_view.len() == kid_count(lv, i, i + 1));
    }
    r
}

/// Length of the prefix of `s` before its first newline, or the whole
/// length when it has none.
pub open spec fn nl_pos(s: Seq<char>) -> nat
    decreases s.len(),
{
    if s.len() == 0 {
        0
    } else if s[0] == '\n' {
        0
    } else {
        1 + nl_pos(s.drop_first())
    }
}

/// `s` split at every newline, as `str::split` does it: adjacent
/// newlines and a trailing newline contribute empty pieces.
pub open spec fn split_lines(s: Seq<char>) -> Seq<Seq<char>>
    decreases s.len(),
{
    let p = nl_pos(s) as int;
    if p >= s.len() {
        seq![s]
    } else {
        seq![s.take(p)] + split_lines(s.skip(p + 1))
    }
}

/// What a sequence of raw lines contributes to the parsed line list:
/// empty lines are dropped, the rest are trimmed and shifted one level.
pub open spec fn line_entries(ls: Seq<Seq<char>>) -> Seq<LineV>
    decreases ls.len(),
{
    if ls.len() == 0 {
        Seq::empty()
    } else {
        let rest = line_entries(ls.drop_first());
        if ls[0].len() == 0 {
            rest
        } else {
            seq![LineV { value: trim_spec(ls[0]), indent: indent_width(ls[0]) + 4int }] + rest
        }
    }
}

/// The view of the synthetic root line.
pub open spec fn root_line() -> LineV {
    LineV { value: "root"@, indent: 0 }
}

/// The parsed line list of a whole text resource: the synthetic root,
/// then every non-empty line, trimmed and indent-shifted.
pub open spec fn parsed_views(text: Seq<char>) -> Seq<LineV> {
    seq![root_line()] + line_entries(split_lines(text))
}

proof fn lemma_nl_pos_at(s: Seq<char>, q: int)
    requires
        0 <= q <= s.len(),
        forall|k: int| 0 <= k < q ==> s[k] != '\n',
        q == s.len() || s[q] == '\n',
    ensures
        nl_pos(s) == q,
    decreases q,
{
    if q == 0 {
    } else {
        assert(s[0] != '\n');
        assert(s.drop_first() =~= s.skip(1));
        lemma_nl_pos_at(s.skip(1), q - 1);
    }
}

/// How many children the matched sequence has is exactly the scan count.
pub proof fn lemma_matches_kids_len<T: TreeStructure>(
    kids: Seq<T>,
    lines: Seq<LineV>,
    i: int,
    j: int,
)
    requires
        0 <= i < j <= lines.len(),
        matches_kids(kids, lines, i, j),
    ensures
        kids.len() == kid_count(lines, i, j),
    decreases lines.len() - j,
{
    if j >= lines.len() || lines[j].indent < lines[i].indent + 4 {
    } else if lines[j].indent == lines[i].indent + 4 {
        lemma_matches_kids_len(kids.drop_first(), lines, i, j + 1);
    } else {
        lemma_matches_kids_len(kids, lines, i, j + 1);
    }
}

/// Compile a whole text resource into a forest of kind `T`: split it
/// into lines, drop the empty ones, parse indentation, and build the
/// trees under a synthetic root that is itself discarded.
pub fn get_tree<T: TreeStructure>(text: &str) -> (r: Result<Vec<T>, TreeError>)
    requires
        4 * text@.len() + 8 <= usize::MAX,
    ensures
        r is Ok <==> node_ok::<T>(parsed_views(text@), 0),
        r matches Ok(forest) ==> matches_kids(forest@, parsed_views(text@), 0, 1)
            && forest@.len() == kid_count(parsed_views(text@), 0, 1),
{
    let n = text.unicode_len();
    let mut lines: Vec<ParsedLine> = Vec::new();
    lines.push(ParsedLine::root());
    let ghost t = text@;
    let mut pos: usize = 0;
    proof {
        assert(t.skip(0) =~= t);
        assert(line_views(lines@) =~= seq![root_line()]);
        assert(line_entries(split_lines(t)) =~= Seq::<LineV>::empty() + line_entries(
            split_lines(t.skip(0)),
        ));
    }
    while pos <= n
        invariant
            0 <= pos <= n + 1,
            n == t.len(),
            t == text@,
            4 * t.len() + 8 <= usize::MAX,
            lines@.len() >= 1,
            line_views(lines@)[0] == root_line(),
            line_views(lines@) =~= seq![root_line()] + line_views(lines@).drop_first(),
            line_entries(split_lines(t)) =~= line_views(lines@).drop_first() + (
            if pos <= n {
                line_entries(split_lines(t.skip(pos as int)))
            } else {
                Seq::<LineV>::empty()
            }),
            forall|k: int|
                0 <= k < lines@.len() ==> #[trigger] line_views(lines@)[k].indent + 4
                    <= usize::MAX,
        decreases n + 1 - pos,
    {
        let mut q: usize = pos;
        while q < n && text.get_char(q) != '\n'
            invariant
                pos <= q <= n,
                n == t.len(),
                t == text@,
                forall|k: int| pos <= k < q ==> t[k] != '\n',
            decreases n - q,
        {
            q = q + 1;
        }
        proof {
            lemma_nl_pos_at(t.skip(pos as int), q - pos);
        }
        let line = text.substring_char(pos, q);
        let ghost rest = t.skip(pos as int);
        proof {
            assert(line@ =~= rest.take(q - pos));
            if q < n {
                assert(split_lines(rest) =~= seq![line@] + split_lines(rest.skip(q - pos + 1)));
                assert(rest.skip(q - pos + 1) =~= t.skip(q + 1));
            } else {
                assert(rest.take(q - pos) =~= rest);
                assert(split_lines(rest) =~= seq![line@]);
            }
            assert((seq![line@] + (
            if q < n {
                split_lines(t.skip(q + 1))
            } else {
                Seq::<Seq<char>>::empty()
            })).drop_first() =~= (
            if q < n {
                split_lines(t.skip(q + 1))
            } else {
                Seq::<Seq<char>>::empty()
            }));
        }
        let ghost old_entries = line_views(lines@).drop_first();
        let ghost old_lines = lines@;
        if !line.is_empty() {
            let parsed = ParsedLine::from(line);
            let ghost pv = parsed@;
            lines.push(parsed);
            proof {
                assert(line@.len() <= t.len());
                assert(pv.indent + 4 <= usize::MAX);
                assert(line_views(lines@) =~= line_views(old_lines).push(pv));
                assert(line_views(lines@).drop_first() =~= old_entries.push(pv));
                assert forall|k: int|
                    0 <= k < lines@.len() implies #[trigger] line_views(lines@)[k].indent + 4
                    <= usize::MAX by {
                    if k < old_lines.len() {
                        assert(line_views(lines@)[k] == line_views(old_lines)[k]);
                    } else {
                        assert(line_views(lines@)[k] == pv);
                    }
                }
            }
        }
        proof {
            let tail: Seq<Seq<char>> = if q < n {
                split_lines(t.skip(q + 1))
            } else {
                Seq::<Seq<char>>::empty()
            };
            assert(split_lines(rest) =~= seq![line@] + tail);
            assert((seq![line@] + tail)[0] == line@);
            assert(line_entries(seq![line@] + tail) =~= (
            if line@.len() == 0 {
                line_entries(tail)
            } else {
                seq![LineV { value: trim_spec(line@), indent: indent_width(line@) + 4int }]
                    + line_entries(tail)
            }));
            if line@.len() == 0 {
                assert(line_views(lines@).drop_first() + line_entries(tail) =~= old_entries
                    + line_entries(split_lines(rest)));
            } else {
                assert(line_views(lines@).drop_first() + line_entries(tail) =~= old_entries
                    + line_entries(split_lines(rest)));
            }
            if q < n {
                assert(line_entries(split_lines(t.skip(q + 1))) == line_entries(tail));
            } else {
                assert(line_entries(tail) =~= Seq::<LineV>::empty());
            }
        }
        pos = q + 1;
    }
    proof {
        assert(line_views(lines@) =~= parsed_views(t));
        assert(parsed_views(t)[0] == root_line());
    }
    match build_tree::<T>(&lines, 0) {
        Ok(root) => {
            let forest = root.take_children();
            proof {
                lemma_matches_kids_len(forest@, parsed_views(t), 0, 1);
            }
            Ok(forest)
        },
        Err(e) => Err(e),
    }
}

} // verus!
