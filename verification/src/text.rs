//! Character and string helpers shared by the configuration parsers:
//! a whitespace model, trimming, identifier normalization and plain
//! character-wise string equality.
use vstd::prelude::*;

verus! {

/// The whitespace characters that configuration text may carry around a
/// label: blanks and tabs from indentation, carriage returns and newlines
/// from line endings.
pub open spec fn is_space(c: char) -> bool {
    c == ' ' || c == '\t' || c == '\r' || c == '\n'
}

/// `s` with its leading whitespace removed.
pub open spec fn trim_front(s: Seq<char>) -> Seq<char>
    decreases s.len(),
{
    if s.len() > 0 && is_space(s[0]) {
        trim_front(s.drop_first())
    } else {
        s
    }
}

/// `s` with its trailing whitespace removed.
pub open spec fn trim_back(s: Seq<char>) -> Seq<char>
    decreases s.len(),
{
    if s.len() > 0 && is_space(s.last()) {
        trim_back(s.drop_last())
    } else {
        s
    }
}

/// `s` with whitespace removed from both ends.
pub open spec fn trim_spec(s: Seq<char>) -> Seq<char> {
    trim_back(trim_front(s))
}

proof fn lemma_trim_front_skip(s: Seq<char>, i: int)
    requires
        0 <= i <= s.len(),
        forall|k: int| 0 <= k < i ==> is_space(#[trigger] s[k]),
        i == s.len() || !is_space(s[i]),
    ensures
        trim_front(s) == s.skip(i),
    decreases i,
{
    if i == 0 {
        assert(s.skip(0) =~= s);
    } else {
        assert(is_space(s[0]));
        assert(s.drop_first() =~= s.skip(1));
        lemma_trim_front_skip(s.skip(1), i - 1);
        assert(s.skip(1).skip(i - 1) =~= s.skip(i));
    }
}

proof fn lemma_trim_back_take(s: Seq<char>, j: int)
    requires
        0 <= j <= s.len(),
        forall|k: int| j <= k < s.len() ==> is_space(#[trigger] s[k]),
        j == 0 || !is_space(s[j - 1]),
    ensures
        trim_back(s) == s.take(j),
    decreases s.len() - j,
{
    if j == s.len() {
        assert(s.take(j) =~= s);
    } else {
        assert(is_space(s.last()));
        assert(s.drop_last() =~= s.take(s.len() - 1));
        lemma_trim_back_take(s.take(s.len() - 1), j);
        assert(s.take(s.len() - 1).take(j) =~= s.take(j));
    }
}

/// Remove whitespace from both ends of `s`.
pub fn trim(s: &str) -> (r: &str)
    ensures
        r@ == trim_spec(s@),
{
    let n = s.unicode_len();
    let mut i: usize = 0;
    while i < n && space_char(s.get_char(i))
        invariant
            0 <= i <= n,
            n == s@.len(),
            forall|k: int| 0 <= k < i ==> is_space(#[trigger] s@[k]),
        decreases n - i,
    {
        i = i + 1;
    }
    let mut j: usize = n;
    while j > i && space_char(s.get_char(j - 1))
        invariant
            i <= j <= n,
            n == s@.len(),
            forall|k: int| 0 <= k < i ==> is_space(#[trigger] s@[k]),
            i == n || !is_space(s@[i as int]),
            forall|k: int| j <= k < n ==> is_space(#[trigger] s@[k]),
        decreases j,
    {
        j = j - 1;
    }
    proof {
        lemma_trim_front_skip(s@, i as int);
        if j == i {
            // everything from i on is whitespace, so the skipped tail trims away
            lemma_trim_back_take(s@.skip(i as int), 0);
            assert(s@.skip(i as int).take(0) =~= s@.subrange(i as int, j as int));
        } else {
            lemma_trim_back_take(s@.skip(i as int), j - i);
            assert(s@.skip(i as int).take(j - i) =~= s@.subrange(i as int, j as int));
        }
    }
    s.substring_char(i, j)
}

/// Executable test for the whitespace set.
pub fn space_char(c: char) -> (r: bool)
    ensures
        r == is_space(c),
{
    c == ' ' || c == '\t' || c == '\r' || c == '\n'
}

/// What `char::to_lowercase` yields as first character: the Unicode
/// lowercase mapping of `c`, a function of the character alone.
pub uninterp spec fn lower_char(c: char) -> char;

/// Relies on char::to_lowercase: yields the Unicode lowercase mapping of
/// the character (the character itself when it has none); the iterator it
/// returns is never empty, so taking its first element cannot fail.
#[verifier::external_body]
pub fn char_lower(c: char) -> (r: char)
    ensures
        r == lower_char(c),
{
    c.to_lowercase().next().unwrap()
}

/// Relies on String::push: appends exactly the given character.
#[verifier::external_body]
pub fn push_char(s: &mut String, c: char)
    ensures
        final(s)@ == old(s)@.push(c),
{
    s.push(c);
}

/// How many columns one whitespace character occupies: a tab four, any
/// other whitespace one.
pub open spec fn space_width(c: char) -> nat {
    if c == '\t' {
        4
    } else {
        1
    }
}

/// How many columns the leading whitespace of `s` occupies.
pub open spec fn indent_width(s: Seq<char>) -> nat
    decreases s.len(),
{
    if s.len() > 0 && is_space(s[0]) {
        space_width(s[0]) + indent_width(s.drop_first())
    } else {
        0
    }
}

/// The canonical identifier form of one character: ASCII letters are
/// lowercased, accented Latin vowels (either case) fall to their base
/// letter, the word separators blank, hyphen and slash become an
/// underscore, any other ASCII character passes through, and anything
/// else is lowercased by the Unicode mapping.
pub open spec fn normalize_char(c: char) -> char {
    if 'A' <= c && c <= 'Z' {
        (((c as u8) + 32) as char)
    } else if c == '\u{e9}' || c == '\u{e8}' || c == '\u{ea}' || c == '\u{eb}' || c == '\u{c9}'
        || c == '\u{c8}' || c == '\u{ca}' || c == '\u{cb}' || c == '\u{153}' || c == '\u{152}' {
        'e'
    } else if c == '\u{e0}' || c == '\u{e2}' || c == '\u{c0}' || c == '\u{c2}' {
        'a'
    } else if c == '\u{ef}' || c == '\u{cf}' {
        'i'
    } else if c == '\u{f4}' || c == '\u{d4}' {
        'o'
    } else if c == ' ' || c == '-' || c == '/' {
        '_'
    } else if (c as u32) < 128 {
        c
    } else {
        lower_char(c)
    }
}

/// The canonical identifier form of a whole string.
pub open spec fn normalize_seq(s: Seq<char>) -> Seq<char> {
    s.map_values(|c: char| normalize_char(c))
}

/// Normalization is idempotent on ASCII text: running an
/// already-normalized ASCII string through the normalizer again
/// changes nothing.
pub proof fn lemma_normalize_idempotent_ascii(s: Seq<char>)
    requires
        forall|k: int| 0 <= k < s.len() ==> (#[trigger] s[k] as u32) < 128,
    ensures
        normalize_seq(normalize_seq(s)) == normalize_seq(s),
{
    let once = normalize_seq(s);
    assert forall|k: int| 0 <= k < once.len() implies normalize_char(#[trigger] once[k])
        == once[k] by {
        assert(once[k] == normalize_char(s[k]));
        assert((s[k] as u32) < 128);
    }
    assert(normalize_seq(once) =~= once);
}

/// Build the canonical identifier of `s`: every character normalized.
pub fn normalize_str(s: &str) -> (r: String)
    ensures
        r@ == normalize_seq(s@),
{
    let n = s.unicode_len();
    let mut out = String::new();
    let mut i: usize = 0;
    while i < n
        invariant
            0 <= i <= n,
            n == s@.len(),
            out@ == normalize_seq(s@.take(i as int)),
        decreases n - i,
    {
        let c = s.get_char(i);
        let nc = normalize_one(c);
        push_char(&mut out, nc);
        proof {
            assert(s@.take(i + 1) =~= s@.take(i as int).push(c));
            assert(normalize_seq(s@.take(i + 1)) =~= normalize_seq(s@.take(i as int)).push(
                normalize_char(c)));
        }
        i = i + 1;
    }
    proof {
        assert(s@.take(n as int) =~= s@);
    }
    out
}

/// Normalize a single character; the executable form of [`normalize_char`].
pub fn normalize_one(c: char) -> (r: char)
    ensures
        r == normalize_char(c),
{
    if 'A' <= c && c <= 'Z' {
        ((c as u8) + 32) as char
    } else {
        match c {
            '\u{e9}' | '\u{e8}' | '\u{ea}' | '\u{eb}' | '\u{c9}' | '\u{c8}' | '\u{ca}'
            | '\u{cb}' | '\u{153}' | '\u{152}' => 'e',
            '\u{e0}' | '\u{e2}' | '\u{c0}' | '\u{c2}' => 'a',
            '\u{ef}' | '\u{cf}' => 'i',
            '\u{f4}' | '\u{d4}' => 'o',
            ' ' | '-' | '/' => '_',
            _ => {
                if (c as u32) < 128 {
                    c
                } else {
                    char_lower(c)
                }
            },
        }
    }
}

/// Length of the prefix of `s` before the first blank, or the whole
/// length when it has none.
pub open spec fn blank_pos(s: Seq<char>) -> nat
    decreases s.len(),
{
    if s.len() == 0 {
        0
    } else if s[0] == ' ' {
        0
    } else {
        1 + blank_pos(s.drop_first())
    }
}

proof fn lemma_blank_pos_at(s: Seq<char>, q: int)
    requires
        0 <= q <= s.len(),
        forall|k: int| 0 <= k < q ==> s[k] != ' ',
        q == s.len() || s[q] == ' ',
    ensures
        blank_pos(s) == q,
    decreases q,
{
    if q > 0 {
        assert(s[0] != ' ');
        assert(s.drop_first() =~= s.skip(1));
        lemma_blank_pos_at(s.skip(1), q - 1);
    }
}

/// The first blank-separated word of `s`.
pub open spec fn first_word(s: Seq<char>) -> Seq<char> {
    s.take(blank_pos(s) as int)
}

/// Extract the first blank-separated word of `s`.
pub fn take_first_word(s: &str) -> (r: &str)
    ensures
        r@ == first_word(s@),
{
    let n = s.unicode_len();
    let mut q: usize = 0;
    while q < n && s.get_char(q) != ' '
        invariant
            0 <= q <= n,
            n == s@.len(),
            forall|k: int| 0 <= k < q ==> s@[k] != ' ',
        decreases n - q,
    {
        q = q + 1;
    }
    proof {
        lemma_blank_pos_at(s@, q as int);
        assert(s@.take(q as int) =~= s@.subrange(0, q as int));
    }
    s.substring_char(0, q)
}

/// Character-wise equality of two string slices.
pub fn str_eq(a: &str, b: &str) -> (r: bool)
    ensures
        r == (a@ == b@),
{
    let n = a.unicode_len();
    if n != b.unicode_len() {
        proof {
            assert(a@.len() != b@.len());
        }
        return false;
    }
    let mut i: usize = 0;
    while i < n
        invariant
            0 <= i <= n,
            n == a@.len(),
            n == b@.len(),
            forall|k: int| 0 <= k < i ==> a@[k] == #[trigger] b@[k],
        decreases n - i,
    {
        if a.get_char(i) != b.get_char(i) {
            proof {
                assert(a@[i as int] != b@[i as int]);
            }
            return false;
        }
        i = i + 1;
    }
    proof {
        assert(a@ =~= b@);
    }
    true
}

} // verus!

