//! Laws of the parser that hold of whole families of inputs, proved against
//! the specification-level model that [`crate::parser::parse`] is bound to.

use vstd::prelude::*;

use crate::ast::ParseError;
use crate::ast::Regex;
use crate::model::flush_current;
use crate::model::is_metacharacter;
use crate::model::parse_result;
use crate::model::scan;

verus! {

/// The tree node that matches one literal character.
pub open spec fn char_node(c: char) -> Regex {
    Regex::Char(c)
}

/// One `Char` node per character, in input order.
pub open spec fn literal_nodes(s: Seq<char>) -> Seq<Regex>
    decreases s,
{
    if s.len() == 0 {
        Seq::empty()
    } else {
        literal_nodes(s.drop_last()).push(char_node(s.last()))
    }
}

pub broadcast proof fn lemma_literal_nodes_len(s: Seq<char>)
    ensures
        #[trigger] literal_nodes(s).len() == s.len(),
    decreases s,
{
    if s.len() > 0 {
        lemma_literal_nodes_len(s.drop_last());
    }
}

pub broadcast proof fn lemma_literal_nodes_index(s: Seq<char>, i: int)
    requires
        0 <= i < s.len(),
    ensures
        #[trigger] literal_nodes(s)[i] == Regex::Char(s[i]),
    decreases s,
{
    lemma_literal_nodes_len(s);
    if i < s.len() - 1 {
        lemma_literal_nodes_index(s.drop_last(), i);
        lemma_literal_nodes_len(s.drop_last());
    }
}

proof fn lemma_scan_literals(s: Seq<char>, i: int, cur: Seq<Regex>)
    requires
        0 <= i <= s.len(),
        forall|j: int| i <= j < s.len() ==> !is_metacharacter(s[j]),
    ensures
        scan(s, i, false, cur, Seq::empty(), Seq::empty()) == (if cur.len() + s.len() - i == 0 {
            Err::<Regex, ParseError>(ParseError::Empty)
        } else {
            Ok::<Regex, ParseError>(
                Regex::Sequence(cur + literal_nodes(s.subrange(i, s.len() as int))),
            )
        }),
    decreases s.len() - i,
{
    broadcast use lemma_literal_nodes_len, lemma_literal_nodes_index;

    if i == s.len() {
        if cur.len() > 0 {
            assert(flush_current(cur, Seq::empty()) =~= seq![Regex::Sequence(cur)]);
            assert(cur + literal_nodes(s.subrange(i, s.len() as int)) =~= cur);
        }
    } else {
        lemma_scan_literals(s, i + 1, cur.push(char_node(s[i])));
        assert(cur.push(char_node(s[i])) + literal_nodes(s.subrange(i + 1, s.len() as int))
            =~= cur + literal_nodes(s.subrange(i, s.len() as int)));
    }
}

/// Law: a pattern made of literal, non-metacharacter characters alone
/// parses to a single sequence holding one `Char` node per character, in
/// input order; with no characters at all it is rejected as `Empty`.
pub proof fn lemma_parse_literals(s: Seq<char>)
    requires
        forall|j: int| 0 <= j < s.len() ==> !is_metacharacter(s[j]),
    ensures
        s.len() > 0 ==> parse_result(s) == Ok::<Regex, ParseError>(
            Regex::Sequence(literal_nodes(s)),
        ),
        s.len() == 0 ==> parse_result(s) == Err::<Regex, ParseError>(ParseError::Empty),
{
    broadcast use lemma_literal_nodes_len;

    lemma_scan_literals(s, 0, Seq::empty());
    assert(s.subrange(0, s.len() as int) =~= s);
    assert(Seq::<Regex>::empty() + literal_nodes(s) =~= literal_nodes(s));
}

/// Law: a two-character pattern of a backslash and one more character
/// succeeds exactly when that character is an escapable metacharacter, and
/// then stands for it as a single literal; any other character is an
/// invalid escape, reported at the second character's offset.
pub proof fn lemma_parse_escaped_char(c: char)
    ensures
        is_metacharacter(c) ==> parse_result(seq!['\\', c]) == Ok::<Regex, ParseError>(
            Regex::Sequence(seq![Regex::Char(c)]),
        ),
        !is_metacharacter(c) ==> parse_result(seq!['\\', c]) == Err::<Regex, ParseError>(
            ParseError::InvalidEscape(1, c),
        ),
{
    let s = seq!['\\', c];
    let none = Seq::<Regex>::empty();
    let one = none.push(char_node(c));
    assert(scan(s, 0, false, none, none, Seq::empty()) == scan(s, 1, true, none, none, Seq::empty()));
    if is_metacharacter(c) {
        assert(scan(s, 1, true, none, none, Seq::empty()) == scan(
            s,
            2,
            false,
            one,
            none,
            Seq::empty(),
        ));
        assert(flush_current(one, none) =~= seq![Regex::Sequence(one)]);
        assert(one =~= seq![Regex::Char(c)]);
    }
}

/// Law: a pattern that begins with a quantifier or an alternation bar has
/// no preceding expression for the operator to apply to and fails with
/// `NoPrev` at offset zero; one that begins with a closing parenthesis has
/// no open group and fails with `InvalidRightParen` at offset zero.
pub proof fn lemma_parse_leading_operator(s: Seq<char>)
    requires
        s.len() > 0,
    ensures
        (s[0] == '+' || s[0] == '*' || s[0] == '?' || s[0] == '|') ==> parse_result(s)
            == Err::<Regex, ParseError>(ParseError::NoPrev(0)),
        s[0] == ')' ==> parse_result(s) == Err::<Regex, ParseError>(
            ParseError::InvalidRightParen(0),
        ),
{
}

/// Law: parsing is deterministic. The result is a function of the input's
/// characters alone — [`parse_result`] — so any two results that the
/// parser's contract allows for equal inputs are equal, in tree structure
/// or in error variant and offset alike.
pub proof fn lemma_parse_deterministic(
    s: Seq<char>,
    r1: Result<Regex, ParseError>,
    r2: Result<Regex, ParseError>,
)
    requires
        r1 == parse_result(s),
        r2 == parse_result(s),
    ensures
        r1 == r2,
{
}

} // verus!
