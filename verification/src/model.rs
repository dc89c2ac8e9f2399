//! Specification-level parser: a character-by-character transition function
//! over the scanner's state. The executable parser is proved to return
//! exactly what [`parse_result`] says for its input.

use vstd::prelude::*;

use crate::ast::ParseError;
use crate::ast::Regex;

verus! {

/// The characters that carry structural meaning, and exactly the characters
/// that may follow a backslash in an escape sequence.
pub open spec fn is_metacharacter(c: char) -> bool {
    c == '\\' || c == '(' || c == ')' || c == '|' || c == '+' || c == '*' || c == '?'
}

/// The node a quantifier character wraps its operand in.
pub open spec fn quantified(c: char, inner: Regex) -> Regex
    recommends
        c == '+' || c == '*' || c == '?',
{
    if c == '+' {
        Regex::Plus(Box::new(inner))
    } else if c == '*' {
        Regex::Star(Box::new(inner))
    } else {
        Regex::Question(Box::new(inner))
    }
}

/// Moves a non-empty current concatenation onto the list of completed
/// alternation branches; an empty one contributes nothing.
pub open spec fn flush_current(cur: Seq<Regex>, alts: Seq<Regex>) -> Seq<Regex> {
    if cur.len() > 0 {
        alts.push(Regex::Sequence(cur))
    } else {
        alts
    }
}

/// Folds a non-empty list of alternation branches into one tree: a single
/// branch stands unwrapped, more lean right, the last branch innermost.
pub open spec fn fold_alternatives(alts: Seq<Regex>) -> Regex
    recommends
        alts.len() >= 1,
    decreases alts.len(),
{
    if alts.len() <= 1 {
        alts[0]
    } else {
        Regex::Or(
            Box::new(alts[0]),
            Box::new(fold_alternatives(alts.subrange(1, alts.len() as int))),
        )
    }
}

/// What closing a group leaves as the enclosing concatenation: the group
/// folds to a single atom appended to the saved outer concatenation, or,
/// when the group held nothing, the outer concatenation unchanged.
pub open spec fn close_group(cur: Seq<Regex>, alts: Seq<Regex>, outer: Seq<Regex>) -> Seq<Regex> {
    let branches = flush_current(cur, alts);
    if branches.len() == 0 {
        outer
    } else {
        outer.push(fold_alternatives(branches))
    }
}

/// One saved group frame: the concatenation and the branch list that were
/// current when the group opened.
pub ghost struct Frame {
    pub cur: Seq<Regex>,
    pub alts: Seq<Regex>,
}

/// The scan from position `i` to the end of the input, started in escape
/// mode when `esc`, with current concatenation `cur`, completed branches
/// `alts` and the open groups `stack` (innermost last).
pub open spec fn scan(
    s: Seq<char>,
    i: int,
    esc: bool,
    cur: Seq<Regex>,
    alts: Seq<Regex>,
    stack: Seq<Frame>,
) -> Result<Regex, ParseError>
    decreases s.len() - i,
{
    if i < 0 || i >= s.len() {
        // End of input: an unterminated group outranks emptiness.
        if stack.len() > 0 {
            Err(ParseError::NoRightParen)
        } else if flush_current(cur, alts).len() == 0 {
            Err(ParseError::Empty)
        } else {
            Ok(fold_alternatives(flush_current(cur, alts)))
        }
    } else if esc {
        if is_metacharacter(s[i]) {
            scan(s, i + 1, false, cur.push(Regex::Char(s[i])), alts, stack)
        } else {
            Err(ParseError::InvalidEscape(i as usize, s[i]))
        }
    } else if s[i] == '+' || s[i] == '*' || s[i] == '?' {
        if cur.len() == 0 {
            Err(ParseError::NoPrev(i as usize))
        } else {
            scan(
                s,
                i + 1,
                false,
                cur.update(cur.len() - 1, quantified(s[i], cur.last())),
                alts,
                stack,
            )
        }
    } else if s[i] == '(' {
        scan(s, i + 1, false, Seq::empty(), Seq::empty(), stack.push(Frame { cur, alts }))
    } else if s[i] == ')' {
        if stack.len() == 0 {
            Err(ParseError::InvalidRightParen(i as usize))
        } else {
            scan(
                s,
                i + 1,
                false,
                close_group(cur, alts, stack.last().cur),
                stack.last().alts,
                stack.drop_last(),
            )
        }
    } else if s[i] == '|' {
        if cur.len() == 0 {
            Err(ParseError::NoPrev(i as usize))
        } else {
            scan(s, i + 1, false, Seq::empty(), alts.push(Regex::Sequence(cur)), stack)
        }
    } else if s[i] == '\\' {
        scan(s, i + 1, true, cur, alts, stack)
    } else {
        scan(s, i + 1, false, cur.push(Regex::Char(s[i])), alts, stack)
    }
}

/// What parsing a whole pattern returns: the scan of all of it from fresh
/// accumulators.
pub open spec fn parse_result(s: Seq<char>) -> Result<Regex, ParseError> {
    scan(s, 0, false, Seq::empty(), Seq::empty(), Seq::empty())
}

} // verus!
