//! The executable parser: a single pass over the pattern's characters with
//! an explicit stack of saved accumulator pairs in place of call-stack
//! recursion, proved to return exactly what the model in [`crate::model`]
//! assigns to the input.

use vstd::prelude::*;

use crate::ast::AST;
use crate::ast::ParseError;
use crate::ast::Regex;
use crate::ast::ast_view;
use crate::ast::asts_view;
use crate::ast::lemma_asts_view_index;
use crate::ast::lemma_asts_view_len;
use crate::ast::lemma_asts_view_push;
use crate::model::Frame;
use crate::model::close_group;
use crate::model::flush_current;
use crate::model::fold_alternatives;
use crate::model::is_metacharacter;
use crate::model::parse_result;
use crate::model::quantified;
use crate::model::scan;

verus! {

/// The three postfix quantifier kinds.
pub enum PSQ {
    Plus,
    Star,
    Question,
}

/// The character that writes a quantifier kind in a pattern.
pub open spec fn quantifier_char(kind: PSQ) -> char {
    match kind {
        PSQ::Plus => '+',
        PSQ::Star => '*',
        PSQ::Question => '?',
    }
}

/// Resolves the character after a backslash: any of the metacharacters
/// stands for itself as a literal; every other character is an invalid
/// escape at the given offset.
pub fn parse_escape(pos: usize, c: char) -> (r: Result<AST, ParseError>)
    ensures
        is_metacharacter(c) ==> (r matches Ok(a) && a@ == Regex::Char(c)),
        !is_metacharacter(c) ==> r == Err::<AST, ParseError>(ParseError::InvalidEscape(pos, c)),
{
    match c {
        '\\' | '(' | ')' | '|' | '+' | '*' | '?' => Ok(AST::Char(c)),
        _ => Err(ParseError::InvalidEscape(pos, c)),
    }
}

/// Wraps the most recently accumulated node in the given quantifier, in
/// place at the end of the accumulator; with nothing accumulated, fails
/// with `NoPrev` at the quantifier's offset and leaves the accumulator
/// unchanged.
pub fn parse_plus_start_question(seq: &mut Vec<AST>, ast_type: PSQ, pos: usize) -> (r: Result<
    (),
    ParseError,
>)
    ensures
        old(seq)@.len() == 0 ==> r == Err::<(), ParseError>(ParseError::NoPrev(pos))
            && final(seq)@ == old(seq)@,
        old(seq)@.len() > 0 ==> r == Ok::<(), ParseError>(()) && asts_view(final(seq)@)
            == asts_view(old(seq)@).update(
            old(seq)@.len() - 1,
            quantified(quantifier_char(ast_type), ast_view(old(seq)@.last())),
        ),
{
    match seq.pop() {
        Some(prev) => {
            let ast = match ast_type {
                PSQ::Plus => AST::Plus(Box::new(prev)),
                PSQ::Star => AST::Star(Box::new(prev)),
                PSQ::Question => AST::Question(Box::new(prev)),
            };
            seq.push(ast);
            proof {
                let s0 = old(seq)@;
                lemma_asts_view_len(s0);
                lemma_asts_view_push(s0.drop_last(), ast);
                lemma_asts_view_len(s0.drop_last());
                assert(ast_view(ast) == quantified(
                    quantifier_char(ast_type),
                    ast_view(s0.last()),
                ));
                assert(asts_view(s0) == asts_view(s0.drop_last()).push(ast_view(s0.last())));
                assert(asts_view(s0.drop_last()).push(ast_view(ast)) =~= asts_view(s0).update(
                    s0.len() - 1,
                    ast_view(ast),
                ));
            }
            Ok(())
        },
        None => Err(ParseError::NoPrev(pos)),
    }
}

/// Folds a list of completed alternation branches into one tree: none gives
/// nothing, a single branch stands unwrapped, and two or more lean right,
/// the last branch as the innermost right child.
pub fn fold_or(seq_or: Vec<AST>) -> (r: Option<AST>)
    ensures
        seq_or@.len() == 0 ==> r is None,
        seq_or@.len() > 0 ==> (r matches Some(ast) && ast@ == fold_alternatives(
            asts_view(seq_or@),
        )),
{
    let ghost orig = asts_view(seq_or@);
    let ghost all = seq_or@;
    let ghost n0 = seq_or@.len() as int;
    proof {
        lemma_asts_view_len(seq_or@);
    }
    let mut rest = seq_or;
    match rest.pop() {
        None => None,
        Some(last) => {
            let mut ast = last;
            proof {
                lemma_asts_view_len(all.drop_last());
                assert(orig == asts_view(all.drop_last()).push(ast_view(last)));
                assert(asts_view(rest@) =~= orig.subrange(0, n0 - 1));
                assert(orig.subrange(n0 - 1, n0).len() == 1);
                assert(orig.subrange(n0 - 1, n0)[0] == orig[n0 - 1]);
                assert(fold_alternatives(orig.subrange(n0 - 1, n0)) == ast_view(last));
            }
            while rest.len() > 0
                invariant
                    orig.len() == n0,
                    rest@.len() < n0,
                    asts_view(rest@) == orig.subrange(0, rest@.len() as int),
                    ast@ == fold_alternatives(orig.subrange(rest@.len() as int, n0)),
                decreases rest.len(),
            {
                let ghost k = rest@.len() as int;
                let ghost rest0 = rest@;
                proof {
                    lemma_asts_view_len(rest@);
                    lemma_asts_view_len(rest@.drop_last());
                }
                let s = rest.pop().unwrap();
                ast = AST::Or(Box::new(s), Box::new(ast));
                proof {
                    assert(asts_view(rest0) == asts_view(rest0.drop_last()).push(ast_view(s)));
                    assert(ast_view(s) == asts_view(rest0)[k - 1]);
                    assert(asts_view(rest0)[k - 1] == orig.subrange(0, k)[k - 1]);
                    assert(orig.subrange(0, k)[k - 1] == orig[k - 1]);
                    assert(asts_view(rest@) =~= orig.subrange(0, k - 1));
                    let tail = orig.subrange(k - 1, n0);
                    assert(tail.len() >= 2);
                    assert(tail[0] == orig[k - 1]);
                    assert(tail.subrange(1, tail.len() as int) =~= orig.subrange(k, n0));
                    assert(fold_alternatives(tail) == Regex::Or(
                        Box::new(orig[k - 1]),
                        Box::new(fold_alternatives(orig.subrange(k, n0))),
                    ));
                }
            }
            proof {
                assert(orig.subrange(0, n0) =~= orig);
            }
            Some(ast)
        },
    }
}

/// The models of the saved group frames, innermost last.
pub open spec fn frames_view(s: Seq<(Vec<AST>, Vec<AST>)>) -> Seq<Frame> {
    Seq::new(s.len(), |i: int| Frame { cur: asts_view(s[i].0@), alts: asts_view(s[i].1@) })
}

/// Parses a pattern into its syntax tree, or reports the first error with
/// the character offset at which it was detected. The result is exactly
/// what the specification-level scan assigns to the input's characters.
pub fn parse(expr: &str) -> (r: Result<AST, Box<ParseError>>)
    ensures
        r matches Ok(ast) ==> parse_result(expr@) == Ok::<Regex, ParseError>(ast@),
        r matches Err(e) ==> parse_result(expr@) == Err::<Regex, ParseError>(*e),
{
    let ghost s: Seq<char> = expr@;
    let n = expr.unicode_len();
    let mut seq: Vec<AST> = Vec::new();
    let mut seq_or: Vec<AST> = Vec::new();
    let mut stack: Vec<(Vec<AST>, Vec<AST>)> = Vec::new();
    let mut escape = false;
    let mut i: usize = 0;

    proof {
        assert(asts_view(seq@) =~= Seq::<Regex>::empty());
        assert(frames_view(stack@) =~= Seq::<Frame>::empty());
    }

    while i < n
        invariant
            n == s.len(),
            s == expr@,
            i <= n,
            scan(s, i as int, escape, asts_view(seq@), asts_view(seq_or@), frames_view(stack@))
                == parse_result(s),
        decreases n - i,
    {
        let c = expr.get_char(i);
        let ghost cur = asts_view(seq@);
        let ghost alts = asts_view(seq_or@);
        let ghost stk = frames_view(stack@);
        if escape {
            let ghost seq0 = seq@;
            match parse_escape(i, c) {
                Ok(ast) => {
                    seq.push(ast);
                    escape = false;
                    proof {
                        lemma_asts_view_push(seq0, ast);
                    }
                },
                Err(e) => {
                    return Err(Box::new(e));
                },
            }
        } else if c == '+' || c == '*' || c == '?' {
            let kind = if c == '+' {
                PSQ::Plus
            } else if c == '*' {
                PSQ::Star
            } else {
                PSQ::Question
            };
            let ghost seq0 = seq@;
            proof {
                lemma_asts_view_len(seq0);
                if seq0.len() > 0 {
                    lemma_asts_view_index(seq0, seq0.len() - 1);
                }
            }
            match parse_plus_start_question(&mut seq, kind, i) {
                Ok(_) => {},
                Err(e) => {
                    return Err(Box::new(e));
                },
            }
        } else if c == '(' {
            let prev = seq;
            let prev_or = seq_or;
            seq = Vec::new();
            seq_or = Vec::new();
            stack.push((prev, prev_or));
            proof {
                assert(asts_view(seq@) =~= Seq::<Regex>::empty());
                assert(asts_view(seq_or@) =~= Seq::<Regex>::empty());
                assert(frames_view(stack@) =~= stk.push(Frame { cur, alts }));
            }
        } else if c == ')' {
            match stack.pop() {
                Some(frame) => {
                    let (mut prev, prev_or) = frame;
                    let ghost seq0 = seq@;
                    let ghost seqor0 = seq_or@;
                    proof {
                        lemma_asts_view_len(seq0);
                        assert(stk[stk.len() - 1] == Frame {
                            cur: asts_view(prev@),
                            alts: asts_view(prev_or@),
                        });
                        assert(frames_view(stack@) =~= stk.drop_last());
                    }
                    if seq.len() > 0 {
                        let closed = seq;
                        seq_or.push(AST::Sequence(closed));
                        proof {
                            lemma_asts_view_push(seqor0, AST::Sequence(closed));
                        }
                    }
                    proof {
                        assert(asts_view(seq_or@) == flush_current(cur, alts));
                        lemma_asts_view_len(seq_or@);
                    }
                    let ghost prev0 = prev@;
                    match fold_or(seq_or) {
                        Some(ast) => {
                            prev.push(ast);
                            proof {
                                lemma_asts_view_push(prev0, ast);
                            }
                        },
                        None => {},
                    }
                    proof {
                        assert(asts_view(prev@) == close_group(cur, alts, stk.last().cur));
                    }
                    seq = prev;
                    seq_or = prev_or;
                },
                None => {
                    return Err(Box::new(ParseError::InvalidRightParen(i)));
                },
            }
        } else if c == '|' {
            if seq.len() == 0 {
                proof {
                    lemma_asts_view_len(seq@);
                }
                return Err(Box::new(ParseError::NoPrev(i)));
            } else {
                let ghost seqor0 = seq_or@;
                proof {
                    lemma_asts_view_len(seq@);
                }
                let closed = seq;
                seq = Vec::new();
                seq_or.push(AST::Sequence(closed));
                proof {
                    lemma_asts_view_push(seqor0, AST::Sequence(closed));
                    assert(asts_view(seq@) =~= Seq::<Regex>::empty());
                }
            }
        } else if c == '\\' {
            escape = true;
        } else {
            let ghost seq0 = seq@;
            seq.push(AST::Char(c));
            proof {
                lemma_asts_view_push(seq0, AST::Char(c));
            }
        }
        i = i + 1;
    }

    if stack.len() > 0 {
        return Err(Box::new(ParseError::NoRightParen));
    }
    let ghost cur = asts_view(seq@);
    let ghost alts = asts_view(seq_or@);
    proof {
        lemma_asts_view_len(seq@);
    }
    if seq.len() > 0 {
        let ghost seqor0 = seq_or@;
        let closed = seq;
        seq_or.push(AST::Sequence(closed));
        proof {
            lemma_asts_view_push(seqor0, AST::Sequence(closed));
        }
    }
    proof {
        assert(asts_view(seq_or@) == flush_current(cur, alts));
        lemma_asts_view_len(seq_or@);
    }
    match fold_or(seq_or) {
        Some(ast) => Ok(ast),
        None => Err(Box::new(ParseError::Empty)),
    }
}

} // verus!
