//! The syntax tree a parsed pattern is turned into, the errors a parse can
//! end in, and the mathematical model of a tree that the contracts speak of.

use vstd::prelude::*;

verus! {

/// Abstract syntax tree of a pattern. Every child is owned exclusively, so a
/// finished tree is acyclic by construction and never shared.
#[derive(Debug, PartialEq, Eq)]
pub enum AST {
    /// A single literal character.
    Char(char),
    /// One or more repetitions of the child.
    Plus(Box<AST>),
    /// Zero or more repetitions of the child.
    Star(Box<AST>),
    /// Zero or one occurrence of the child.
    Question(Box<AST>),
    /// Alternation of the two children; chains of alternatives lean right.
    Or(Box<AST>, Box<AST>),
    /// Concatenation of the children, in order.
    Sequence(Vec<AST>),
}

/// The shape of a syntax tree as a mathematical value: the same constructors
/// as [`AST`], with a `Seq` where the executable tree holds a `Vec`.
pub ghost enum Regex {
    Char(char),
    Plus(Box<Regex>),
    Star(Box<Regex>),
    Question(Box<Regex>),
    Or(Box<Regex>, Box<Regex>),
    Sequence(Seq<Regex>),
}

/// The model of one executable tree node.
pub open spec fn ast_view(a: AST) -> Regex
    decreases a,
{
    match a {
        AST::Char(c) => Regex::Char(c),
        AST::Plus(b) => Regex::Plus(Box::new(ast_view(*b))),
        AST::Star(b) => Regex::Star(Box::new(ast_view(*b))),
        AST::Question(b) => Regex::Question(Box::new(ast_view(*b))),
        AST::Or(l, r) => Regex::Or(Box::new(ast_view(*l)), Box::new(ast_view(*r))),
        AST::Sequence(v) => Regex::Sequence(asts_view(v@)),
    }
}

/// The models of a list of tree nodes, elementwise and in order.
pub open spec fn asts_view(s: Seq<AST>) -> Seq<Regex>
    decreases s,
{
    if s.len() == 0 {
        Seq::empty()
    } else {
        asts_view(s.drop_last()).push(ast_view(s.last()))
    }
}

impl View for AST {
    type V = Regex;

    open spec fn view(&self) -> Regex {
        ast_view(*self)
    }
}

pub proof fn lemma_asts_view_len(s: Seq<AST>)
    ensures
        asts_view(s).len() == s.len(),
    decreases s,
{
    if s.len() > 0 {
        lemma_asts_view_len(s.drop_last());
    }
}

pub proof fn lemma_asts_view_index(s: Seq<AST>, i: int)
    requires
        0 <= i < s.len(),
    ensures
        asts_view(s).len() == s.len(),
        asts_view(s)[i] == ast_view(s[i]),
    decreases s,
{
    lemma_asts_view_len(s);
    if i < s.len() - 1 {
        lemma_asts_view_index(s.drop_last(), i);
    }
}

pub proof fn lemma_asts_view_push(s: Seq<AST>, a: AST)
    ensures
        asts_view(s.push(a)) == asts_view(s).push(ast_view(a)),
{
    assert(s.push(a).drop_last() =~= s);
    assert(s.push(a).last() == a);
}

/// Error a parse can end in, carrying the zero-based character offset at
/// which the problem was detected where one exists.
#[derive(Debug, PartialEq, Eq, Clone, Copy)]
pub enum ParseError {
    /// The character after a backslash has no recognized escaped meaning.
    InvalidEscape(usize, char),
    /// A closing parenthesis with no open group to match it.
    InvalidRightParen(usize),
    /// A quantifier or alternation operator with no expression before it.
    NoPrev(usize),
    /// An open group never closed by the end of the input.
    NoRightParen,
    /// The whole pattern held no matchable content.
    Empty,
}

} // verus!
