use regex_parse::parser::fold_or;
use regex_parse::parser::parse_escape;
use regex_parse::parser::parse_plus_start_question;
use regex_parse::parser::PSQ;
use regex_parse::AST;
use regex_parse::ParseError;

#[test]
fn escape_resolver_accepts_each_metacharacter() {
    for c in ['\\', '(', ')', '|', '+', '*', '?'] {
        assert_eq!(parse_escape(7, c).unwrap(), AST::Char(c));
    }
}

#[test]
fn escape_resolver_rejects_other_characters() {
    assert_eq!(parse_escape(2, 'n').unwrap_err(), ParseError::InvalidEscape(2, 'n'));
    assert_eq!(parse_escape(0, 'a').unwrap_err(), ParseError::InvalidEscape(0, 'a'));
}

#[test]
fn quantifier_application_wraps_last_node() {
    let mut seq = vec![AST::Char('a'), AST::Char('b')];
    parse_plus_start_question(&mut seq, PSQ::Plus, 2).unwrap();
    assert_eq!(seq, vec![AST::Char('a'), AST::Plus(Box::new(AST::Char('b')))]);

    let mut seq = vec![AST::Char('x')];
    parse_plus_start_question(&mut seq, PSQ::Star, 1).unwrap();
    assert_eq!(seq, vec![AST::Star(Box::new(AST::Char('x')))]);

    let mut seq = vec![AST::Char('y')];
    parse_plus_start_question(&mut seq, PSQ::Question, 1).unwrap();
    assert_eq!(seq, vec![AST::Question(Box::new(AST::Char('y')))]);
}

#[test]
fn quantifier_application_needs_a_previous_node() {
    let mut seq: Vec<AST> = Vec::new();
    assert_eq!(
        parse_plus_start_question(&mut seq, PSQ::Plus, 5).unwrap_err(),
        ParseError::NoPrev(5)
    );
    assert!(seq.is_empty());
}

#[test]
fn fold_of_no_branches_is_nothing() {
    assert_eq!(fold_or(Vec::new()), None);
}

#[test]
fn fold_of_one_branch_is_unwrapped() {
    let r = fold_or(vec![AST::Char('a')]);
    assert_eq!(r, Some(AST::Char('a')));
}

#[test]
fn fold_of_many_branches_leans_right() {
    let r = fold_or(vec![AST::Char('a'), AST::Char('b'), AST::Char('c')]);
    assert_eq!(
        r,
        Some(AST::Or(
            Box::new(AST::Char('a')),
            Box::new(AST::Or(
                Box::new(AST::Char('b')),
                Box::new(AST::Char('c')),
            )),
        ))
    );
}
