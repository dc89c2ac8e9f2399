use regex_parse::parse;
use regex_parse::AST;
use regex_parse::ParseError;

fn ast_char(c: char) -> AST {
    AST::Char(c)
}

fn ast_seq(nodes: Vec<AST>) -> AST {
    AST::Sequence(nodes)
}

#[test]
fn literal_characters_in_order() {
    let r = parse("abc").unwrap();
    assert_eq!(r, ast_seq(vec![ast_char('a'), ast_char('b'), ast_char('c')]));
}

#[test]
fn single_literal() {
    let r = parse("a").unwrap();
    assert_eq!(r, ast_seq(vec![ast_char('a')]));
}

#[test]
fn plus_wraps_previous_atom() {
    let r = parse("a+").unwrap();
    assert_eq!(r, ast_seq(vec![AST::Plus(Box::new(ast_char('a')))]));
}

#[test]
fn star_wraps_previous_atom() {
    let r = parse("a*").unwrap();
    assert_eq!(r, ast_seq(vec![AST::Star(Box::new(ast_char('a')))]));
}

#[test]
fn question_wraps_previous_atom() {
    let r = parse("a?").unwrap();
    assert_eq!(r, ast_seq(vec![AST::Question(Box::new(ast_char('a')))]));
}

#[test]
fn nested_quantifiers_are_accepted() {
    let r = parse("a**").unwrap();
    assert_eq!(
        r,
        ast_seq(vec![AST::Star(Box::new(AST::Star(Box::new(ast_char('a')))))])
    );
}

#[test]
fn alternation_leans_right() {
    let r = parse("a|b|c").unwrap();
    assert_eq!(
        r,
        AST::Or(
            Box::new(ast_seq(vec![ast_char('a')])),
            Box::new(AST::Or(
                Box::new(ast_seq(vec![ast_char('b')])),
                Box::new(ast_seq(vec![ast_char('c')])),
            )),
        )
    );
}

#[test]
fn two_way_alternation() {
    let r = parse("ab|cd").unwrap();
    assert_eq!(
        r,
        AST::Or(
            Box::new(ast_seq(vec![ast_char('a'), ast_char('b')])),
            Box::new(ast_seq(vec![ast_char('c'), ast_char('d')])),
        )
    );
}

#[test]
fn group_is_one_quantifiable_atom() {
    let r = parse("(ab)+").unwrap();
    assert_eq!(
        r,
        ast_seq(vec![AST::Plus(Box::new(ast_seq(vec![
            ast_char('a'),
            ast_char('b')
        ])))])
    );
}

#[test]
fn group_with_alternation_in_sequence() {
    let r = parse("(a|b)c").unwrap();
    assert_eq!(
        r,
        ast_seq(vec![
            AST::Or(
                Box::new(ast_seq(vec![ast_char('a')])),
                Box::new(ast_seq(vec![ast_char('b')])),
            ),
            ast_char('c'),
        ])
    );
}

#[test]
fn nested_groups() {
    let r = parse("((a))").unwrap();
    assert_eq!(
        r,
        ast_seq(vec![ast_seq(vec![ast_seq(vec![ast_char('a')])])])
    );
}

#[test]
fn quantifier_without_operand_fails() {
    assert_eq!(*parse("+").unwrap_err(), ParseError::NoPrev(0));
    assert_eq!(*parse("*").unwrap_err(), ParseError::NoPrev(0));
    assert_eq!(*parse("?").unwrap_err(), ParseError::NoPrev(0));
}

#[test]
fn alternation_without_left_operand_fails() {
    assert_eq!(*parse("|x").unwrap_err(), ParseError::NoPrev(0));
}

#[test]
fn quantifier_error_carries_its_offset() {
    assert_eq!(*parse("ab(+)").unwrap_err(), ParseError::NoPrev(3));
}

#[test]
fn unmatched_right_paren_fails() {
    assert_eq!(*parse(")").unwrap_err(), ParseError::InvalidRightParen(0));
    assert_eq!(*parse("ab)").unwrap_err(), ParseError::InvalidRightParen(2));
}

#[test]
fn unterminated_group_fails() {
    assert_eq!(*parse("(").unwrap_err(), ParseError::NoRightParen);
    assert_eq!(*parse("(ab").unwrap_err(), ParseError::NoRightParen);
    assert_eq!(*parse("((a)").unwrap_err(), ParseError::NoRightParen);
}

#[test]
fn empty_pattern_fails() {
    assert_eq!(*parse("").unwrap_err(), ParseError::Empty);
}

#[test]
fn invalid_escape_fails_with_offset_and_char() {
    assert_eq!(*parse("\\x").unwrap_err(), ParseError::InvalidEscape(1, 'x'));
    assert_eq!(
        *parse("ab\\n").unwrap_err(),
        ParseError::InvalidEscape(3, 'n')
    );
}

#[test]
fn escaped_metacharacter_is_a_literal() {
    let r = parse("\\(").unwrap();
    assert_eq!(r, ast_seq(vec![ast_char('(')]));
    let r = parse("\\\\").unwrap();
    assert_eq!(r, ast_seq(vec![ast_char('\\')]));
    let r = parse("a\\+b").unwrap();
    assert_eq!(r, ast_seq(vec![ast_char('a'), ast_char('+'), ast_char('b')]));
}

#[test]
fn pattern_of_empty_groups_alone_is_empty() {
    // Groups that contribute no atom leave the whole pattern without
    // matchable content.
    assert_eq!(*parse("()").unwrap_err(), ParseError::Empty);
    assert_eq!(*parse("()()").unwrap_err(), ParseError::Empty);
}

#[test]
fn empty_group_contributes_nothing() {
    assert_eq!(parse("(a)()").unwrap(), parse("(a)").unwrap());
    assert_eq!(
        parse("(a)").unwrap(),
        ast_seq(vec![ast_seq(vec![ast_char('a')])])
    );
}

#[test]
fn parsing_twice_is_deterministic() {
    assert_eq!(parse("a(b|c)*d").unwrap(), parse("a(b|c)*d").unwrap());
    assert_eq!(
        *parse("a|+").unwrap_err(),
        *parse("a|+").unwrap_err()
    );
}

#[test]
fn error_aborts_before_later_characters() {
    // The right-paren error at offset 0 outranks the invalid escape after it.
    assert_eq!(*parse(")\\x").unwrap_err(), ParseError::InvalidRightParen(0));
}

#[test]
fn multibyte_offsets_count_characters() {
    // Offsets are character positions, not byte positions.
    assert_eq!(
        *parse("\u{3042}\u{3044}\\x").unwrap_err(),
        ParseError::InvalidEscape(3, 'x')
    );
}

#[test]
fn trailing_alternation_keeps_left_branch() {
    assert_eq!(parse("a|").unwrap(), ast_seq(vec![ast_char('a')]));
}

#[test]
fn trailing_backslash_is_ignored() {
    assert_eq!(parse("a\\").unwrap(), ast_seq(vec![ast_char('a')]));
}
