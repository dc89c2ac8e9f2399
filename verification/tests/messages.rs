use regex_parse::ParseError;

#[test]
fn invalid_escape_message() {
    let m = ParseError::InvalidEscape(1, 'x').message();
    assert_eq!(m, "ParseError: invalid escape: pos = 1, char = 'x'");
}

#[test]
fn invalid_right_paren_message() {
    let m = ParseError::InvalidRightParen(12).message();
    assert_eq!(m, "ParseError: invalid right parenthesis: pos = 12");
}

#[test]
fn no_prev_message() {
    let m = ParseError::NoPrev(0).message();
    assert_eq!(m, "ParseError: no previous expression: pos = 0");
}

#[test]
fn no_right_paren_message() {
    let m = ParseError::NoRightParen.message();
    assert_eq!(m, "ParseError: no right parenthesis");
}

#[test]
fn empty_message_keeps_the_prescribed_wording() {
    // The error surface prescribes the same text as NoRightParen's here.
    let m = ParseError::Empty.message();
    assert_eq!(m, "ParseError: no right parenthesis");
}

#[test]
fn offsets_render_in_full_decimal() {
    let m = ParseError::NoPrev(90710).message();
    assert_eq!(m, "ParseError: no previous expression: pos = 90710");
    let m = ParseError::NoPrev(1000).message();
    assert_eq!(m, "ParseError: no previous expression: pos = 1000");
}
