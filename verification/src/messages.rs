//! Human-readable rendering of a parse error, verified down to the decimal
//! digits of the reported offset.

use vstd::prelude::*;
use vstd::string::StrSliceExecFns;
use vstd::string::StringExecFns;

use crate::ast::ParseError;

verus! {

/// The character that writes one decimal digit.
pub open spec fn digit_char(d: nat) -> char
    recommends
        d < 10,
{
    if d == 0 {
        '0'
    } else if d == 1 {
        '1'
    } else if d == 2 {
        '2'
    } else if d == 3 {
        '3'
    } else if d == 4 {
        '4'
    } else if d == 5 {
        '5'
    } else if d == 6 {
        '6'
    } else if d == 7 {
        '7'
    } else if d == 8 {
        '8'
    } else {
        '9'
    }
}

/// The decimal digits of `n`, most significant first, with no leading
/// zeros except for `n == 0` itself.
pub open spec fn decimal_digits(n: nat) -> Seq<char>
    decreases n,
{
    if n < 10 {
        seq![digit_char(n)]
    } else {
        decimal_digits(n / 10).push(digit_char(n % 10))
    }
}

fn digit_str(d: usize) -> (r: &'static str)
    requires
        d < 10,
    ensures
        r@ == seq![digit_char(d as nat)],
{
    let r: &'static str = if d == 0 {
        "0"
    } else if d == 1 {
        "1"
    } else if d == 2 {
        "2"
    } else if d == 3 {
        "3"
    } else if d == 4 {
        "4"
    } else if d == 5 {
        "5"
    } else if d == 6 {
        "6"
    } else if d == 7 {
        "7"
    } else if d == 8 {
        "8"
    } else {
        "9"
    };
    proof {
        reveal_strlit("0");
        reveal_strlit("1");
        reveal_strlit("2");
        reveal_strlit("3");
        reveal_strlit("4");
        reveal_strlit("5");
        reveal_strlit("6");
        reveal_strlit("7");
        reveal_strlit("8");
        reveal_strlit("9");
        assert(r@ =~= seq![digit_char(d as nat)]);
    }
    r
}

/// Writes `n` in decimal.
pub fn decimal_string(n: usize) -> (s: String)
    ensures
        s@ == decimal_digits(n as nat),
    decreases n,
{
    if n < 10 {
        digit_str(n).to_owned()
    } else {
        let mut s = decimal_string(n / 10);
        let ghost high = s@;
        s.append(digit_str(n % 10));
        proof {
            assert(high + seq![digit_char((n % 10) as nat)] =~= high.push(
                digit_char((n % 10) as nat),
            ));
        }
        s
    }
}

/// Relies on `String::push`: appends the given character to the end of the
/// string.
#[verifier::external_body]
fn push_char(s: &mut String, c: char)
    ensures
        final(s)@ == old(s)@.push(c),
{
    s.push(c);
}

impl ParseError {
    /// The message text of this error. The `Empty` variant keeps the same
    /// wording as `NoRightParen`, as the error surface prescribes.
    pub open spec fn spec_message(self) -> Seq<char> {
        match self {
            ParseError::InvalidEscape(pos, c) => "ParseError: invalid escape: pos = "@
                + decimal_digits(pos as nat) + ", char = '"@ + seq![c] + "'"@,
            ParseError::InvalidRightParen(pos) => "ParseError: invalid right parenthesis: pos = "@
                + decimal_digits(pos as nat),
            ParseError::NoPrev(pos) => "ParseError: no previous expression: pos = "@
                + decimal_digits(pos as nat),
            ParseError::NoRightParen => "ParseError: no right parenthesis"@,
            ParseError::Empty => "ParseError: no right parenthesis"@,
        }
    }

    /// Renders the message a caller is expected to surface verbatim.
    pub fn message(&self) -> (s: String)
        ensures
            s@ == self.spec_message(),
    {
        match self {
            ParseError::InvalidEscape(pos, c) => {
                let mut s = "ParseError: invalid escape: pos = ".to_owned();
                let num = decimal_string(*pos);
                s.append(num.as_str());
                s.append(", char = '");
                push_char(&mut s, *c);
                s.append("'");
                proof {
                    assert(s@ =~= self.spec_message());
                }
                s
            },
            ParseError::InvalidRightParen(pos) => {
                let mut s = "ParseError: invalid right parenthesis: pos = ".to_owned();
                let num = decimal_string(*pos);
                s.append(num.as_str());
                proof {
                    assert(s@ =~= self.spec_message());
                }
                s
            },
            ParseError::NoPrev(pos) => {
                let mut s = "ParseError: no previous expression: pos = ".to_owned();
                let num = decimal_string(*pos);
                s.append(num.as_str());
                proof {
                    assert(s@ =~= self.spec_message());
                }
                s
            },
            ParseError::NoRightParen => "ParseError: no right parenthesis".to_owned(),
            ParseError::Empty => "ParseError: no right parenthesis".to_owned(),
        }
    }
}

} // verus!
