use vstd::prelude::*;

verus! {

/// An error with a numeric code and a message.
#[derive(Debug)]
pub struct MyError {
    pub code: u32,
    pub message: String,
}

/// The character for one decimal digit.
pub open spec fn digit_char(d: nat) -> char {
    if d == 0 {
        '0'
    } else if d == 1 {
        '1'
    } else if d == 2 {
        '2'
    } else if d == 3 {
        '3'
    } else if d == 4 {
        '4'
    } else if d == 5 {
        '5'
    } else if d == 6 {
        '6'
    } else if d == 7 {
        '7'
    } else if d == 8 {
        '8'
    } else {
        '9'
    }
}

/// The decimal digits of a number, most significant first, with no leading
/// zero except on zero itself.
pub open spec fn decimal_digits(n: nat) -> Seq<char>
    decreases n,
{
    if n < 10 {
        seq![digit_char(n)]
    } else {
        decimal_digits(n / 10).push(digit_char(n % 10))
    }
}

/// The one line the error shows: its code in decimal and its message behind
/// a fixed prefix.
pub open spec fn error_line(code: nat, message: Seq<char>) -> Seq<char> {
    "Error "@ + decimal_digits(code) + ": "@ + message
}

/// Relies on the format macro with core::fmt's Display for u32 and str: the
/// number in decimal digits with no leading zero, the text as it is.
#[verifier::external_body]
fn format_error_line(code: u32, message: &str) -> (r: String)
    ensures
        r@ == error_line(code as nat, message@),
{
    format!("Error {}: {}", code, message)
}

impl MyError {
    /// The line the error displays, `Error <code>: <message>`.
    pub fn display_string(&self) -> (r: String)
        ensures
            r@ == error_line(self.code as nat, self.message@),
    {
        format_error_line(self.code, self.message.as_str())
    }
}

} // verus!
