//! Text comparisons that the library's rules rest on.

use vstd::prelude::*;
use vstd::string::StringExecFns;

verus! {

/// Calls `<str as PartialEq>::eq`, which compares the two texts char for char.
#[verifier::external_body]
pub fn str_equal(a: &str, b: &str) -> (r: bool)
    ensures
        r == (a@ == b@),
{
    a == b
}

/// What `str::trim` leaves of a text: the text without its leading and
/// trailing Unicode whitespace.
pub uninterp spec fn spec_trim(text: Seq<char>) -> Seq<char>;

/// Whether `text.trim()` leaves nothing: every char of the text is
/// Unicode whitespace.
pub open spec fn spec_is_blank(text: Seq<char>) -> bool {
    spec_trim(text).len() == 0
}

/// An ASCII letter or digit, which is never whitespace.
pub open spec fn is_ascii_alphanumeric(c: char) -> bool {
    ('a' <= c && c <= 'z') || ('A' <= c && c <= 'Z') || ('0' <= c && c <= '9')
}

/// A space, tab, line feed, form feed or carriage return: the ASCII
/// whitespace, all of it Unicode whitespace.
pub open spec fn is_ascii_space(c: char) -> bool {
    c == ' ' || c == '\t' || c == '\n' || c == '\x0c' || c == '\r'
}

/// Calls `str::trim`. The contract names the result and states what the
/// documentation of `trim` gives: it removes leading and trailing whitespace
/// and nothing else, so nothing is left of an empty text or of one made of
/// ASCII whitespace, and an ASCII letter or digit is never removed.
#[verifier::external_body]
fn trimmed(text: &str) -> (r: &str)
    ensures
        r@ == spec_trim(text@),
        text@.len() == 0 ==> r@.len() == 0,
        (forall|i: int| 0 <= i < text@.len() ==> is_ascii_space(#[trigger] text@[i])) ==> r@.len()
            == 0,
        (exists|i: int| 0 <= i < text@.len() && is_ascii_alphanumeric(#[trigger] text@[i]))
            ==> r@.len() > 0,
{
    text.trim()
}

/// Whether the text is empty or only whitespace.
pub fn is_blank(text: &str) -> (r: bool)
    ensures
        r == spec_is_blank(text@),
        text@.len() == 0 ==> r,
        (forall|i: int| 0 <= i < text@.len() ==> is_ascii_space(#[trigger] text@[i])) ==> r,
        (exists|i: int| 0 <= i < text@.len() && is_ascii_alphanumeric(#[trigger] text@[i])) ==> !r,
{
    trimmed(text).is_empty()
}

/// The decimal digit for `d`, below ten.
pub open spec fn digit_char(d: nat) -> char {
    (48 + d) as char
}

/// The decimal text of a number, without leading zeros.
pub open spec fn decimal(n: nat) -> Seq<char>
    decreases n,
{
    if n < 10 {
        seq![digit_char(n)]
    } else {
        decimal(n / 10).push(digit_char(n % 10))
    }
}

/// The one-char text of a decimal digit.
fn digit_text(d: u64) -> (r: &'static str)
    requires
        d < 10,
    ensures
        r@ == seq![digit_char(d as nat)],
{
    proof {
        reveal_strlit("0");
        reveal_strlit("1");
        reveal_strlit("2");
        reveal_strlit("3");
        reveal_strlit("4");
        reveal_strlit("5");
        reveal_strlit("6");
        reveal_strlit("7");
        reveal_strlit("8");
        reveal_strlit("9");
    }
    let r = if d == 0 {
        "0"
    } else if d == 1 {
        "1"
    } else if d == 2 {
        "2"
    } else if d == 3 {
        "3"
    } else if d == 4 {
        "4"
    } else if d == 5 {
        "5"
    } else if d == 6 {
        "6"
    } else if d == 7 {
        "7"
    } else if d == 8 {
        "8"
    } else {
        "9"
    };
    assert(r@ =~= seq![digit_char(d as nat)]);
    r
}

/// The number written in decimal, without leading zeros.
pub fn decimal_text_u64(n: u64) -> (r: String)
    ensures
        r@ == decimal(n as nat),
    decreases n,
{
    if n < 10 {
        String::from_str(digit_text(n))
    } else {
        let mut text = decimal_text_u64(n / 10);
        text.append(digit_text(n % 10));
        assert(text@ =~= decimal((n / 10) as nat).push(digit_char((n % 10) as nat)));
        text
    }
}

/// The number written in decimal, without leading zeros.
pub fn decimal_text(n: usize) -> (r: String)
    ensures
        r@ == decimal(n as nat),
{
    decimal_text_u64(n as u64)
}

} // verus!
