//! The session token that a login hands back. It is a label made of the
//! identity and two clock readings, for people to read in logs: it proves
//! nothing about its holder and is never checked.

use vstd::prelude::*;

verus! {

/// How long a session lasts: 24 hours, in nanoseconds.
pub const SESSION_NANOS: u64 = 24 * 60 * 60 * 1_000_000_000;

/// The character of a decimal digit.
pub open spec fn digit(d: int) -> char
    recommends
        0 <= d < 10,
{
    if d == 0 {
        '0'
    } else if d == 1 {
        '1'
    } else if d == 2 {
        '2'
    } else if d == 3 {
        '3'
    } else if d == 4 {
        '4'
    } else if d == 5 {
        '5'
    } else if d == 6 {
        '6'
    } else if d == 7 {
        '7'
    } else if d == 8 {
        '8'
    } else {
        '9'
    }
}

/// A number in decimal, without leading zeros.
pub open spec fn decimal(n: nat) -> Seq<char>
    decreases n,
{
    if n < 10 {
        seq![digit(n as int)]
    } else {
        decimal(n / 10).push(digit((n % 10) as int))
    }
}

/// The token of a login by `identity`, made at clock reading `at_token`,
/// that set the last login to `at_login`.
pub open spec fn session_token(identity: Seq<char>, at_login: u64, at_token: u64) -> Seq<char> {
    "icp_token_"@ + identity + "_"@ + decimal(at_login as nat) + "_"@ + decimal(at_token as nat)
}

/// The text of one decimal digit.
fn digit_text(d: u64) -> (text: &'static str)
    requires
        d < 10,
    ensures
        text@ == seq![digit(d as int)],
{
    proof {
        reveal_strlit("0");
        reveal_strlit("1");
        reveal_strlit("2");
        reveal_strlit("3");
        reveal_strlit("4");
        reveal_strlit("5");
        reveal_strlit("6");
        reveal_strlit("7");
        reveal_strlit("8");
        reveal_strlit("9");
    }
    let text = if d == 0 {
        "0"
    } else if d == 1 {
        "1"
    } else if d == 2 {
        "2"
    } else if d == 3 {
        "3"
    } else if d == 4 {
        "4"
    } else if d == 5 {
        "5"
    } else if d == 6 {
        "6"
    } else if d == 7 {
        "7"
    } else if d == 8 {
        "8"
    } else {
        "9"
    };
    assert(text@ =~= seq![digit(d as int)]);
    text
}

/// Writes a number in decimal.
pub fn decimal_text(n: u64) -> (text: String)
    ensures
        text@ == decimal(n as nat),
    decreases n,
{
    if n < 10 {
        digit_text(n).to_owned()
    } else {
        let text = decimal_text(n / 10).concat(digit_text(n % 10));
        assert(text@ =~= decimal(n as nat));
        text
    }
}

/// Makes the token of a login.
pub fn make_session_token(identity: &str, at_login: u64, at_token: u64) -> (token: String)
    ensures
        token@ == session_token(identity@, at_login, at_token),
{
    let login = decimal_text(at_login);
    let made = decimal_text(at_token);
    "icp_token_".to_owned().concat(identity).concat("_").concat(login.as_str()).concat("_").concat(
        made.as_str(),
    )
}

} // verus!
