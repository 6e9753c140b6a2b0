//! The sentence that greets a user and tells the days to their birthday.

use vstd::prelude::*;
use vstd::string::StringExecFns;

verus! {

/// The character that writes the digit `d`, for `d` from 0 to 9.
pub open spec fn digit(d: nat) -> char {
    (48 + d) as char
}

/// `n` written in decimal digits, without sign or leading zero.
pub open spec fn decimal(n: nat) -> Seq<char>
    decreases n,
{
    if n < 10 {
        seq![digit(n)]
    } else {
        decimal(n / 10).push(digit(n % 10))
    }
}

/// The greeting for the user `name` whose birthday is `days` days away.
pub open spec fn greeting(name: Seq<char>, days: nat) -> Seq<char> {
    "Hello, "@ + name + "! Your birthday is in "@ + decimal(days) + " days"@
}

/// The text of one decimal digit.
fn digit_text(d: u32) -> (text: &'static str)
    requires
        d < 10,
    ensures
        text@ == seq![digit(d as nat)],
{
    proof {
        reveal_strlit("0");
        reveal_strlit("1");
        reveal_strlit("2");
        reveal_strlit("3");
        reveal_strlit("4");
        reveal_strlit("5");
        reveal_strlit("6");
        reveal_strlit("7");
        reveal_strlit("8");
        reveal_strlit("9");
    }
    match d {
        0 => "0",
        1 => "1",
        2 => "2",
        3 => "3",
        4 => "4",
        5 => "5",
        6 => "6",
        7 => "7",
        8 => "8",
        _ => "9",
    }
}

/// `n` written in decimal digits.
pub fn decimal_text(n: u32) -> (text: String)
    ensures
        text@ == decimal(n as nat),
    decreases n,
{
    let mut text = if n < 10 {
        String::new()
    } else {
        decimal_text(n / 10)
    };
    text.append(digit_text(n % 10));
    text
}

/// The greeting for the user `name` whose birthday is `days` days away.
pub fn greeting_text(name: &str, days: u32) -> (text: String)
    ensures
        text@ == greeting(name@, days as nat),
{
    let mut text = String::from_str("Hello, ");
    text.append(name);
    text.append("! Your birthday is in ");
    let count = decimal_text(days);
    text.append(count.as_str());
    text.append(" days");
    text
}

} // verus!
