//! Decimal rendering of line and column numbers, and the location text
//! `origin:line:column` carried by the synthesized attribute.

use vstd::prelude::*;
use vstd::string::*;

verus! {

/// The decimal digit character for `d` (meaningful for `d < 10`).
pub open spec fn digit_char(d: nat) -> char {
    if d == 0 {
        '0'
    } else if d == 1 {
        '1'
    } else if d == 2 {
        '2'
    } else if d == 3 {
        '3'
    } else if d == 4 {
        '4'
    } else if d == 5 {
        '5'
    } else if d == 6 {
        '6'
    } else if d == 7 {
        '7'
    } else if d == 8 {
        '8'
    } else {
        '9'
    }
}

/// The decimal digit sequence of `n`, most significant digit first, with
/// no leading zeros (and `0` itself rendered as one digit).
pub open spec fn dec_digits(n: nat) -> Seq<char>
    decreases n,
{
    if n < 10 {
        seq![digit_char(n)]
    } else {
        dec_digits(n / 10).push(digit_char(n % 10))
    }
}

/// The location text for an origin path, a line and a column:
/// `origin:line:column`. An empty origin yields a leading colon.
pub open spec fn loc_text(origin: Seq<char>, line: nat, col: nat) -> Seq<char> {
    origin + seq![':'] + dec_digits(line) + seq![':'] + dec_digits(col)
}

/// The one-character string of a decimal digit.
fn digit_string(d: u32) -> (s: String)
    requires
        d < 10,
    ensures
        s@ == seq![digit_char(d as nat)],
{
    let t: &str = if d == 0 {
        "0"
    } else if d == 1 {
        "1"
    } else if d == 2 {
        "2"
    } else if d == 3 {
        "3"
    } else if d == 4 {
        "4"
    } else if d == 5 {
        "5"
    } else if d == 6 {
        "6"
    } else if d == 7 {
        "7"
    } else if d == 8 {
        "8"
    } else {
        "9"
    };
    proof {
        reveal_strlit("0");
        reveal_strlit("1");
        reveal_strlit("2");
        reveal_strlit("3");
        reveal_strlit("4");
        reveal_strlit("5");
        reveal_strlit("6");
        reveal_strlit("7");
        reveal_strlit("8");
        reveal_strlit("9");
        assert(t@ =~= seq![digit_char(d as nat)]);
    }
    t.to_owned()
}

/// Renders `n` in decimal.
pub fn u32_decimal(n: u32) -> (s: String)
    ensures
        s@ == dec_digits(n as nat),
    decreases n,
{
    if n < 10 {
        digit_string(n)
    } else {
        let mut s = u32_decimal(n / 10);
        let ds = digit_string(n % 10);
        s.append(ds.as_str());
        proof {
            assert(s@ =~= dec_digits((n / 10) as nat).push(digit_char((n % 10) as nat)));
        }
        s
    }
}

/// Formats the location text `origin:line:column`.
pub fn format_location(origin: &str, line: u32, col: u32) -> (s: String)
    ensures
        s@ == loc_text(origin@, line as nat, col as nat),
{
    let mut s = origin.to_owned();
    s.append(":");
    let ls = u32_decimal(line);
    s.append(ls.as_str());
    s.append(":");
    let cs = u32_decimal(col);
    s.append(cs.as_str());
    proof {
        reveal_strlit(":");
        assert(s@ =~= loc_text(origin@, line as nat, col as nat));
    }
    s
}

} // verus!
