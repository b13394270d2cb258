//! Diagnostic text for identities.
//!
//! What a handle prints is purely cosmetic: nothing of it takes part in
//! equality, ordering or hashing. A run-time tag renders as its decimal
//! digits, proved here character by character.

use vstd::prelude::*;
use vstd::string::StringExecFns;

verus! {

/// The decimal digit character for `d`.
pub open spec fn digit_char(d: nat) -> char
    recommends
        d < 10,
{
    ((48 + d) as u8) as char
}

/// The decimal digits of `n`, most significant first, with no leading
/// zeros except for zero itself.
pub open spec fn decimal_digits(n: nat) -> Seq<char>
    decreases n,
{
    if n < 10 {
        seq![digit_char(n)]
    } else {
        decimal_digits(n / 10).push(digit_char(n % 10))
    }
}

/// The text a run-time identity falls back to: its tag's decimal digits
/// between a fixed prefix and a closing parenthesis.
pub open spec fn external_text(tag: u64) -> Seq<char> {
    "external("@ + decimal_digits(tag as nat) + ")"@
}

/// The one-character string for the decimal digit `d`.
fn digit_str(d: u64) -> (c: &'static str)
    requires
        d < 10,
    ensures
        c@ == seq![digit_char(d as nat)],
{
    proof {
        reveal_strlit("0");
        reveal_strlit("1");
        reveal_strlit("2");
        reveal_strlit("3");
        reveal_strlit("4");
        reveal_strlit("5");
        reveal_strlit("6");
        reveal_strlit("7");
        reveal_strlit("8");
        reveal_strlit("9");
    }
    if d == 0 {
        "0"
    } else if d == 1 {
        "1"
    } else if d == 2 {
        "2"
    } else if d == 3 {
        "3"
    } else if d == 4 {
        "4"
    } else if d == 5 {
        "5"
    } else if d == 6 {
        "6"
    } else if d == 7 {
        "7"
    } else if d == 8 {
        "8"
    } else {
        "9"
    }
}

/// Appends the decimal digits of `n` to `s`.
fn append_decimal(s: &mut String, n: u64)
    ensures
        final(s)@ == old(s)@ + decimal_digits(n as nat),
    decreases n,
{
    if n < 10 {
        let c = digit_str(n);
        s.append(c);
        proof {
            assert(final(s)@ =~= old(s)@ + decimal_digits(n as nat));
        }
    } else {
        append_decimal(s, n / 10);
        let c = digit_str(n % 10);
        s.append(c);
        proof {
            assert((n / 10) as nat == (n as nat) / 10);
            assert((n % 10) as nat == (n as nat) % 10);
            assert(final(s)@ =~= old(s)@ + decimal_digits(n as nat));
        }
    }
}

/// The decimal rendering of `n`.
pub fn decimal_string(n: u64) -> (r: String)
    ensures
        r@ == decimal_digits(n as nat),
{
    let mut s = String::new();
    append_decimal(&mut s, n);
    proof {
        assert(s@ =~= decimal_digits(n as nat));
    }
    s
}

/// The fallback rendering of a run-time identity's tag.
pub fn external_string(tag: u64) -> (r: String)
    ensures
        r@ == external_text(tag),
{
    let mut s = "external(".to_owned();
    append_decimal(&mut s, tag);
    s.append(")");
    proof {
        assert(s@ =~= external_text(tag));
    }
    s
}

} // verus!
