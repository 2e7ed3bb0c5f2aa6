//! Synthetic identifiers for the generated rules.
//!
//! Every synthetic rule or capture name is derived from the rule set's own
//! name, the index of the rule it belongs to, and the step of the chain, so
//! names from independently rewritten rule sets cannot collide as long as
//! user tokens stay away from the `__cps` prefix.

use vstd::prelude::*;

use crate::token::{Tok, TokV};
use vstd::string::StringExecFns;

verus! {

/// The decimal digit character for `d` (`d < 10`).
pub open spec fn digit_char(d: nat) -> char {
    if d == 0 {
        '0'
    } else if d == 1 {
        '1'
    } else if d == 2 {
        '2'
    } else if d == 3 {
        '3'
    } else if d == 4 {
        '4'
    } else if d == 5 {
        '5'
    } else if d == 6 {
        '6'
    } else if d == 7 {
        '7'
    } else if d == 8 {
        '8'
    } else {
        '9'
    }
}

/// The decimal digits of `n`, most significant first.
pub open spec fn dec_digits(n: nat) -> Seq<char>
    decreases n,
{
    if n < 10 {
        seq![digit_char(n)]
    } else {
        dec_digits(n / 10).push(digit_char(n % 10))
    }
}

fn digit_str(d: u64) -> (r: &'static str)
    requires
        d < 10,
    ensures
        r@ == seq![digit_char(d as nat)],
{
    let r: &'static str = match d {
        0 => "0",
        1 => "1",
        2 => "2",
        3 => "3",
        4 => "4",
        5 => "5",
        6 => "6",
        7 => "7",
        8 => "8",
        _ => "9",
    };
    proof {
        reveal_strlit("0");
        reveal_strlit("1");
        reveal_strlit("2");
        reveal_strlit("3");
        reveal_strlit("4");
        reveal_strlit("5");
        reveal_strlit("6");
        reveal_strlit("7");
        reveal_strlit("8");
        reveal_strlit("9");
    }
    r
}

/// Append the decimal digits of `n` to `s`.
pub fn append_dec(s: &mut String, n: u64)
    ensures
        final(s)@ == old(s)@ + dec_digits(n as nat),
    decreases n,
{
    if n >= 10 {
        append_dec(s, n / 10);
        s.append(digit_str(n % 10));
        proof {
            assert(s@ =~= old(s)@ + dec_digits(n as nat));
        }
    } else {
        s.append(digit_str(n));
        proof {
            assert(s@ =~= old(s)@ + dec_digits(n as nat));
        }
    }
}

/// A synthetic name: `prefix`, the rule set's name, then the rule index and
/// the chain step, separated by underscores.
pub open spec fn synth_name(prefix: Seq<char>, m: Seq<char>, r: nat, j: nat) -> Seq<char> {
    prefix + m + "_"@ + dec_digits(r) + "_"@ + dec_digits(j)
}

/// Build the synthetic identifier `synth_name(prefix@, m@, r, j)`.
pub fn synth_ident(prefix: &str, m: &String, r: u64, j: u64) -> (t: Tok)
    ensures
        t@ == TokV::Ident(synth_name(prefix@, m@, r as nat, j as nat)),
{
    let mut s: String = String::from_str(prefix);
    s.append(m.as_str());
    s.append("_");
    append_dec(&mut s, r);
    s.append("_");
    append_dec(&mut s, j);
    proof {
        assert(s@ =~= synth_name(prefix@, m@, r as nat, j as nat));
    }
    Tok::Ident(s)
}

/// The name of the resumption rule for step `j` of rule `r` of rule set `m`.
pub open spec fn step_marker(m: Seq<char>, r: nat, j: nat) -> Seq<char> {
    synth_name("__cps_s_"@, m, r, j)
}

/// Build the step-marker identifier token.
pub fn step_marker_ident(m: &String, r: u64, j: u64) -> (t: Tok)
    ensures
        t@ == TokV::Ident(step_marker(m@, r as nat, j as nat)),
{
    synth_ident("__cps_s_", m, r, j)
}

/// The synthetic capture holding a continuation's rule-set name.
pub open spec fn cap_kn(m: Seq<char>, r: nat, j: nat) -> Seq<char> {
    synth_name("__cps_kn_"@, m, r, j)
}

/// The synthetic capture holding a continuation's resumption-rule name.
pub open spec fn cap_km(m: Seq<char>, r: nat, j: nat) -> Seq<char> {
    synth_name("__cps_km_"@, m, r, j)
}

/// The synthetic capture holding a continuation's carried tokens.
pub open spec fn cap_kc(m: Seq<char>, r: nat, j: nat) -> Seq<char> {
    synth_name("__cps_kc_"@, m, r, j)
}

} // verus!
