//! A model of the host rewrite engine, used to state and test what the
//! rewrite guarantees.
//!
//! The host engine is external to this crate: it picks the first arm whose
//! matcher matches the call's tokens, substitutes the captured fragments
//! into the arm's replacement, and re-expands the result while it is again
//! a single call `name ! ( args )`.  These functions model that discipline
//! over the token model, with two simplifications that the generated rules
//! stay within: an `expr` capture takes the whole remaining token sequence
//! of its group, and a repetition `$($x:tt)*` stands last in its group and
//! takes all remaining token trees.

use vstd::prelude::*;

use crate::ast::{FragKind, GenRuleV};
use crate::parse::spec_frag_of;
use crate::token::{Delim, TokV};

verus! {

/// One capture made while matching: a name and the tokens it took.
#[verifier::ext_equal]
pub struct BindV {
    pub name: Seq<char>,
    pub val: Seq<TokV>,
}

/// The value of the first capture named `name`.
pub open spec fn spec_lookup(bs: Seq<BindV>, name: Seq<char>) -> Option<Seq<TokV>>
    decreases bs,
{
    if bs.len() == 0 {
        None
    } else if bs[0].name == name {
        Some(bs[0].val)
    } else {
        spec_lookup(bs.drop_first(), name)
    }
}

/// Match `inp` against the matcher `pat`, producing the captures in order.
pub open spec fn spec_match(pat: Seq<TokV>, inp: Seq<TokV>) -> Option<Seq<BindV>>
    decreases pat,
{
    if pat.len() == 0 {
        if inp.len() == 0 {
            Some(seq![])
        } else {
            None
        }
    } else if pat.len() >= 4 && pat[0] == TokV::Punct('$') && pat[1] is Ident && pat[2]
        == TokV::Punct(':') && pat[3] is Ident && spec_frag_of(pat[3]->Ident_0) is Some {
        match spec_frag_of(pat[3]->Ident_0)->Some_0 {
            FragKind::Tt => if inp.len() >= 1 {
                match spec_match(pat.skip(4), inp.skip(1)) {
                    Some(bs) => Some(
                        seq![BindV { name: pat[1]->Ident_0, val: seq![inp[0]] }] + bs,
                    ),
                    None => None,
                }
            } else {
                None
            },
            FragKind::Ident => if inp.len() >= 1 && inp[0] is Ident {
                match spec_match(pat.skip(4), inp.skip(1)) {
                    Some(bs) => Some(
                        seq![BindV { name: pat[1]->Ident_0, val: seq![inp[0]] }] + bs,
                    ),
                    None => None,
                }
            } else {
                None
            },
            FragKind::Literal => if inp.len() >= 1 && inp[0] is Lit {
                match spec_match(pat.skip(4), inp.skip(1)) {
                    Some(bs) => Some(
                        seq![BindV { name: pat[1]->Ident_0, val: seq![inp[0]] }] + bs,
                    ),
                    None => None,
                }
            } else {
                None
            },
            FragKind::Expr => if pat.len() == 4 {
                Some(seq![BindV { name: pat[1]->Ident_0, val: inp }])
            } else {
                None
            },
        }
    } else if pat.len() == 3 && pat[0] == TokV::Punct('$') && pat[1] is Group && pat[1]->Group_0
        == Delim::Paren && pat[2] == TokV::Punct('*') && pat[1]->Group_1.len() == 4 && pat[1]->Group_1[0]
        == TokV::Punct('$') && pat[1]->Group_1[1] is Ident {
        Some(seq![BindV { name: pat[1]->Group_1[1]->Ident_0, val: inp }])
    } else if pat[0] is Group {
        if inp.len() >= 1 && inp[0] is Group && inp[0]->Group_0 == pat[0]->Group_0 {
            match spec_match(pat[0]->Group_1, inp[0]->Group_1) {
                Some(bs1) => match spec_match(pat.skip(1), inp.skip(1)) {
                    Some(bs2) => Some(bs1 + bs2),
                    None => None,
                },
                None => None,
            }
        } else {
            None
        }
    } else {
        if inp.len() >= 1 && inp[0] == pat[0] {
            spec_match(pat.skip(1), inp.skip(1))
        } else {
            None
        }
    }
}

/// Substitute the captures `bs` into the replacement `body`: `$x` splices
/// the captured tokens, `$(...)​*` splices its substituted contents, groups
/// are rewritten inside, everything else is copied.
pub open spec fn spec_subst(body: Seq<TokV>, bs: Seq<BindV>) -> Seq<TokV>
    decreases body,
{
    if body.len() == 0 {
        seq![]
    } else if body.len() >= 2 && body[0] == TokV::Punct('$') && body[1] is Ident && spec_lookup(
        bs,
        body[1]->Ident_0,
    ) is Some {
        spec_lookup(bs, body[1]->Ident_0)->Some_0 + spec_subst(body.skip(2), bs)
    } else if body.len() >= 3 && body[0] == TokV::Punct('$') && body[1] is Group && body[1]->Group_0
        == Delim::Paren && body[2] == TokV::Punct('*') {
        spec_subst(body[1]->Group_1, bs) + spec_subst(body.skip(3), bs)
    } else if body[0] is Group {
        seq![TokV::Group(body[0]->Group_0, spec_subst(body[0]->Group_1, bs))] + spec_subst(
            body.skip(1),
            bs,
        )
    } else {
        seq![body[0]] + spec_subst(body.skip(1), bs)
    }
}

/// The first arm whose matcher matches `inp`, with its captures.
pub open spec fn spec_first_match(rules: Seq<GenRuleV>, inp: Seq<TokV>) -> Option<
    (int, Seq<BindV>),
>
    decreases rules,
{
    if rules.len() == 0 {
        None
    } else {
        match spec_match(rules[0].matcher, inp) {
            Some(bs) => Some((0, bs)),
            None => match spec_first_match(rules.drop_first(), inp) {
                Some(p) => Some((p.0 + 1, p.1)),
                None => None,
            },
        }
    }
}

/// One expansion step: the substituted replacement of the first matching
/// arm, or nothing when no arm matches.
pub open spec fn spec_expand_once(rules: Seq<GenRuleV>, inp: Seq<TokV>) -> Option<Seq<TokV>> {
    match spec_first_match(rules, inp) {
        Some(p) => Some(spec_subst(rules[p.0].body, p.1)),
        None => None,
    }
}

/// The source text of one token tree.
pub open spec fn spec_render_tok(t: TokV) -> Seq<char>
    decreases t,
{
    match t {
        TokV::Ident(s) => s,
        TokV::Lit(s) => s,
        TokV::Punct(c) => seq![c],
        TokV::Group(d, ts) => {
            let open_c: char = match d {
                Delim::Paren => '(',
                Delim::Bracket => '[',
                Delim::Brace => '{',
            };
            let close_c: char = match d {
                Delim::Paren => ')',
                Delim::Bracket => ']',
                Delim::Brace => '}',
            };
            seq![open_c] + spec_render(ts) + seq![close_c]
        },
    }
}

/// The source text of a token sequence, tokens separated by single spaces.
pub open spec fn spec_render(ts: Seq<TokV>) -> Seq<char>
    decreases ts,
{
    if ts.len() == 0 {
        seq![]
    } else if ts.len() == 1 {
        spec_render_tok(ts[0])
    } else {
        spec_render_tok(ts[0]) + seq![' '] + spec_render(ts.drop_first())
    }
}

/// One rule set the host engine knows, by name.
#[verifier::ext_equal]
pub struct RsEnt {
    pub name: Seq<char>,
    pub rules: Seq<GenRuleV>,
}

/// The rules of the first entry named `name`.
pub open spec fn spec_env_lookup(env: Seq<RsEnt>, name: Seq<char>) -> Option<Seq<GenRuleV>>
    decreases env,
{
    if env.len() == 0 {
        None
    } else if env[0].name == name {
        Some(env[0].rules)
    } else {
        spec_env_lookup(env.drop_first(), name)
    }
}

/// Why an expansion stopped without a result.
#[derive(Clone, Copy, PartialEq, Eq, Structural, Debug)]
pub enum ExpandErr {
    /// The recursion budget ran out.
    OutOfFuel,
    /// A call named a rule set the engine does not know.
    UnknownRuleSet,
    /// No arm of the called rule set matched the call's tokens.
    NoRuleMatched,
}

/// Whether a replacement is exactly one call `name ! ( args )`.
pub open spec fn spec_is_call(out: Seq<TokV>) -> bool {
    out.len() == 3 && out[0] is Ident && out[1] == TokV::Punct('!') && out[2] is Group
        && out[2]->Group_0 == Delim::Paren
}

/// Expand a call of `name` on `args` to a fixed point, re-expanding while
/// the result is again a single call.  `stringify` is built in: it yields
/// one string literal holding its arguments' source text.
pub open spec fn spec_expand(env: Seq<RsEnt>, name: Seq<char>, args: Seq<TokV>, fuel: nat)
    -> Result<Seq<TokV>, ExpandErr>
    decreases fuel,
{
    if fuel == 0 {
        Err(ExpandErr::OutOfFuel)
    } else if name == "stringify"@ {
        Ok(seq![TokV::Lit(seq!['"'] + spec_render(args) + seq!['"'])])
    } else {
        match spec_env_lookup(env, name) {
            None => Err(ExpandErr::UnknownRuleSet),
            Some(rules) => match spec_first_match(rules, args) {
                None => Err(ExpandErr::NoRuleMatched),
                Some(p) => {
                    let out = spec_subst(rules[p.0].body, p.1);
                    if spec_is_call(out) {
                        spec_expand(env, out[0]->Ident_0, out[2]->Group_1, (fuel - 1) as nat)
                    } else {
                        Ok(out)
                    }
                },
            },
        }
    }
}

} // verus!
