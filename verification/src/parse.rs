//! Recognizing the extended rule syntax.
//!
//! A rule-set item is `macro_rules ! name { arms }`.  Each arm is a
//! delimited matcher group, `=>`, then replacement tokens up to the next
//! top-level `;` (the `;` after the last arm may be omitted).  A replacement
//! that begins with the identifier `let` must be a chain,
//! `(let $cap:kind = callee ! ( args ) in)+ { tail }`, and any flaw in that
//! shape is an error at the offending token; any other replacement is kept
//! verbatim.

use vstd::prelude::*;

use crate::ast::{Binding, BindingV, Body, BodyV, FragKind, Rule, RuleSet, RuleSetV, RuleV,
    bindings_view, rules_view};
use crate::token::{Tok, TokV, tok_clone, tok_is_ident, tok_is_punct, tok_view, toks_clone,
    toks_clone_from, toks_view, lemma_toks_view_len, lemma_toks_view_index};

verus! {

/// Where a parse failed, and how.
#[derive(Clone, Copy, PartialEq, Eq, Structural, Debug)]
pub enum ParseErrorKind {
    /// The item is not `macro_rules ! name { ... }`.
    NotRuleSet,
    /// Expected a delimited matcher group at the start of an arm.
    ArmMatcher,
    /// Expected `=>` after a matcher.
    ArmArrow,
    /// Expected `$` and a capture name after `let`.
    ChainCapture,
    /// Expected `:` and a known fragment kind after the capture.
    ChainConstraint,
    /// Expected `=` after the fragment kind.
    ChainEquals,
    /// Expected `callee ! ( args )` on the right of a binding.
    ChainInvocation,
    /// Expected `in` after the invocation.
    ChainIn,
    /// Expected a single `{ ... }` tail block after the bindings.
    ChainTail,
}

/// A parse failure.  `pos` is the index of the offending token: within the
/// whole item for `NotRuleSet`, within the arm token sequence otherwise.
#[derive(Clone, Copy, PartialEq, Eq, Structural, Debug)]
pub struct ParseError {
    pub kind: ParseErrorKind,
    pub pos: usize,
}

/// The fragment kind named by `s`, if it is one this crate knows.
pub open spec fn spec_frag_of(s: Seq<char>) -> Option<FragKind> {
    if s == "tt"@ {
        Some(FragKind::Tt)
    } else if s == "ident"@ {
        Some(FragKind::Ident)
    } else if s == "literal"@ {
        Some(FragKind::Literal)
    } else if s == "expr"@ {
        Some(FragKind::Expr)
    } else {
        None
    }
}

fn string_is(a: &String, b: &str) -> (r: bool)
    ensures
        r == (a@ == b@),
{
    let o = b.to_owned();
    *a == o
}

fn frag_of(s: &String) -> (r: Option<FragKind>)
    ensures
        r == spec_frag_of(s@),
{
    if string_is(s, "tt") {
        Some(FragKind::Tt)
    } else if string_is(s, "ident") {
        Some(FragKind::Ident)
    } else if string_is(s, "literal") {
        Some(FragKind::Literal)
    } else if string_is(s, "expr") {
        Some(FragKind::Expr)
    } else {
        None
    }
}

/// The position to report for a flaw `k` tokens into a binding: the token
/// itself, or the end of the window when the tokens ran out.
pub open spec fn err_pos(i: int, k: int, hi: int) -> usize {
    if i + k < hi {
        (i + k) as usize
    } else {
        hi as usize
    }
}

fn err_pos_at(i: usize, k: usize, hi: usize) -> (r: usize)
    requires
        i <= hi,
    ensures
        r == err_pos(i as int, k as int, hi as int),
{
    if k < hi - i {
        i + k
    } else {
        hi
    }
}

/// The bindings and tail of a chained replacement `ts[i..hi]`.
pub open spec fn spec_parse_chain(ts: Seq<TokV>, i: int, hi: int) -> Result<
    (Seq<BindingV>, Seq<TokV>),
    ParseError,
>
    decreases hi - i,
{
    if i < hi && ts[i] == TokV::Ident("let"@) {
        if !(i + 1 < hi && ts[i + 1] == TokV::Punct('$')) {
            Err(ParseError { kind: ParseErrorKind::ChainCapture, pos: err_pos(i, 1, hi) })
        } else if !(i + 2 < hi && ts[i + 2] is Ident) {
            Err(ParseError { kind: ParseErrorKind::ChainCapture, pos: err_pos(i, 2, hi) })
        } else if !(i + 3 < hi && ts[i + 3] == TokV::Punct(':')) {
            Err(ParseError { kind: ParseErrorKind::ChainConstraint, pos: err_pos(i, 3, hi) })
        } else if !(i + 4 < hi && ts[i + 4] is Ident && spec_frag_of(ts[i + 4]->Ident_0) is Some) {
            Err(ParseError { kind: ParseErrorKind::ChainConstraint, pos: err_pos(i, 4, hi) })
        } else if !(i + 5 < hi && ts[i + 5] == TokV::Punct('=')) {
            Err(ParseError { kind: ParseErrorKind::ChainEquals, pos: err_pos(i, 5, hi) })
        } else if !(i + 6 < hi && ts[i + 6] is Ident) {
            Err(ParseError { kind: ParseErrorKind::ChainInvocation, pos: err_pos(i, 6, hi) })
        } else if !(i + 7 < hi && ts[i + 7] == TokV::Punct('!')) {
            Err(ParseError { kind: ParseErrorKind::ChainInvocation, pos: err_pos(i, 7, hi) })
        } else if !(i + 8 < hi && ts[i + 8] matches TokV::Group(crate::token::Delim::Paren, _)) {
            Err(ParseError { kind: ParseErrorKind::ChainInvocation, pos: err_pos(i, 8, hi) })
        } else if !(i + 9 < hi && ts[i + 9] == TokV::Ident("in"@)) {
            Err(ParseError { kind: ParseErrorKind::ChainIn, pos: err_pos(i, 9, hi) })
        } else {
            match spec_parse_chain(ts, i + 10, hi) {
                Ok((bs, tail)) => Ok(
                    (
                        seq![
                            BindingV {
                                capture: ts[i + 2]->Ident_0,
                                constraint: spec_frag_of(ts[i + 4]->Ident_0)->Some_0,
                                callee: ts[i + 6]->Ident_0,
                                args: ts[i + 8]->Group_1,
                            },
                        ] + bs,
                        tail,
                    ),
                ),
                Err(e) => Err(e),
            }
        }
    } else {
        if i < hi && (ts[i] matches TokV::Group(crate::token::Delim::Brace, _)) && i + 1 == hi {
            Ok((seq![], ts[i]->Group_1))
        } else {
            Err(ParseError { kind: ParseErrorKind::ChainTail, pos: i as usize })
        }
    }
}

/// The parsed replacement `ts[lo..hi]`: a chain if it starts with `let`,
/// the verbatim tokens otherwise.
pub open spec fn spec_parse_body(ts: Seq<TokV>, lo: int, hi: int) -> Result<BodyV, ParseError> {
    if lo < hi && ts[lo] == TokV::Ident("let"@) {
        match spec_parse_chain(ts, lo, hi) {
            Ok((bs, tail)) => Ok(BodyV::Chained(bs, tail)),
            Err(e) => Err(e),
        }
    } else {
        Ok(BodyV::Immediate(ts.subrange(lo, hi)))
    }
}

/// The first index at or after `i` holding a top-level `;`, or the length.
pub open spec fn spec_find_semi(ts: Seq<TokV>, i: int) -> int
    decreases ts.len() - i,
{
    if i < 0 || i >= ts.len() {
        ts.len() as int
    } else if ts[i] == TokV::Punct(';') {
        i
    } else {
        spec_find_semi(ts, i + 1)
    }
}

pub proof fn lemma_find_semi_bounds(ts: Seq<TokV>, i: int)
    requires
        0 <= i <= ts.len(),
    ensures
        i <= spec_find_semi(ts, i) <= ts.len(),
    decreases ts.len() - i,
{
    if i < ts.len() && !(ts[i] == TokV::Punct(';')) {
        lemma_find_semi_bounds(ts, i + 1);
    }
}

/// The rules parsed from the arm tokens `ts[i..]`.
pub open spec fn spec_parse_arms(ts: Seq<TokV>, i: int) -> Result<Seq<RuleV>, ParseError>
    decreases ts.len() - i,
    via spec_parse_arms_decreases
{
    if i >= ts.len() {
        Ok(seq![])
    } else if !(ts[i] is Group) {
        Err(ParseError { kind: ParseErrorKind::ArmMatcher, pos: i as usize })
    } else if !(i + 2 < ts.len() && ts[i + 1] == TokV::Punct('=') && ts[i + 2] == TokV::Punct(
        '>',
    )) {
        Err(ParseError { kind: ParseErrorKind::ArmArrow, pos: (i + 1) as usize })
    } else {
        let j = spec_find_semi(ts, i + 3);
        match spec_parse_body(ts, i + 3, j) {
            Ok(b) => match spec_parse_arms(ts, if j < ts.len() { j + 1 } else { ts.len() as int }) {
                Ok(rest) => Ok(seq![RuleV { matcher: ts[i]->Group_1, body: b }] + rest),
                Err(e) => Err(e),
            },
            Err(e) => Err(e),
        }
    }
}

#[via_fn]
proof fn spec_parse_arms_decreases(ts: Seq<TokV>, i: int) {
    if 0 <= i + 3 <= ts.len() {
        lemma_find_semi_bounds(ts, i + 3);
    }
}

/// The rule set parsed from a whole `macro_rules ! name { arms }` item.
/// Positions in an error from the arms are relative to the arm tokens.
pub open spec fn spec_parse_item(item: Seq<TokV>) -> Result<RuleSetV, ParseError> {
    if !(item.len() == 4 && item[0] == TokV::Ident("macro_rules"@) && item[1] == TokV::Punct('!')
        && item[2] is Ident && item[3] matches TokV::Group(crate::token::Delim::Brace, _)) {
        Err(ParseError { kind: ParseErrorKind::NotRuleSet, pos: 0 })
    } else {
        match spec_parse_arms(item[3]->Group_1, 0) {
            Ok(rules) => Ok(RuleSetV { name: item[2]->Ident_0, rules }),
            Err(e) => Err(e),
        }
    }
}

fn parse_chain(ts: &Vec<Tok>, i: usize, hi: usize) -> (r: Result<
    (Vec<Binding>, Vec<Tok>),
    ParseError,
>)
    requires
        hi <= ts@.len(),
    ensures
        match r {
            Ok(p) => spec_parse_chain(toks_view(ts@), i as int, hi as int) == Ok::<
                _,
                ParseError,
            >((bindings_view(p.0@), toks_view(p.1@))),
            Err(e) => spec_parse_chain(toks_view(ts@), i as int, hi as int) == Err::<
                (Seq<BindingV>, Seq<TokV>),
                _,
            >(e),
        },
    decreases hi - i,
{
    broadcast use {lemma_toks_view_len, lemma_toks_view_index};

    if i < hi && tok_is_ident(&ts[i], "let") {
        if !(hi - i > 1 && tok_is_punct(&ts[i + 1], '$')) {
            return Err(ParseError { kind: ParseErrorKind::ChainCapture, pos: err_pos_at(i, 1, hi) });
        }
        if !(hi - i > 2) {
            return Err(ParseError { kind: ParseErrorKind::ChainCapture, pos: err_pos_at(i, 2, hi) });
        }
        let cap: String = match &ts[i + 2] {
            Tok::Ident(x) => x.clone(),
            _ => {
                return Err(ParseError { kind: ParseErrorKind::ChainCapture, pos: err_pos_at(i, 2, hi) });
            },
        };
        if !(hi - i > 3 && tok_is_punct(&ts[i + 3], ':')) {
            return Err(ParseError { kind: ParseErrorKind::ChainConstraint, pos: err_pos_at(i, 3, hi) });
        }
        if !(hi - i > 4) {
            return Err(ParseError { kind: ParseErrorKind::ChainConstraint, pos: err_pos_at(i, 4, hi) });
        }
        let frag: FragKind = match &ts[i + 4] {
            Tok::Ident(x) => match frag_of(x) {
                Some(f) => f,
                None => {
                    return Err(ParseError { kind: ParseErrorKind::ChainConstraint, pos: err_pos_at(i, 4, hi) });
                },
            },
            _ => {
                return Err(ParseError { kind: ParseErrorKind::ChainConstraint, pos: err_pos_at(i, 4, hi) });
            },
        };
        if !(hi - i > 5 && tok_is_punct(&ts[i + 5], '=')) {
            return Err(ParseError { kind: ParseErrorKind::ChainEquals, pos: err_pos_at(i, 5, hi) });
        }
        if !(hi - i > 6) {
            return Err(ParseError { kind: ParseErrorKind::ChainInvocation, pos: err_pos_at(i, 6, hi) });
        }
        let callee: String = match &ts[i + 6] {
            Tok::Ident(x) => x.clone(),
            _ => {
                return Err(ParseError { kind: ParseErrorKind::ChainInvocation, pos: err_pos_at(i, 6, hi) });
            },
        };
        if !(hi - i > 7 && tok_is_punct(&ts[i + 7], '!')) {
            return Err(ParseError { kind: ParseErrorKind::ChainInvocation, pos: err_pos_at(i, 7, hi) });
        }
        if !(hi - i > 8) {
            return Err(ParseError { kind: ParseErrorKind::ChainInvocation, pos: err_pos_at(i, 8, hi) });
        }
        let args: Vec<Tok> = match &ts[i + 8] {
            Tok::Group(crate::token::Delim::Paren, a) => toks_clone(a),
            _ => {
                return Err(ParseError { kind: ParseErrorKind::ChainInvocation, pos: err_pos_at(i, 8, hi) });
            },
        };
        if !(hi - i > 9 && tok_is_ident(&ts[i + 9], "in")) {
            return Err(ParseError { kind: ParseErrorKind::ChainIn, pos: err_pos_at(i, 9, hi) });
        }
        match parse_chain(ts, i + 10, hi) {
            Ok((mut bs, tail)) => {
                let ghost old_bs = bs@;
                let b = Binding { capture: cap, constraint: frag, callee, args };
                bs.insert(0, b);
                proof {
                    assert(bs@ =~= seq![b] + old_bs);
                    assert(bindings_view(bs@) =~= seq![b@] + bindings_view(old_bs));
                }
                Ok((bs, tail))
            },
            Err(e) => Err(e),
        }
    } else {
        if i < hi {
            let tail: Option<Vec<Tok>> = match &ts[i] {
                Tok::Group(crate::token::Delim::Brace, t) => Some(toks_clone(t)),
                _ => None,
            };
            match tail {
                Some(t) if i + 1 == hi => {
                    proof {
                        assert(bindings_view(Seq::<Binding>::empty()) =~= Seq::<
                            BindingV,
                        >::empty());
                    }
                    Ok((Vec::new(), t))
                },
                _ => Err(ParseError { kind: ParseErrorKind::ChainTail, pos: i }),
            }
        } else {
            Err(ParseError { kind: ParseErrorKind::ChainTail, pos: i })
        }
    }
}

fn parse_body(ts: &Vec<Tok>, lo: usize, hi: usize) -> (r: Result<Body, ParseError>)
    requires
        lo <= hi <= ts@.len(),
    ensures
        match r {
            Ok(b) => spec_parse_body(toks_view(ts@), lo as int, hi as int) == Ok::<
                _,
                ParseError,
            >(b@),
            Err(e) => spec_parse_body(toks_view(ts@), lo as int, hi as int) == Err::<
                BodyV,
                _,
            >(e),
        },
{
    broadcast use {lemma_toks_view_len, lemma_toks_view_index};

    if lo < hi && tok_is_ident(&ts[lo], "let") {
        match parse_chain(ts, lo, hi) {
            Ok((bs, tail)) => Ok(Body::Chained(bs, tail)),
            Err(e) => Err(e),
        }
    } else {
        let mut imm: Vec<Tok> = Vec::new();
        let mut k: usize = lo;
        proof {
            assert(toks_view(imm@) =~= toks_view(ts@).subrange(lo as int, lo as int));
        }
        while k < hi
            invariant
                lo <= k <= hi <= ts@.len(),
                toks_view(imm@) == toks_view(ts@).subrange(lo as int, k as int),
            decreases hi - k,
        {
            let c = tok_clone(&ts[k]);
            let ghost old_imm = imm@;
            imm.push(c);
            k += 1;
            proof {
                broadcast use {lemma_toks_view_len, lemma_toks_view_index};

                crate::token::lemma_toks_view_push(old_imm, c);
                assert(toks_view(old_imm).push(tok_view(c)) =~= toks_view(ts@).subrange(
                    lo as int,
                    k as int,
                ));
            }
        }
        Ok(Body::Immediate(imm))
    }
}

fn find_semi(ts: &Vec<Tok>, i: usize) -> (r: usize)
    requires
        i <= ts@.len(),
    ensures
        r == spec_find_semi(toks_view(ts@), i as int),
        i <= r <= ts@.len(),
    decreases ts@.len() - i,
{
    broadcast use {lemma_toks_view_len, lemma_toks_view_index};

    if i == ts.len() {
        i
    } else if tok_is_punct(&ts[i], ';') {
        i
    } else {
        find_semi(ts, i + 1)
    }
}

fn parse_arms(ts: &Vec<Tok>, i: usize) -> (r: Result<Vec<Rule>, ParseError>)
    requires
        i <= ts@.len(),
    ensures
        match r {
            Ok(rules) => spec_parse_arms(toks_view(ts@), i as int) == Ok::<_, ParseError>(
                rules_view(rules@),
            ),
            Err(e) => spec_parse_arms(toks_view(ts@), i as int) == Err::<Seq<RuleV>, _>(e),
        },
    decreases ts@.len() - i,
{
    broadcast use {lemma_toks_view_len, lemma_toks_view_index};

    if i == ts.len() {
        proof {
            assert(rules_view(Seq::<Rule>::empty()) =~= Seq::<RuleV>::empty());
        }
        return Ok(Vec::new());
    }
    let matcher: Vec<Tok> = match &ts[i] {
        Tok::Group(_, m) => toks_clone(m),
        _ => {
            return Err(ParseError { kind: ParseErrorKind::ArmMatcher, pos: i });
        },
    };
    if !(ts.len() - i > 2 && tok_is_punct(&ts[i + 1], '=') && tok_is_punct(&ts[i + 2], '>')) {
        return Err(ParseError { kind: ParseErrorKind::ArmArrow, pos: i + 1 });
    }
    let j = find_semi(ts, i + 3);
    proof {
        lemma_find_semi_bounds(toks_view(ts@), i + 3);
    }
    let body = match parse_body(ts, i + 3, j) {
        Ok(b) => b,
        Err(e) => {
            return Err(e);
        },
    };
    let next: usize = if j < ts.len() {
        j + 1
    } else {
        ts.len()
    };
    match parse_arms(ts, next) {
        Ok(mut rest) => {
            let ghost old_rest = rest@;
            let rule = Rule { matcher, body };
            rest.insert(0, rule);
            proof {
                assert(rest@ =~= seq![rule] + old_rest);
                assert(rules_view(rest@) =~= seq![rule@] + rules_view(old_rest));
            }
            Ok(rest)
        },
        Err(e) => Err(e),
    }
}

/// Parse a whole `macro_rules ! name { arms }` item.
pub fn parse_item(item: &Vec<Tok>) -> (r: Result<RuleSet, ParseError>)
    ensures
        match r {
            Ok(rs) => spec_parse_item(toks_view(item@)) == Ok::<_, ParseError>(rs@),
            Err(e) => spec_parse_item(toks_view(item@)) == Err::<RuleSetV, _>(e),
        },
{
    broadcast use {lemma_toks_view_len, lemma_toks_view_index};

    if !(item.len() == 4 && tok_is_ident(&item[0], "macro_rules") && tok_is_punct(
        &item[1],
        '!',
    )) {
        return Err(ParseError { kind: ParseErrorKind::NotRuleSet, pos: 0 });
    }
    let name: String = match &item[2] {
        Tok::Ident(x) => x.clone(),
        _ => {
            return Err(ParseError { kind: ParseErrorKind::NotRuleSet, pos: 0 });
        },
    };
    let arms: &Vec<Tok> = match &item[3] {
        Tok::Group(crate::token::Delim::Brace, a) => a,
        _ => {
            return Err(ParseError { kind: ParseErrorKind::NotRuleSet, pos: 0 });
        },
    };
    match parse_arms(arms, 0) {
        Ok(rules) => Ok(RuleSet { name, rules }),
        Err(e) => Err(e),
    }
}

} // verus!
