//! The continuation-passing rewrite, and the emitter.
//!
//! The rewritten rule set answers two synthetic call shapes besides plain
//! calls.  A *continued call*, `name ! ( __cps_call [kn km kc] args... )`,
//! asks the rule set to compute `args` and deliver the result to the
//! continuation `(kn, km, kc)`: the rule set to deliver to, the resumption
//! rule inside it, and a bracket group of carried tokens.  A *delivery*,
//! `kn ! ( km kc result... )`, hands a finished result to that resumption
//! rule.  Every rewritten rule set also has a `__cps_ret` resumption rule
//! that returns the delivered result unchanged, which closes a chain started
//! by a plain call.
//!
//! The arms of the rewritten set are, in order: one continued-call arm per
//! original rule (in rule order, so continued calls keep first-match-wins),
//! the resumption arms of every chained rule, the `__cps_ret` arm, and then
//! the original arms themselves — verbatim copies for plain rules, chain
//! entry arms for chained ones — again in rule order, so plain calls match
//! exactly as they did before the rewrite.

use vstd::prelude::*;

use crate::ast::{Binding, BindingV, Body, BodyV, FragKind, GenRule, GenRuleV, Rule, RuleSet,
    RuleSetV, RuleV, bindings_view, gen_rules_view};
use crate::names::{cap_kc, cap_km, cap_kn, step_marker, step_marker_ident, synth_ident};
use crate::token::{Delim, Tok, TokV, append_toks, push_tok, tok_clone, tok_view, toks_clone, toks_view,
    lemma_toks_view_len, lemma_toks_view_index, lemma_toks_view_push, lemma_toks_view_add};
use vstd::string::StringExecFns;

verus! {

/// The source text of a fragment kind.
pub open spec fn frag_text(f: FragKind) -> Seq<char> {
    match f {
        FragKind::Tt => "tt"@,
        FragKind::Ident => "ident"@,
        FragKind::Literal => "literal"@,
        FragKind::Expr => "expr"@,
    }
}

/// The tokens a matcher turns into when it is replayed as a transcriber:
/// `$name:kind` drops its `:kind`, groups are rewritten inside, everything
/// else is kept (so `$(...)` repetitions keep their separators and closers).
pub open spec fn spec_transcribe(ts: Seq<TokV>) -> Seq<TokV>
    decreases ts,
{
    if ts.len() == 0 {
        seq![]
    } else if ts[0] == TokV::Punct('$') && ts.len() >= 4 && ts[1] is Ident && ts[2] == TokV::Punct(
        ':',
    ) && ts[3] is Ident {
        seq![ts[0], ts[1]] + spec_transcribe(ts.skip(4))
    } else if ts[0] == TokV::Punct('$') && ts.len() >= 2 && ts[1] is Group {
        seq![ts[0], TokV::Group(ts[1]->Group_0, spec_transcribe(ts[1]->Group_1))]
            + spec_transcribe(ts.skip(2))
    } else if ts[0] is Group {
        seq![TokV::Group(ts[0]->Group_0, spec_transcribe(ts[0]->Group_1))] + spec_transcribe(
            ts.skip(1),
        )
    } else {
        seq![ts[0]] + spec_transcribe(ts.skip(1))
    }
}

/// A capture pattern `$name:kind`.
pub open spec fn spec_cap_pat(b: BindingV) -> Seq<TokV> {
    seq![
        TokV::Punct('$'),
        TokV::Ident(b.capture),
        TokV::Punct(':'),
        TokV::Ident(frag_text(b.constraint)),
    ]
}

/// A capture reference `$name`.
pub open spec fn spec_cap_ref(name: Seq<char>) -> Seq<TokV> {
    seq![TokV::Punct('$'), TokV::Ident(name)]
}

/// The capture patterns of a continuation: `$kn:ident $km:ident $kc:tt`.
pub open spec fn spec_cont_caps_pat(m: Seq<char>, r: int, j: int) -> Seq<TokV> {
    seq![
        TokV::Punct('$'),
        TokV::Ident(cap_kn(m, r as nat, j as nat)),
        TokV::Punct(':'),
        TokV::Ident("ident"@),
        TokV::Punct('$'),
        TokV::Ident(cap_km(m, r as nat, j as nat)),
        TokV::Punct(':'),
        TokV::Ident("ident"@),
        TokV::Punct('$'),
        TokV::Ident(cap_kc(m, r as nat, j as nat)),
        TokV::Punct(':'),
        TokV::Ident("tt"@),
    ]
}

/// The capture references of a continuation: `$kn $km $kc`.
pub open spec fn spec_cont_caps_ref(m: Seq<char>, r: int, j: int) -> Seq<TokV> {
    spec_cap_ref(cap_kn(m, r as nat, j as nat)) + spec_cap_ref(cap_km(m, r as nat, j as nat))
        + spec_cap_ref(cap_kc(m, r as nat, j as nat))
}

/// The identity continuation: deliver to this rule set's `__cps_ret` rule.
pub open spec fn spec_identity_cont(m: Seq<char>) -> Seq<TokV> {
    seq![TokV::Ident(m), TokV::Ident("__cps_ret"@), TokV::Group(Delim::Bracket, seq![])]
}

/// Bracketed capture patterns for the first `t` bindings.
pub open spec fn spec_cap_pat_groups(bs: Seq<BindingV>, t: int) -> Seq<TokV> {
    Seq::new(t as nat, |u: int| TokV::Group(Delim::Bracket, spec_cap_pat(bs[u])))
}

/// Bracketed capture references for the first `t` bindings.
pub open spec fn spec_cap_ref_groups(bs: Seq<BindingV>, t: int) -> Seq<TokV> {
    Seq::new(t as nat, |u: int| TokV::Group(Delim::Bracket, spec_cap_ref(bs[u].capture)))
}

/// The carried tokens of a continuation entering step `t`: the replayed
/// matcher, the values bound so far, then the outer continuation `kont`.
pub open spec fn spec_carried(matcher: Seq<TokV>, bs: Seq<BindingV>, t: int, kont: Seq<TokV>)
    -> Seq<TokV> {
    seq![TokV::Group(Delim::Bracket, spec_transcribe(matcher))] + spec_cap_ref_groups(bs, t)
        + kont
}

/// A continued call of binding `t`'s rule set, asking it to deliver to the
/// resumption rule for step `t` of rule `r`, with `kont` as the outer
/// continuation.
pub open spec fn spec_chain_call(
    m: Seq<char>,
    r: int,
    t: int,
    bs: Seq<BindingV>,
    matcher: Seq<TokV>,
    kont: Seq<TokV>,
) -> Seq<TokV> {
    seq![
        TokV::Ident(bs[t].callee),
        TokV::Punct('!'),
        TokV::Group(
            Delim::Paren,
            seq![
                TokV::Ident("__cps_call"@),
                TokV::Group(
                    Delim::Bracket,
                    seq![
                        TokV::Ident(m),
                        TokV::Ident(step_marker(m, r as nat, (t + 1) as nat)),
                        TokV::Group(Delim::Bracket, spec_carried(matcher, bs, t, kont)),
                    ],
                ),
            ] + bs[t].args,
        ),
    ]
}

/// A delivery of `out` to the continuation captured as `kn`/`km`/`kc`.
pub open spec fn spec_deliver(m: Seq<char>, r: int, j: int, out: Seq<TokV>) -> Seq<TokV> {
    seq![TokV::Punct('$'), TokV::Ident(cap_kn(m, r as nat, j as nat)), TokV::Punct('!'), TokV::Group(
        Delim::Paren,
        spec_cap_ref(cap_km(m, r as nat, j as nat)) + spec_cap_ref(cap_kc(m, r as nat, j as nat))
            + out,
    )]
}

/// A replacement's tokens as the host engine would splice them: a single
/// delimited transcriber loses its delimiters.
pub open spec fn spec_body_tokens(t: Seq<TokV>) -> Seq<TokV> {
    if t.len() == 1 && t[0] is Group {
        t[0]->Group_1
    } else {
        t
    }
}

/// The continued-call arm of rule `r`.
pub open spec fn spec_aux_arm(m: Seq<char>, r: int, rule: RuleV) -> GenRuleV {
    GenRuleV {
        matcher: seq![
            TokV::Ident("__cps_call"@),
            TokV::Group(Delim::Bracket, spec_cont_caps_pat(m, r, 0)),
        ] + rule.matcher,
        body: match rule.body {
            BodyV::Immediate(t) => spec_deliver(m, r, 0, spec_body_tokens(t)),
            BodyV::Chained(bs, tail) => if bs.len() == 0 {
                spec_deliver(m, r, 0, tail)
            } else {
                spec_chain_call(m, r, 0, bs, rule.matcher, spec_cont_caps_ref(m, r, 0))
            },
        },
    }
}

/// The resumption arm that receives binding `t`'s result for rule `r`.
pub open spec fn spec_step_arm(
    m: Seq<char>,
    r: int,
    t: int,
    matcher: Seq<TokV>,
    bs: Seq<BindingV>,
    tail: Seq<TokV>,
) -> GenRuleV {
    GenRuleV {
        matcher: seq![
            TokV::Ident(step_marker(m, r as nat, (t + 1) as nat)),
            TokV::Group(
                Delim::Bracket,
                seq![TokV::Group(Delim::Bracket, matcher)] + spec_cap_pat_groups(bs, t)
                    + spec_cont_caps_pat(m, r, t + 1),
            ),
        ] + spec_cap_pat(bs[t]),
        body: if t + 1 < bs.len() {
            spec_chain_call(m, r, t + 1, bs, matcher, spec_cont_caps_ref(m, r, t + 1))
        } else {
            spec_deliver(m, r, t + 1, tail)
        },
    }
}

/// The resumption arms of rule `r`, one per binding.
pub open spec fn spec_rule_chain_arms(m: Seq<char>, r: int, rule: RuleV) -> Seq<GenRuleV> {
    match rule.body {
        BodyV::Immediate(t) => seq![],
        BodyV::Chained(bs, tail) => Seq::new(
            bs.len(),
            |t: int| spec_step_arm(m, r, t, rule.matcher, bs, tail),
        ),
    }
}

/// The resumption arms of the rules before `r`, in order.
pub open spec fn spec_chain_arms_to(rs: RuleSetV, r: int) -> Seq<GenRuleV>
    decreases r,
{
    if r <= 0 {
        seq![]
    } else {
        spec_chain_arms_to(rs, r - 1) + spec_rule_chain_arms(rs.name, r - 1, rs.rules[r - 1])
    }
}

/// The `__cps_ret` arm: return a delivered result unchanged.
pub open spec fn spec_ret_arm() -> GenRuleV {
    GenRuleV {
        matcher: seq![
            TokV::Ident("__cps_ret"@),
            TokV::Group(Delim::Bracket, seq![]),
            TokV::Punct('$'),
            TokV::Group(
                Delim::Paren,
                seq![
                    TokV::Punct('$'),
                    TokV::Ident("__cps_out"@),
                    TokV::Punct(':'),
                    TokV::Ident("tt"@),
                ],
            ),
            TokV::Punct('*'),
        ],
        body: seq![
            TokV::Punct('$'),
            TokV::Group(Delim::Paren, seq![TokV::Punct('$'), TokV::Ident("__cps_out"@)]),
            TokV::Punct('*'),
        ],
    }
}

/// The in-order arm of rule `r`: a verbatim copy for a plain rule, the chain
/// entry for a chained one.
pub open spec fn spec_main_arm(m: Seq<char>, r: int, rule: RuleV) -> GenRuleV {
    GenRuleV {
        matcher: rule.matcher,
        body: match rule.body {
            BodyV::Immediate(t) => spec_body_tokens(t),
            BodyV::Chained(bs, tail) => if bs.len() == 0 {
                tail
            } else {
                spec_chain_call(m, r, 0, bs, rule.matcher, spec_identity_cont(m))
            },
        },
    }
}

pub open spec fn spec_aux_arms(rs: RuleSetV) -> Seq<GenRuleV> {
    Seq::new(rs.rules.len(), |r: int| spec_aux_arm(rs.name, r, rs.rules[r]))
}

pub open spec fn spec_main_arms(rs: RuleSetV) -> Seq<GenRuleV> {
    Seq::new(rs.rules.len(), |r: int| spec_main_arm(rs.name, r, rs.rules[r]))
}

/// The whole rewritten rule set, in emitted order.
pub open spec fn spec_transform(rs: RuleSetV) -> Seq<GenRuleV> {
    spec_aux_arms(rs) + spec_chain_arms_to(rs, rs.rules.len() as int) + seq![spec_ret_arm()]
        + spec_main_arms(rs)
}

/// The emitted arm tokens of `rules[i..]`: `(matcher) => { body } ;` each.
pub open spec fn spec_arms_tokens(rules: Seq<GenRuleV>, i: int) -> Seq<TokV>
    decreases rules.len() - i,
{
    if i < 0 || i >= rules.len() {
        seq![]
    } else {
        seq![
            TokV::Group(Delim::Paren, rules[i].matcher),
            TokV::Punct('='),
            TokV::Punct('>'),
            TokV::Group(Delim::Brace, rules[i].body),
            TokV::Punct(';'),
        ] + spec_arms_tokens(rules, i + 1)
    }
}

/// The emitted definition: `macro_rules ! name { arms }`.
pub open spec fn spec_emit(name: Seq<char>, rules: Seq<GenRuleV>) -> Seq<TokV> {
    seq![
        TokV::Ident("macro_rules"@),
        TokV::Punct('!'),
        TokV::Ident(name),
        TokV::Group(Delim::Brace, spec_arms_tokens(rules, 0)),
    ]
}

fn frag_string(f: FragKind) -> (s: String)
    ensures
        s@ == frag_text(f),
{
    match f {
        FragKind::Tt => String::from_str("tt"),
        FragKind::Ident => String::from_str("ident"),
        FragKind::Literal => String::from_str("literal"),
        FragKind::Expr => String::from_str("expr"),
    }
}

#[verifier::rlimit(100)]
fn transcribe_from(ts: &Vec<Tok>, i: usize) -> (r: Vec<Tok>)
    requires
        i <= ts@.len(),
    ensures
        toks_view(r@) == spec_transcribe(toks_view(ts@).skip(i as int)),
    decreases *ts, ts@.len() - i + 1,
{
    broadcast use {lemma_toks_view_len, lemma_toks_view_index, lemma_toks_view_add};

    let ghost s = toks_view(ts@).skip(i as int);
    proof {
        assert forall|k: int| 0 <= k < s.len() implies s[k] == tok_view(ts@[i + k]) by {
            assert(s[k] == toks_view(ts@)[i + k]);
        }
    }
    if i == ts.len() {
        let r: Vec<Tok> = Vec::new();
        proof {
            assert(toks_view(r@) =~= spec_transcribe(s));
        }
        r
    } else {
        let is_dollar = crate::token::tok_is_punct(&ts[i], '$');
        if is_dollar && ts.len() - i >= 4 && (match &ts[i + 1] {
            Tok::Ident(_) => true,
            _ => false,
        }) && crate::token::tok_is_punct(&ts[i + 2], ':') && (match &ts[i + 3] {
            Tok::Ident(_) => true,
            _ => false,
        }) {
            let mut r = transcribe_from(ts, i + 4);
            let ghost pre = r@;
            r.insert(0, tok_clone(&ts[i + 1]));
            let ghost pre2 = r@;
            r.insert(0, Tok::Punct('$'));
            proof {
                assert(pre2 =~= seq![pre2[0]] + pre);
                crate::token::lemma_toks_view_add(seq![pre2[0]], pre);
                assert(r@ =~= seq![r@[0]] + pre2);
                crate::token::lemma_toks_view_add(seq![r@[0]], pre2);
                assert(s.skip(4) =~= toks_view(ts@).skip(i + 4));
                assert(toks_view(r@) =~= spec_transcribe(s));
            }
            r
        } else if is_dollar && ts.len() - i >= 2 && (match &ts[i + 1] {
            Tok::Group(_, _) => true,
            _ => false,
        }) {
            let gt: Tok = match &ts[i + 1] {
                Tok::Group(d, sub) => {
                    let inner = transcribe_from(sub, 0);
                    proof {
                        assert(toks_view(sub@).skip(0) =~= toks_view(sub@));
                    }
                    Tok::Group(*d, inner)
                },
                _ => Tok::Punct('$'),
            };
            let mut r = transcribe_from(ts, i + 2);
            let ghost pre = r@;
            r.insert(0, gt);
            let ghost pre2 = r@;
            r.insert(0, Tok::Punct('$'));
            proof {
                assert(pre2 =~= seq![pre2[0]] + pre);
                crate::token::lemma_toks_view_add(seq![pre2[0]], pre);
                assert(r@ =~= seq![r@[0]] + pre2);
                crate::token::lemma_toks_view_add(seq![r@[0]], pre2);
                assert(s.skip(2) =~= toks_view(ts@).skip(i + 2));
                assert(toks_view(r@) =~= spec_transcribe(s));
            }
            r
        } else {
            let ct: Tok = match &ts[i] {
                Tok::Group(d, sub) => {
                    let inner = transcribe_from(sub, 0);
                    proof {
                        assert(toks_view(sub@).skip(0) =~= toks_view(sub@));
                    }
                    Tok::Group(*d, inner)
                },
                _ => tok_clone(&ts[i]),
            };
            let mut r = transcribe_from(ts, i + 1);
            let ghost pre = r@;
            r.insert(0, ct);
            proof {
                assert(r@ =~= seq![r@[0]] + pre);
                crate::token::lemma_toks_view_add(seq![r@[0]], pre);
                assert(s.skip(1) =~= toks_view(ts@).skip(i + 1));
                assert(toks_view(r@) =~= spec_transcribe(s));
            }
            r
        }
    }
}

/// Replay a matcher as a transcriber.
pub fn transcribe(ts: &Vec<Tok>) -> (r: Vec<Tok>)
    ensures
        toks_view(r@) == spec_transcribe(toks_view(ts@)),
{
    let r = transcribe_from(ts, 0);
    proof {
        assert(toks_view(ts@).skip(0) =~= toks_view(ts@));
    }
    r
}

fn b_cap_pat(b: &Binding) -> (v: Vec<Tok>)
    ensures
        toks_view(v@) == spec_cap_pat(b@),
{
    let mut v: Vec<Tok> = Vec::new();
    push_tok(&mut v, Tok::Punct('$'));
    push_tok(&mut v, Tok::Ident(b.capture.clone()));
    push_tok(&mut v, Tok::Punct(':'));
    push_tok(&mut v, Tok::Ident(frag_string(b.constraint)));
    proof {
        assert(toks_view(v@) =~= spec_cap_pat(b@));
    }
    v
}

fn b_cap_ref(name: &String) -> (v: Vec<Tok>)
    ensures
        toks_view(v@) == spec_cap_ref(name@),
{
    let mut v: Vec<Tok> = Vec::new();
    push_tok(&mut v, Tok::Punct('$'));
    push_tok(&mut v, Tok::Ident(name.clone()));
    proof {
        assert(toks_view(v@) =~= spec_cap_ref(name@));
    }
    v
}

fn b_cont_caps_pat(m: &String, r: u64, j: u64) -> (v: Vec<Tok>)
    ensures
        toks_view(v@) == spec_cont_caps_pat(m@, r as int, j as int),
{
    let mut v: Vec<Tok> = Vec::new();
    push_tok(&mut v, Tok::Punct('$'));
    push_tok(&mut v, synth_ident("__cps_kn_", m, r, j));
    push_tok(&mut v, Tok::Punct(':'));
    push_tok(&mut v, Tok::Ident(String::from_str("ident")));
    push_tok(&mut v, Tok::Punct('$'));
    push_tok(&mut v, synth_ident("__cps_km_", m, r, j));
    push_tok(&mut v, Tok::Punct(':'));
    push_tok(&mut v, Tok::Ident(String::from_str("ident")));
    push_tok(&mut v, Tok::Punct('$'));
    push_tok(&mut v, synth_ident("__cps_kc_", m, r, j));
    push_tok(&mut v, Tok::Punct(':'));
    push_tok(&mut v, Tok::Ident(String::from_str("tt")));
    proof {
        assert(toks_view(v@) =~= spec_cont_caps_pat(m@, r as int, j as int));
    }
    v
}

fn b_cont_caps_ref(m: &String, r: u64, j: u64) -> (v: Vec<Tok>)
    ensures
        toks_view(v@) == spec_cont_caps_ref(m@, r as int, j as int),
{
    let mut v: Vec<Tok> = Vec::new();
    push_tok(&mut v, Tok::Punct('$'));
    push_tok(&mut v, synth_ident("__cps_kn_", m, r, j));
    push_tok(&mut v, Tok::Punct('$'));
    push_tok(&mut v, synth_ident("__cps_km_", m, r, j));
    push_tok(&mut v, Tok::Punct('$'));
    push_tok(&mut v, synth_ident("__cps_kc_", m, r, j));
    proof {
        assert(toks_view(v@) =~= spec_cont_caps_ref(m@, r as int, j as int));
    }
    v
}

fn b_identity_cont(m: &String) -> (v: Vec<Tok>)
    ensures
        toks_view(v@) == spec_identity_cont(m@),
{
    let empty: Vec<Tok> = Vec::new();
    let mut v: Vec<Tok> = Vec::new();
    push_tok(&mut v, Tok::Ident(m.clone()));
    push_tok(&mut v, Tok::Ident(String::from_str("__cps_ret")));
    push_tok(&mut v, Tok::Group(Delim::Bracket, empty));
    proof {
        assert(toks_view(Seq::<Tok>::empty()) =~= Seq::<TokV>::empty());
        assert(toks_view(v@) =~= spec_identity_cont(m@));
    }
    v
}

/// Carried tokens for step `t`; consumes `kont`.
fn b_carried(matcher: &Vec<Tok>, bs: &Vec<Binding>, t: usize, kont: Vec<Tok>) -> (v: Vec<Tok>)
    requires
        t <= bs@.len(),
    ensures
        toks_view(v@) == spec_carried(
            toks_view(matcher@),
            bindings_view(bs@),
            t as int,
            toks_view(kont@),
        ),
{
    let mut v: Vec<Tok> = Vec::new();
    push_tok(&mut v, Tok::Group(Delim::Bracket, transcribe(matcher)));
    let mut u: usize = 0;
    proof {
        assert(toks_view(v@) =~= seq![
            TokV::Group(Delim::Bracket, spec_transcribe(toks_view(matcher@))),
        ] + spec_cap_ref_groups(bindings_view(bs@), 0));
    }
    while u < t
        invariant
            u <= t <= bs@.len(),
            toks_view(v@) == seq![
                TokV::Group(Delim::Bracket, spec_transcribe(toks_view(matcher@))),
            ] + spec_cap_ref_groups(bindings_view(bs@), u as int),
        decreases t - u,
    {
        push_tok(&mut v, Tok::Group(Delim::Bracket, b_cap_ref(&bs[u].capture)));
        u += 1;
        proof {
            assert(spec_cap_ref_groups(bindings_view(bs@), u as int) =~= spec_cap_ref_groups(
                bindings_view(bs@),
                u - 1,
            ).push(
                TokV::Group(Delim::Bracket, spec_cap_ref(bindings_view(bs@)[u - 1].capture)),
            ));
            assert(toks_view(v@) =~= seq![
                TokV::Group(Delim::Bracket, spec_transcribe(toks_view(matcher@))),
            ] + spec_cap_ref_groups(bindings_view(bs@), u as int));
        }
    }
    let ghost kv = toks_view(kont@);
    append_toks(&mut v, kont);
    proof {
        assert(toks_view(v@) =~= spec_carried(
            toks_view(matcher@),
            bindings_view(bs@),
            t as int,
            kv,
        ));
    }
    v
}

/// A continued call of binding `t`\'s rule set; consumes `kont`.
fn b_chain_call(
    m: &String,
    r: u64,
    t: usize,
    bs: &Vec<Binding>,
    matcher: &Vec<Tok>,
    kont: Vec<Tok>,
) -> (v: Vec<Tok>)
    requires
        t < bs@.len(),
        t < u64::MAX,
    ensures
        toks_view(v@) == spec_chain_call(
            m@,
            r as int,
            t as int,
            bindings_view(bs@),
            toks_view(matcher@),
            toks_view(kont@),
        ),
{
    broadcast use {lemma_toks_view_len, lemma_toks_view_index};

    let ghost kv = toks_view(kont@);
    let carried = b_carried(matcher, bs, t, kont);

    let mut inner: Vec<Tok> = Vec::new();
    push_tok(&mut inner, Tok::Ident(m.clone()));
    push_tok(&mut inner, step_marker_ident(m, r, (t as u64) + 1));
    push_tok(&mut inner, Tok::Group(Delim::Bracket, carried));
    proof {
        assert(toks_view(inner@) =~= seq![
            TokV::Ident(m@),
            TokV::Ident(step_marker(m@, r as nat, (t + 1) as nat)),
            TokV::Group(
                Delim::Bracket,
                spec_carried(toks_view(matcher@), bindings_view(bs@), t as int, kv),
            ),
        ]);
    }

    let mut argv: Vec<Tok> = Vec::new();
    push_tok(&mut argv, Tok::Ident(String::from_str("__cps_call")));
    push_tok(&mut argv, Tok::Group(Delim::Bracket, inner));
    append_toks(&mut argv, toks_clone(&bs[t].args));
    proof {
        assert(toks_view(argv@) =~= seq![
            TokV::Ident("__cps_call"@),
            TokV::Group(
                Delim::Bracket,
                seq![
                    TokV::Ident(m@),
                    TokV::Ident(step_marker(m@, r as nat, (t + 1) as nat)),
                    TokV::Group(
                        Delim::Bracket,
                        spec_carried(toks_view(matcher@), bindings_view(bs@), t as int, kv),
                    ),
                ],
            ),
        ] + bindings_view(bs@)[t as int].args);
    }

    let mut v: Vec<Tok> = Vec::new();
    push_tok(&mut v, Tok::Ident(bs[t].callee.clone()));
    push_tok(&mut v, Tok::Punct('!'));
    push_tok(&mut v, Tok::Group(Delim::Paren, argv));
    proof {
        assert(toks_view(v@) =~= spec_chain_call(
            m@,
            r as int,
            t as int,
            bindings_view(bs@),
            toks_view(matcher@),
            kv,
        ));
    }
    v
}

fn synth_string(prefix: &str, m: &String, r: u64, j: u64) -> (s: String)
    ensures
        s@ == crate::names::synth_name(prefix@, m@, r as nat, j as nat),
{
    let t = synth_ident(prefix, m, r, j);
    match t {
        Tok::Ident(s) => s,
        _ => String::new(),
    }
}

/// A delivery of `out` to the captured continuation; consumes `out`.
fn b_deliver(m: &String, r: u64, j: u64, out: Vec<Tok>) -> (v: Vec<Tok>)
    ensures
        toks_view(v@) == spec_deliver(m@, r as int, j as int, toks_view(out@)),
{
    let ghost ov = toks_view(out@);
    let mut inner: Vec<Tok> = Vec::new();
    append_toks(&mut inner, b_cap_ref(&synth_string("__cps_km_", m, r, j)));
    append_toks(&mut inner, b_cap_ref(&synth_string("__cps_kc_", m, r, j)));
    append_toks(&mut inner, out);
    proof {
        assert(toks_view(inner@) =~= spec_cap_ref(cap_km(m@, r as nat, j as nat)) + spec_cap_ref(
            cap_kc(m@, r as nat, j as nat),
        ) + ov);
    }
    let mut v: Vec<Tok> = Vec::new();
    push_tok(&mut v, Tok::Punct('$'));
    push_tok(&mut v, synth_ident("__cps_kn_", m, r, j));
    push_tok(&mut v, Tok::Punct('!'));
    push_tok(&mut v, Tok::Group(Delim::Paren, inner));
    proof {
        assert(toks_view(v@) =~= spec_deliver(m@, r as int, j as int, ov));
    }
    v
}

/// The spliced tokens of a replacement: a single delimited transcriber
/// loses its delimiters.
pub fn body_tokens(t: &Vec<Tok>) -> (v: Vec<Tok>)
    ensures
        toks_view(v@) == spec_body_tokens(toks_view(t@)),
{
    broadcast use {lemma_toks_view_len, lemma_toks_view_index};

    if t.len() == 1 {
        match &t[0] {
            Tok::Group(_, inner) => {
                let v = toks_clone(inner);
                proof {
                    assert(toks_view(t@)[0] == tok_view(t@[0]));
                }
                v
            },
            _ => toks_clone(t),
        }
    } else {
        toks_clone(t)
    }
}

fn b_aux_arm(m: &String, r: u64, rule: &Rule) -> (g: GenRule)
    ensures
        g@ == spec_aux_arm(m@, r as int, rule@),
{
    let mut mat: Vec<Tok> = Vec::new();
    push_tok(&mut mat, Tok::Ident(String::from_str("__cps_call")));
    push_tok(&mut mat, Tok::Group(Delim::Bracket, b_cont_caps_pat(m, r, 0)));
    append_toks(&mut mat, toks_clone(&rule.matcher));
    let body: Vec<Tok> = match &rule.body {
        Body::Immediate(t) => b_deliver(m, r, 0, body_tokens(t)),
        Body::Chained(bs, tail) => {
            if bs.len() == 0 {
                b_deliver(m, r, 0, toks_clone(tail))
            } else {
                b_chain_call(m, r, 0, bs, &rule.matcher, b_cont_caps_ref(m, r, 0))
            }
        },
    };
    let g = GenRule { matcher: mat, body };
    proof {
        assert(g@.matcher =~= spec_aux_arm(m@, r as int, rule@).matcher);
    }
    g
}

fn b_step_arm(m: &String, r: u64, t: usize, rule: &Rule, bs: &Vec<Binding>, tail: &Vec<Tok>) -> (g:
    GenRule)
    requires
        t < bs@.len(),
        t < u64::MAX,
        rule@.body == BodyV::Chained(bindings_view(bs@), toks_view(tail@)),
    ensures
        g@ == spec_step_arm(
            m@,
            r as int,
            t as int,
            toks_view(rule.matcher@),
            bindings_view(bs@),
            toks_view(tail@),
        ),
{
    broadcast use {lemma_toks_view_len, lemma_toks_view_index};

    let jj: u64 = (t as u64) + 1;

    let mut ctx: Vec<Tok> = Vec::new();
    push_tok(&mut ctx, Tok::Group(Delim::Bracket, toks_clone(&rule.matcher)));
    let mut u: usize = 0;
    proof {
        assert(toks_view(ctx@) =~= seq![TokV::Group(Delim::Bracket, toks_view(rule.matcher@))]
            + spec_cap_pat_groups(bindings_view(bs@), 0));
    }
    while u < t
        invariant
            u <= t < bs@.len(),
            toks_view(ctx@) == seq![TokV::Group(Delim::Bracket, toks_view(rule.matcher@))]
                + spec_cap_pat_groups(bindings_view(bs@), u as int),
        decreases t - u,
    {
        push_tok(&mut ctx, Tok::Group(Delim::Bracket, b_cap_pat(&bs[u])));
        u += 1;
        proof {
            assert(spec_cap_pat_groups(bindings_view(bs@), u as int) =~= spec_cap_pat_groups(
                bindings_view(bs@),
                u - 1,
            ).push(TokV::Group(Delim::Bracket, spec_cap_pat(bindings_view(bs@)[u - 1]))));
            assert(toks_view(ctx@) =~= seq![
                TokV::Group(Delim::Bracket, toks_view(rule.matcher@)),
            ] + spec_cap_pat_groups(bindings_view(bs@), u as int));
        }
    }
    append_toks(&mut ctx, b_cont_caps_pat(m, r, jj));
    proof {
        assert(toks_view(ctx@) =~= seq![TokV::Group(Delim::Bracket, toks_view(rule.matcher@))]
            + spec_cap_pat_groups(bindings_view(bs@), t as int) + spec_cont_caps_pat(
            m@,
            r as int,
            t + 1,
        ));
    }

    let mut mat: Vec<Tok> = Vec::new();
    push_tok(&mut mat, step_marker_ident(m, r, jj));
    push_tok(&mut mat, Tok::Group(Delim::Bracket, ctx));
    append_toks(&mut mat, b_cap_pat(&bs[t]));

    let body: Vec<Tok> = if t < bs.len() - 1 {
        b_chain_call(m, r, t + 1, bs, &rule.matcher, b_cont_caps_ref(m, r, jj))
    } else {
        b_deliver(m, r, jj, toks_clone(tail))
    };
    let g = GenRule { matcher: mat, body };
    proof {
        assert(g@.matcher =~= spec_step_arm(
            m@,
            r as int,
            t as int,
            toks_view(rule.matcher@),
            bindings_view(bs@),
            toks_view(tail@),
        ).matcher);
    }
    g
}

fn b_ret_arm() -> (g: GenRule)
    ensures
        g@ == spec_ret_arm(),
{
    let mut rep: Vec<Tok> = Vec::new();
    push_tok(&mut rep, Tok::Punct('$'));
    push_tok(&mut rep, Tok::Ident(String::from_str("__cps_out")));
    push_tok(&mut rep, Tok::Punct(':'));
    push_tok(&mut rep, Tok::Ident(String::from_str("tt")));
    proof {
        assert(toks_view(rep@) =~= seq![
            TokV::Punct('$'),
            TokV::Ident("__cps_out"@),
            TokV::Punct(':'),
            TokV::Ident("tt"@),
        ]);
    }
    let empty: Vec<Tok> = Vec::new();
    let mut mat: Vec<Tok> = Vec::new();
    push_tok(&mut mat, Tok::Ident(String::from_str("__cps_ret")));
    push_tok(&mut mat, Tok::Group(Delim::Bracket, empty));
    push_tok(&mut mat, Tok::Punct('$'));
    push_tok(&mut mat, Tok::Group(Delim::Paren, rep));
    push_tok(&mut mat, Tok::Punct('*'));

    let mut out: Vec<Tok> = Vec::new();
    push_tok(&mut out, Tok::Punct('$'));
    push_tok(&mut out, Tok::Ident(String::from_str("__cps_out")));
    proof {
        assert(toks_view(out@) =~= seq![TokV::Punct('$'), TokV::Ident("__cps_out"@)]);
    }
    let mut body: Vec<Tok> = Vec::new();
    push_tok(&mut body, Tok::Punct('$'));
    push_tok(&mut body, Tok::Group(Delim::Paren, out));
    push_tok(&mut body, Tok::Punct('*'));

    let g = GenRule { matcher: mat, body };
    proof {
        assert(toks_view(Seq::<Tok>::empty()) =~= Seq::<TokV>::empty());
        assert(g@.matcher =~= spec_ret_arm().matcher);
        assert(g@.body =~= spec_ret_arm().body);
    }
    g
}

fn b_main_arm(m: &String, r: u64, rule: &Rule) -> (g: GenRule)
    ensures
        g@ == spec_main_arm(m@, r as int, rule@),
{
    let mat = toks_clone(&rule.matcher);
    let body: Vec<Tok> = match &rule.body {
        Body::Immediate(t) => body_tokens(t),
        Body::Chained(bs, tail) => {
            if bs.len() == 0 {
                toks_clone(tail)
            } else {
                b_chain_call(m, r, 0, bs, &rule.matcher, b_identity_cont(m))
            }
        },
    };
    GenRule { matcher: mat, body }
}

/// The continuation-passing rewrite of a whole rule set.
pub fn transform(rs: &RuleSet) -> (out: Vec<GenRule>)
    requires
        rs@.rules.len() <= u64::MAX,
    ensures
        gen_rules_view(out@) == spec_transform(rs@),
{
    let mut out: Vec<GenRule> = Vec::new();
    let n = rs.rules.len();

    let mut r: usize = 0;
    proof {
        assert(gen_rules_view(out@) =~= spec_aux_arms(rs@).subrange(0, 0));
    }
    while r < n
        invariant
            r <= n == rs@.rules.len() <= u64::MAX,
            gen_rules_view(out@) == spec_aux_arms(rs@).subrange(0, r as int),
        decreases n - r,
    {
        let g = b_aux_arm(&rs.name, r as u64, &rs.rules[r]);
        let ghost gc = g;
        let ghost pre = out@;
        out.push(g);
        r += 1;
        proof {
            crate::ast::lemma_gen_rules_view_push(pre, gc);
            assert(spec_aux_arms(rs@).subrange(0, r as int) =~= spec_aux_arms(rs@).subrange(
                0,
                r - 1,
            ).push(spec_aux_arm(rs@.name, r - 1, rs@.rules[r - 1])));
            assert(gen_rules_view(out@) =~= spec_aux_arms(rs@).subrange(0, r as int));
        }
    }
    proof {
        assert(spec_aux_arms(rs@).subrange(0, rs@.rules.len() as int) =~= spec_aux_arms(rs@));
    }

    let mut r: usize = 0;
    while r < n
        invariant
            r <= n == rs@.rules.len() <= u64::MAX,
            gen_rules_view(out@) == spec_aux_arms(rs@) + spec_chain_arms_to(rs@, r as int),
        decreases n - r,
    {
        match &rs.rules[r].body {
            Body::Immediate(_) => {
                proof {
                    assert(spec_rule_chain_arms(rs@.name, r as int, rs@.rules[r as int]) =~= Seq::<
                        GenRuleV,
                    >::empty());
                    assert(gen_rules_view(out@) =~= spec_aux_arms(rs@) + spec_chain_arms_to(
                        rs@,
                        r + 1,
                    ));
                }
            },
            Body::Chained(bs, tail) => {
                let nb = bs.len();
                let mut t: usize = 0;
                proof {
                    assert(gen_rules_view(out@) =~= spec_aux_arms(rs@) + spec_chain_arms_to(
                        rs@,
                        r as int,
                    ) + spec_rule_chain_arms(rs@.name, r as int, rs@.rules[r as int]).subrange(
                        0,
                        0,
                    ));
                }
                while t < nb
                    invariant
                        t <= nb == bs@.len(),
                        r < n == rs@.rules.len() <= u64::MAX,
                        rs@.rules[r as int].body == BodyV::Chained(
                            bindings_view(bs@),
                            toks_view(tail@),
                        ),
                        rs@.rules[r as int].matcher == toks_view(rs.rules@[r as int].matcher@),
                        gen_rules_view(out@) == spec_aux_arms(rs@) + spec_chain_arms_to(
                            rs@,
                            r as int,
                        ) + spec_rule_chain_arms(rs@.name, r as int, rs@.rules[r as int]).subrange(
                            0,
                            t as int,
                        ),
                    decreases nb - t,
                {
                    let g = b_step_arm(&rs.name, r as u64, t, &rs.rules[r], bs, tail);
                    let ghost gc = g;
                    let ghost pre = out@;
                    out.push(g);
                    t += 1;
                    proof {
                        crate::ast::lemma_gen_rules_view_push(pre, gc);
                        assert(spec_rule_chain_arms(
                            rs@.name,
                            r as int,
                            rs@.rules[r as int],
                        ).subrange(0, t as int) =~= spec_rule_chain_arms(
                            rs@.name,
                            r as int,
                            rs@.rules[r as int],
                        ).subrange(0, t - 1).push(gc@));
                        assert(gen_rules_view(out@) =~= spec_aux_arms(rs@) + spec_chain_arms_to(
                            rs@,
                            r as int,
                        ) + spec_rule_chain_arms(rs@.name, r as int, rs@.rules[r as int]).subrange(
                            0,
                            t as int,
                        ));
                    }
                }
                proof {
                    assert(spec_rule_chain_arms(rs@.name, r as int, rs@.rules[r as int]).subrange(
                        0,
                        bs@.len() as int,
                    ) =~= spec_rule_chain_arms(rs@.name, r as int, rs@.rules[r as int]));
                    assert(gen_rules_view(out@) =~= spec_aux_arms(rs@) + spec_chain_arms_to(
                        rs@,
                        r + 1,
                    ));
                }
            },
        }
        r += 1;
    }

    let g = b_ret_arm();
    let ghost gc = g;
    let ghost pre = out@;
    out.push(g);
    proof {
        crate::ast::lemma_gen_rules_view_push(pre, gc);
        assert(gen_rules_view(out@) =~= spec_aux_arms(rs@) + spec_chain_arms_to(
            rs@,
            rs@.rules.len() as int,
        ) + seq![spec_ret_arm()] + spec_main_arms(rs@).subrange(0, 0));
    }

    let mut r: usize = 0;
    while r < n
        invariant
            r <= n == rs@.rules.len() <= u64::MAX,
            gen_rules_view(out@) == spec_aux_arms(rs@) + spec_chain_arms_to(
                rs@,
                rs@.rules.len() as int,
            ) + seq![spec_ret_arm()] + spec_main_arms(rs@).subrange(0, r as int),
        decreases n - r,
    {
        let g = b_main_arm(&rs.name, r as u64, &rs.rules[r]);
        let ghost gc = g;
        let ghost pre = out@;
        out.push(g);
        r += 1;
        proof {
            crate::ast::lemma_gen_rules_view_push(pre, gc);
            assert(spec_main_arms(rs@).subrange(0, r as int) =~= spec_main_arms(rs@).subrange(
                0,
                r - 1,
            ).push(spec_main_arm(rs@.name, r - 1, rs@.rules[r - 1])));
            assert(gen_rules_view(out@) =~= spec_aux_arms(rs@) + spec_chain_arms_to(
                rs@,
                rs@.rules.len() as int,
            ) + seq![spec_ret_arm()] + spec_main_arms(rs@).subrange(0, r as int));
        }
    }
    proof {
        assert(spec_main_arms(rs@).subrange(0, rs@.rules.len() as int) =~= spec_main_arms(rs@));
        assert(gen_rules_view(out@) =~= spec_transform(rs@));
    }
    out
}

/// Serialize a rewritten rule set as one `macro_rules ! name { ... }` item.
pub fn emit(name: &String, rules: &Vec<GenRule>) -> (v: Vec<Tok>)
    ensures
        toks_view(v@) == spec_emit(name@, gen_rules_view(rules@)),
{
    broadcast use {lemma_toks_view_len, lemma_toks_view_index};

    let mut arms: Vec<Tok> = Vec::new();
    let mut i: usize = 0;
    let ghost rv = gen_rules_view(rules@);
    proof {
        assert(toks_view(arms@) =~= Seq::<TokV>::empty());
        assert(toks_view(arms@) + spec_arms_tokens(rv, 0) =~= spec_arms_tokens(rv, 0));
    }
    while i < rules.len()
        invariant
            i <= rules@.len(),
            rv == gen_rules_view(rules@),
            toks_view(arms@) + spec_arms_tokens(rv, i as int) == spec_arms_tokens(rv, 0),
        decreases rules@.len() - i,
    {
        push_tok(&mut arms, Tok::Group(Delim::Paren, toks_clone(&rules[i].matcher)));
        push_tok(&mut arms, Tok::Punct('='));
        push_tok(&mut arms, Tok::Punct('>'));
        push_tok(&mut arms, Tok::Group(Delim::Brace, toks_clone(&rules[i].body)));
        push_tok(&mut arms, Tok::Punct(';'));
        i += 1;
        proof {
            assert(toks_view(arms@) + spec_arms_tokens(rv, i as int) =~= spec_arms_tokens(rv, 0));
        }
    }
    proof {
        assert(spec_arms_tokens(rv, rules@.len() as int) =~= Seq::<TokV>::empty());
        assert(toks_view(arms@) =~= spec_arms_tokens(rv, 0));
    }
    let mut v: Vec<Tok> = Vec::new();
    push_tok(&mut v, Tok::Ident(String::from_str("macro_rules")));
    push_tok(&mut v, Tok::Punct('!'));
    push_tok(&mut v, Tok::Ident(name.clone()));
    push_tok(&mut v, Tok::Group(Delim::Brace, arms));
    proof {
        assert(toks_view(v@) =~= spec_emit(name@, gen_rules_view(rules@)));
    }
    v
}

} // verus!
