//! Proofs of what the rewrite guarantees against the engine model.

use vstd::prelude::*;

use crate::ast::{BodyV, GenRuleV, RuleSetV, RuleV};
use crate::expand::{spec_expand_once, spec_first_match, spec_lookup, spec_match, spec_subst,
    BindV};
use crate::names::{cap_kc, cap_km, cap_kn};
use crate::parse::{spec_find_semi, spec_parse_arms, spec_parse_body, spec_parse_item, ParseError};
use crate::token::{Delim, TokV};
use crate::transform::{spec_arms_tokens, spec_aux_arm, spec_aux_arms, spec_body_tokens,
    spec_chain_arms_to, spec_cont_caps_pat, spec_deliver, spec_emit, spec_main_arm,
    spec_main_arms, spec_ret_arm, spec_step_arm, spec_transform};

verus! {

/// Whether every arm of `rs` keeps its replacement verbatim.
pub open spec fn all_immediate(rs: RuleSetV) -> bool {
    forall|r: int| 0 <= r < rs.rules.len() ==> rs.rules[r].body is Immediate
}

/// The arms of the untransformed `rs` as the host engine would hold them.
pub open spec fn plain_arms(rs: RuleSetV) -> Seq<GenRuleV> {
    Seq::new(
        rs.rules.len(),
        |r: int| GenRuleV {
            matcher: rs.rules[r].matcher,
            body: spec_body_tokens(rs.rules[r].body->Immediate_0),
        },
    )
}

proof fn lemma_ident_head_no_match(pat: Seq<TokV>, inp: Seq<TokV>)
    requires
        pat.len() > 0,
        pat[0] is Ident,
        inp.len() == 0 || inp[0] != pat[0],
    ensures
        spec_match(pat, inp) is None,
{
}

proof fn lemma_first_match_bounds(rules: Seq<GenRuleV>, inp: Seq<TokV>)
    ensures
        spec_first_match(rules, inp) matches Some(p) ==> 0 <= p.0 < rules.len(),
    decreases rules,
{
    if rules.len() > 0 {
        lemma_first_match_bounds(rules.drop_first(), inp);
    }
}

proof fn lemma_first_match_skip(rules: Seq<GenRuleV>, inp: Seq<TokV>)
    requires
        rules.len() > 0,
        spec_match(rules[0].matcher, inp) is None,
    ensures
        spec_expand_once(rules, inp) == spec_expand_once(rules.drop_first(), inp),
{
    let rest = rules.drop_first();
    lemma_first_match_bounds(rules, inp);
    lemma_first_match_bounds(rest, inp);
    match spec_first_match(rest, inp) {
        Some(p) => {
            assert(spec_first_match(rules, inp) == Some((p.0 + 1, p.1)));
            assert(rules[p.0 + 1] == rest[p.0]);
        },
        None => {
            assert(spec_first_match(rules, inp) is None);
        },
    }
}

proof fn lemma_prefix_skip(pre: Seq<GenRuleV>, rest: Seq<GenRuleV>, inp: Seq<TokV>)
    requires
        forall|k: int| 0 <= k < pre.len() ==> spec_match(#[trigger] pre[k].matcher, inp) is None,
    ensures
        spec_expand_once(pre + rest, inp) == spec_expand_once(rest, inp),
    decreases pre.len(),
{
    if pre.len() == 0 {
        assert(pre + rest =~= rest);
    } else {
        assert((pre + rest)[0] == pre[0]);
        lemma_first_match_skip(pre + rest, inp);
        assert((pre + rest).drop_first() =~= pre.drop_first() + rest);
        lemma_prefix_skip(pre.drop_first(), rest, inp);
    }
}

proof fn lemma_chain_arms_empty(rs: RuleSetV, r: int)
    requires
        all_immediate(rs),
        r <= rs.rules.len(),
    ensures
        spec_chain_arms_to(rs, r) == Seq::<GenRuleV>::empty(),
    decreases r,
{
    if r > 0 {
        lemma_chain_arms_empty(rs, r - 1);
        assert(spec_chain_arms_to(rs, r) =~= Seq::<GenRuleV>::empty());
    }
}

/// Whether `t` is an identifier from the rewrite's own vocabulary: one
/// whose text begins with `__cps_`.  User tokens are assumed to stay away
/// from that prefix; nothing else about them is assumed.
pub open spec fn synthetic_head(t: TokV) -> bool {
    t is Ident && t->Ident_0.len() >= 6 && t->Ident_0.subrange(0, 6) == "__cps_"@
}

proof fn lemma_synth_name_head(prefix: Seq<char>, m: Seq<char>, r: nat, j: nat)
    requires
        prefix.len() >= 6,
        prefix.subrange(0, 6) == "__cps_"@,
    ensures
        synthetic_head(TokV::Ident(crate::names::synth_name(prefix, m, r, j))),
{
    let n = crate::names::synth_name(prefix, m, r, j);
    assert(n.subrange(0, 6) =~= prefix.subrange(0, 6));
}

proof fn lemma_chain_arm_heads(rs: RuleSetV, r: int)
    requires
        0 <= r <= rs.rules.len(),
    ensures
        forall|k: int| 0 <= k < spec_chain_arms_to(rs, r).len() ==> {
            &&& (#[trigger] spec_chain_arms_to(rs, r)[k]).matcher.len() > 0
            &&& synthetic_head(spec_chain_arms_to(rs, r)[k].matcher[0])
        },
    decreases r,
{
    reveal_strlit("__cps_s_");
    reveal_strlit("__cps_");
    if r > 0 {
        lemma_chain_arm_heads(rs, r - 1);
        let prior = spec_chain_arms_to(rs, r - 1);
        let block = crate::transform::spec_rule_chain_arms(rs.name, r - 1, rs.rules[r - 1]);
        assert("__cps_s_"@.subrange(0, 6) =~= "__cps_"@);
        assert forall|k: int| 0 <= k < spec_chain_arms_to(rs, r).len() implies {
            &&& (#[trigger] spec_chain_arms_to(rs, r)[k]).matcher.len() > 0
            &&& synthetic_head(spec_chain_arms_to(rs, r)[k].matcher[0])
        } by {
            if k < prior.len() {
                assert(spec_chain_arms_to(rs, r)[k] == prior[k]);
            } else {
                assert(spec_chain_arms_to(rs, r)[k] == block[k - prior.len()]);
                let bs = rs.rules[r - 1].body->Chained_0;
                let t = k - prior.len();
                assert(block[t] == spec_step_arm(
                    rs.name,
                    r - 1,
                    t,
                    rs.rules[r - 1].matcher,
                    bs,
                    rs.rules[r - 1].body->Chained_1,
                ));
                lemma_synth_name_head("__cps_s_"@, rs.name, (r - 1) as nat, (t + 1) as nat);
            }
        }
    }
}

/// On a plain call — one whose first token is not from the rewrite's
/// synthetic vocabulary — the rewritten rule set behaves exactly as its
/// in-order arms alone: the verbatim copies and chain entries, in the
/// author's order.  All synthetic arms are invisible to such calls.
pub proof fn lemma_plain_call_sees_in_order_arms(rs: RuleSetV, inp: Seq<TokV>)
    requires
        inp.len() > 0 ==> !synthetic_head(inp[0]),
    ensures
        spec_expand_once(spec_transform(rs), inp) == spec_expand_once(spec_main_arms(rs), inp),
{
    reveal_strlit("__cps_call");
    reveal_strlit("__cps_ret");
    reveal_strlit("__cps_");
    let aux = spec_aux_arms(rs);
    let chain = spec_chain_arms_to(rs, rs.rules.len() as int);
    let main = spec_main_arms(rs);
    let pre = aux + chain + seq![spec_ret_arm()];
    assert(spec_transform(rs) =~= pre + main);
    lemma_chain_arm_heads(rs, rs.rules.len() as int);
    assert("__cps_call"@.subrange(0, 6) =~= "__cps_"@);
    assert("__cps_ret"@.subrange(0, 6) =~= "__cps_"@);
    assert forall|k: int| 0 <= k < pre.len() implies spec_match(
        (#[trigger] pre[k]).matcher,
        inp,
    ) is None by {
        if k < aux.len() {
            assert(pre[k] == aux[k]);
            assert(aux[k].matcher[0] == TokV::Ident("__cps_call"@));
            assert(synthetic_head(aux[k].matcher[0]));
            lemma_ident_head_no_match(aux[k].matcher, inp);
        } else if k < aux.len() + chain.len() {
            assert(pre[k] == chain[k - aux.len()]);
            lemma_ident_head_no_match(pre[k].matcher, inp);
        } else {
            assert(pre[k] == spec_ret_arm());
            assert(spec_ret_arm().matcher[0] == TokV::Ident("__cps_ret"@));
            assert(synthetic_head(spec_ret_arm().matcher[0]));
            lemma_ident_head_no_match(spec_ret_arm().matcher, inp);
        }
    }
    lemma_prefix_skip(pre, main, inp);
}

/// Pass-through invariance: a rule set whose arms all keep their
/// replacements verbatim expands, after the rewrite, exactly as it did
/// before, on every plain call.  The matched arm's output is
/// byte-identical, so everything the host engine does next is identical
/// too.
pub proof fn lemma_pass_through(rs: RuleSetV, inp: Seq<TokV>)
    requires
        all_immediate(rs),
        inp.len() > 0 ==> !synthetic_head(inp[0]),
    ensures
        spec_expand_once(spec_transform(rs), inp) == spec_expand_once(plain_arms(rs), inp),
{
    lemma_plain_call_sees_in_order_arms(rs, inp);
    assert(spec_main_arms(rs) =~= plain_arms(rs));
}

/// Left-to-right order, dynamically: the first expansion step of a plain
/// call that selects a chained rule is a continued call of the chain's
/// first binding's rule set.  No later binding's rule set, and not the
/// tail, is touched before that call resolves.
pub proof fn lemma_chain_entry_invokes_first(rs: RuleSetV, inp: Seq<TokV>)
    requires
        inp.len() > 0 ==> !synthetic_head(inp[0]),
        spec_first_match(spec_main_arms(rs), inp) is Some,
        ({
            let p = spec_first_match(spec_main_arms(rs), inp)->Some_0;
            rs.rules[p.0].body is Chained && rs.rules[p.0].body->Chained_0.len() > 0
        }),
    ensures
        spec_expand_once(spec_transform(rs), inp) is Some,
        ({
            let p = spec_first_match(spec_main_arms(rs), inp)->Some_0;
            let bs = rs.rules[p.0].body->Chained_0;
            let out = spec_expand_once(spec_transform(rs), inp)->Some_0;
            &&& crate::expand::spec_is_call(out)
            &&& out[0] == TokV::Ident(bs[0].callee)
        }),
{
    let main = spec_main_arms(rs);
    lemma_plain_call_sees_in_order_arms(rs, inp);
    lemma_first_match_bounds(main, inp);
    let p = spec_first_match(main, inp)->Some_0;
    let bs = rs.rules[p.0].body->Chained_0;
    let binds = p.1;
    assert(main[p.0] == spec_main_arm(rs.name, p.0, rs.rules[p.0]));
    let body = main[p.0].body;
    assert(body == crate::transform::spec_chain_call(
        rs.name,
        p.0,
        0,
        bs,
        rs.rules[p.0].matcher,
        crate::transform::spec_identity_cont(rs.name),
    ));
    let inner = body[2]->Group_1;
    let c1 = seq![TokV::Punct('!'), TokV::Group(Delim::Paren, inner)];
    let c2 = seq![TokV::Group(Delim::Paren, inner)];
    assert(body.skip(1) =~= c1);
    assert(c1.skip(1) =~= c2);
    assert(c2.skip(1) =~= Seq::<TokV>::empty());
    assert(spec_subst(Seq::<TokV>::empty(), binds) == Seq::<TokV>::empty());
    assert(spec_subst(c2, binds) == seq![TokV::Group(Delim::Paren, spec_subst(inner, binds))]
        + Seq::<TokV>::empty());
    assert(spec_subst(c1, binds) == seq![TokV::Punct('!')] + spec_subst(c2, binds));
    assert(spec_subst(body, binds) == seq![TokV::Ident(bs[0].callee)] + spec_subst(c1, binds));
    assert(spec_subst(body, binds) =~= seq![
        TokV::Ident(bs[0].callee),
        TokV::Punct('!'),
        TokV::Group(Delim::Paren, spec_subst(inner, binds)),
    ]);
}

/// A continued call of a rule set: the protocol marker, the continuation
/// triple in a bracket group, then the call's own tokens.
pub open spec fn continued_call(kn: Seq<char>, km: Seq<char>, kc: TokV, args: Seq<TokV>)
    -> Seq<TokV> {
    seq![
        TokV::Ident("__cps_call"@),
        TokV::Group(Delim::Bracket, seq![TokV::Ident(kn), TokV::Ident(km), kc]),
    ] + args
}

/// The delivery of `out` to the continuation `(kn, km, kc)`.
pub open spec fn delivery(kn: Seq<char>, km: Seq<char>, kc: TokV, out: Seq<TokV>) -> Seq<TokV> {
    seq![
        TokV::Ident(kn),
        TokV::Punct('!'),
        TokV::Group(Delim::Paren, seq![TokV::Ident(km), kc] + out),
    ]
}

/// The captures a continued-call arm makes for the continuation triple.
pub open spec fn cont_caps_binds(m: Seq<char>, r: int, kn: Seq<char>, km: Seq<char>, kc: TokV)
    -> Seq<BindV> {
    seq![
        BindV { name: cap_kn(m, r as nat, 0), val: seq![TokV::Ident(kn)] },
        BindV { name: cap_km(m, r as nat, 0), val: seq![TokV::Ident(km)] },
        BindV { name: cap_kc(m, r as nat, 0), val: seq![kc] },
    ]
}

proof fn lemma_match_cont_caps(m: Seq<char>, r: int, kn: Seq<char>, km: Seq<char>, kc: TokV)
    ensures
        spec_match(
            spec_cont_caps_pat(m, r, 0),
            seq![TokV::Ident(kn), TokV::Ident(km), kc],
        ) == Some(cont_caps_binds(m, r, kn, km, kc)),
{
    reveal_strlit("tt");
    reveal_strlit("ident");
    reveal_strlit("literal");
    reveal_strlit("expr");
    let pat = spec_cont_caps_pat(m, r, 0);
    let inp = seq![TokV::Ident(kn), TokV::Ident(km), kc];
    let pat4 = pat.skip(4);
    let pat8 = pat.skip(8);
    assert(pat4 =~= seq![
        TokV::Punct('$'),
        TokV::Ident(cap_km(m, r as nat, 0)),
        TokV::Punct(':'),
        TokV::Ident("ident"@),
        TokV::Punct('$'),
        TokV::Ident(cap_kc(m, r as nat, 0)),
        TokV::Punct(':'),
        TokV::Ident("tt"@),
    ]);
    assert(pat8 =~= seq![
        TokV::Punct('$'),
        TokV::Ident(cap_kc(m, r as nat, 0)),
        TokV::Punct(':'),
        TokV::Ident("tt"@),
    ]);
    assert(pat8.skip(4) =~= Seq::<TokV>::empty());
    assert(pat4.skip(4) == pat8);
    assert(inp.skip(1).skip(1) =~= seq![kc]);
    assert(seq![kc].skip(1) =~= Seq::<TokV>::empty());
    assert(spec_match(Seq::<TokV>::empty(), Seq::<TokV>::empty()) == Some(Seq::<BindV>::empty()));
    assert(spec_match(pat8, seq![kc]) == Some(
        seq![BindV { name: cap_kc(m, r as nat, 0), val: seq![kc] }] + Seq::<BindV>::empty(),
    ));
    assert(seq![BindV { name: cap_kc(m, r as nat, 0), val: seq![kc] }] + Seq::<BindV>::empty()
        =~= seq![BindV { name: cap_kc(m, r as nat, 0), val: seq![kc] }]);
    assert(spec_match(pat8, seq![kc]) == Some(
        seq![BindV { name: cap_kc(m, r as nat, 0), val: seq![kc] }],
    ));
    assert(inp.skip(1) =~= seq![TokV::Ident(km), kc]);
    assert(spec_match(pat4, seq![TokV::Ident(km), kc]) == Some(
        seq![BindV { name: cap_km(m, r as nat, 0), val: seq![TokV::Ident(km)] }] + seq![
            BindV { name: cap_kc(m, r as nat, 0), val: seq![kc] },
        ],
    ));
    assert(spec_match(pat, inp) == Some(
        seq![BindV { name: cap_kn(m, r as nat, 0), val: seq![TokV::Ident(kn)] }] + (seq![
            BindV { name: cap_km(m, r as nat, 0), val: seq![TokV::Ident(km)] },
        ] + seq![BindV { name: cap_kc(m, r as nat, 0), val: seq![kc] }]),
    ));
    assert(seq![BindV { name: cap_kn(m, r as nat, 0), val: seq![TokV::Ident(kn)] }] + (seq![
        BindV { name: cap_km(m, r as nat, 0), val: seq![TokV::Ident(km)] },
    ] + seq![BindV { name: cap_kc(m, r as nat, 0), val: seq![kc] }]) =~= cont_caps_binds(
        m,
        r,
        kn,
        km,
        kc,
    ));
}

proof fn lemma_aux_arm_answers(rs: RuleSetV, k: int, kn: Seq<char>, km: Seq<char>, kc: TokV, args: Seq<TokV>)
    requires
        0 <= k < rs.rules.len(),
    ensures
        spec_match(
            spec_aux_arm(rs.name, k, rs.rules[k]).matcher,
            continued_call(kn, km, kc, args),
        ) == (match spec_match(rs.rules[k].matcher, args) {
            Some(bs) => Some(cont_caps_binds(rs.name, k, kn, km, kc) + bs),
            None => None,
        }),
{
    let pat = spec_aux_arm(rs.name, k, rs.rules[k]).matcher;
    let inp = continued_call(kn, km, kc, args);
    assert(pat[0] == TokV::Ident("__cps_call"@) && inp[0] == pat[0]);
    let pat1 = pat.skip(1);
    let inp1 = inp.skip(1);
    assert(pat1 =~= seq![TokV::Group(Delim::Bracket, spec_cont_caps_pat(rs.name, k, 0))]
        + rs.rules[k].matcher);
    assert(inp1 =~= seq![
        TokV::Group(Delim::Bracket, seq![TokV::Ident(kn), TokV::Ident(km), kc]),
    ] + args);
    assert(spec_match(pat, inp) == spec_match(pat1, inp1));
    assert(pat1[0] is Group && !(pat1[0] == TokV::Punct('$')));
    lemma_match_cont_caps(rs.name, k, kn, km, kc);
    assert(pat1.skip(1) =~= rs.rules[k].matcher);
    assert(inp1.skip(1) =~= args);
}

proof fn lemma_first_match_is_match(rules: Seq<GenRuleV>, inp: Seq<TokV>)
    ensures
        spec_first_match(rules, inp) matches Some(p) ==> spec_match(rules[p.0].matcher, inp)
            == Some(p.1),
    decreases rules,
{
    if rules.len() > 0 {
        lemma_first_match_bounds(rules.drop_first(), inp);
        lemma_first_match_is_match(rules.drop_first(), inp);
    }
}

proof fn lemma_first_match_prefix(rules: Seq<GenRuleV>, inp: Seq<TokV>, j: int, bs: Seq<BindV>)
    requires
        0 <= j < rules.len(),
        spec_match(rules[j].matcher, inp) == Some(bs),
        forall|k: int| 0 <= k < j ==> spec_match(#[trigger] rules[k].matcher, inp) is None,
    ensures
        spec_first_match(rules, inp) == Some((j, bs)),
    decreases j,
{
    if j > 0 {
        lemma_first_match_prefix(rules.drop_first(), inp, j - 1, bs);
        assert(forall|k: int|
            0 <= k < j - 1 ==> rules.drop_first()[k] == rules[k + 1]);
    }
}

proof fn lemma_first_match_earlier_none(rules: Seq<GenRuleV>, inp: Seq<TokV>)
    ensures
        spec_first_match(rules, inp) matches Some(p) ==> forall|k: int|
            0 <= k < p.0 ==> spec_match(#[trigger] rules[k].matcher, inp) is None,
    decreases rules,
{
    if rules.len() > 0 {
        lemma_first_match_earlier_none(rules.drop_first(), inp);
        if spec_first_match(rules, inp) is Some {
            lemma_first_match_bounds(rules, inp);
            lemma_first_match_bounds(rules.drop_first(), inp);
            let p = spec_first_match(rules, inp)->Some_0;
            if p.0 > 0 {
                assert(forall|k: int|
                    1 <= k < p.0 ==> rules[k] == rules.drop_first()[k - 1]);
            }
        }
    }
}

proof fn lemma_cap_names_differ(m: Seq<char>, r: int)
    ensures
        cap_kn(m, r as nat, 0) != cap_km(m, r as nat, 0),
        cap_kn(m, r as nat, 0) != cap_kc(m, r as nat, 0),
        cap_km(m, r as nat, 0) != cap_kc(m, r as nat, 0),
{
    reveal_strlit("__cps_kn_");
    reveal_strlit("__cps_km_");
    reveal_strlit("__cps_kc_");
    assert(cap_kn(m, r as nat, 0)[7] == 'n');
    assert(cap_km(m, r as nat, 0)[7] == 'm');
    assert(cap_kc(m, r as nat, 0)[7] == 'c');
}

proof fn lemma_subst_deliver(
    m: Seq<char>,
    r: int,
    out: Seq<TokV>,
    kn: Seq<char>,
    km: Seq<char>,
    kc: TokV,
    rest: Seq<BindV>,
)
    ensures
        spec_subst(spec_deliver(m, r, 0, out), cont_caps_binds(m, r, kn, km, kc) + rest)
            == delivery(kn, km, kc, spec_subst(out, cont_caps_binds(m, r, kn, km, kc) + rest)),
{
    lemma_cap_names_differ(m, r);
    let binds = cont_caps_binds(m, r, kn, km, kc) + rest;
    let body = spec_deliver(m, r, 0, out);
    let b1 = seq![
        BindV { name: cap_km(m, r as nat, 0), val: seq![TokV::Ident(km)] },
        BindV { name: cap_kc(m, r as nat, 0), val: seq![kc] },
    ] + rest;
    let b2 = seq![BindV { name: cap_kc(m, r as nat, 0), val: seq![kc] }] + rest;
    assert(binds.drop_first() =~= b1);
    assert(b1.drop_first() =~= b2);
    assert(spec_lookup(b2, cap_km(m, r as nat, 0)) == spec_lookup(
        b2.drop_first(),
        cap_km(m, r as nat, 0),
    ));
    assert(spec_lookup(b2, cap_kc(m, r as nat, 0)) == Some(seq![kc]));
    assert(spec_lookup(b1, cap_km(m, r as nat, 0)) == Some(seq![TokV::Ident(km)]));
    assert(spec_lookup(b1, cap_kc(m, r as nat, 0)) == Some(seq![kc]));
    assert(spec_lookup(binds, cap_kn(m, r as nat, 0)) == Some(seq![TokV::Ident(kn)]));
    assert(spec_lookup(binds, cap_km(m, r as nat, 0)) == Some(seq![TokV::Ident(km)]));
    assert(spec_lookup(binds, cap_kc(m, r as nat, 0)) == Some(seq![kc]));

    let inner = crate::transform::spec_cap_ref(cap_km(m, r as nat, 0))
        + crate::transform::spec_cap_ref(cap_kc(m, r as nat, 0)) + out;
    let i1 = crate::transform::spec_cap_ref(cap_kc(m, r as nat, 0)) + out;
    assert(inner.skip(2) =~= i1);
    assert(i1.skip(2) =~= out);
    assert(spec_subst(i1, binds) == seq![kc] + spec_subst(out, binds));
    assert(spec_subst(inner, binds) == seq![TokV::Ident(km)] + spec_subst(i1, binds));

    let b3 = seq![TokV::Punct('!'), TokV::Group(Delim::Paren, inner)];
    let b4 = seq![TokV::Group(Delim::Paren, inner)];
    assert(body.skip(2) =~= b3);
    assert(b3.skip(1) =~= b4);
    assert(b4.skip(1) =~= Seq::<TokV>::empty());
    assert(spec_subst(Seq::<TokV>::empty(), binds) == Seq::<TokV>::empty());
    assert(spec_subst(b4, binds) == seq![TokV::Group(Delim::Paren, spec_subst(inner, binds))]
        + Seq::<TokV>::empty());
    assert(spec_subst(b3, binds) == seq![TokV::Punct('!')] + spec_subst(b4, binds));
    assert(spec_subst(body, binds) == seq![TokV::Ident(kn)] + spec_subst(b3, binds));
    assert(seq![TokV::Ident(km)] + (seq![kc] + spec_subst(out, binds)) =~= seq![
        TokV::Ident(km),
        kc,
    ] + spec_subst(out, binds));
    assert(seq![TokV::Ident(kn)] + (seq![TokV::Punct('!')] + (seq![
        TokV::Group(Delim::Paren, seq![TokV::Ident(km), kc] + spec_subst(out, binds)),
    ] + Seq::<TokV>::empty())) =~= delivery(kn, km, kc, spec_subst(out, binds)));
}

/// A rewritten rule set answers a continued call by the protocol: the
/// first of its own arms that matches the call's tokens is selected —
/// first-match-wins, exactly as for a plain call — and that arm's
/// replacement, with its captures substituted, is delivered to the carried
/// continuation.  This is what lets any rewritten rule set serve as a step
/// inside another rule set's chain.
pub proof fn lemma_continued_call_delivers(
    rs: RuleSetV,
    kn: Seq<char>,
    km: Seq<char>,
    kc: TokV,
    args: Seq<TokV>,
)
    requires
        all_immediate(rs),
        spec_first_match(plain_arms(rs), args) is Some,
    ensures
        ({
            let p = spec_first_match(plain_arms(rs), args)->Some_0;
            let binds = cont_caps_binds(rs.name, p.0, kn, km, kc) + p.1;
            spec_expand_once(spec_transform(rs), continued_call(kn, km, kc, args)) == Some(
                delivery(
                    kn,
                    km,
                    kc,
                    spec_subst(spec_body_tokens(rs.rules[p.0].body->Immediate_0), binds),
                ),
            )
        }),
{
    let plain = plain_arms(rs);
    let p = spec_first_match(plain, args)->Some_0;
    lemma_first_match_bounds(plain, args);
    lemma_first_match_earlier_none(plain, args);
    lemma_first_match_is_match(plain, args);
    let inp = continued_call(kn, km, kc, args);
    let arms = spec_transform(rs);
    let aux = spec_aux_arms(rs);
    lemma_chain_arms_empty(rs, rs.rules.len() as int);
    assert(arms =~= aux + (seq![spec_ret_arm()] + spec_main_arms(rs)));
    assert forall|k: int| 0 <= k < p.0 implies spec_match(
        #[trigger] arms[k].matcher,
        inp,
    ) is None by {
        assert(arms[k] == aux[k]);
        assert(plain[k].matcher == rs.rules[k].matcher);
        lemma_aux_arm_answers(rs, k, kn, km, kc, args);
    }
    assert(arms[p.0] == aux[p.0]);
    assert(plain[p.0].matcher == rs.rules[p.0].matcher);
    lemma_aux_arm_answers(rs, p.0, kn, km, kc, args);
    let binds = cont_caps_binds(rs.name, p.0, kn, km, kc) + p.1;
    lemma_first_match_prefix(arms, inp, p.0, binds);
    assert(arms[p.0].body == spec_deliver(
        rs.name,
        p.0,
        0,
        spec_body_tokens(rs.rules[p.0].body->Immediate_0),
    ));
    lemma_subst_deliver(
        rs.name,
        p.0,
        spec_body_tokens(rs.rules[p.0].body->Immediate_0),
        kn,
        km,
        kc,
        p.1,
    );
}

proof fn lemma_parse_arms_chains_have_steps(ts: Seq<TokV>, i: int)
    requires
        0 <= i,
    ensures
        spec_parse_arms(ts, i) matches Ok(rules) ==> forall|r: int|
            0 <= r < rules.len() && (#[trigger] rules[r].body) is Chained
                ==> rules[r].body->Chained_0.len() > 0,
    decreases ts.len() - i,
{
    if i >= ts.len() || !(ts[i] is Group) || !(i + 2 < ts.len() && ts[i + 1] == TokV::Punct('=')
        && ts[i + 2] == TokV::Punct('>')) {
    } else {
        let j = spec_find_semi(ts, i + 3);
        crate::parse::lemma_find_semi_bounds(ts, i + 3);
        lemma_parse_arms_chains_have_steps(
            ts,
            if j < ts.len() {
                j + 1
            } else {
                ts.len() as int
            },
        );
    }
}

/// A parsed chain always has at least one binding: a replacement becomes
/// `Chained` only when it starts with `let`, and that first step is itself
/// a binding.  The rewrite's handling of a chain with no steps is therefore
/// never reached from the parser.
pub proof fn lemma_parsed_chains_have_steps(item: Seq<TokV>)
    ensures
        spec_parse_item(item) matches Ok(rs) ==> forall|r: int|
            0 <= r < rs.rules.len() && (#[trigger] rs.rules[r].body) is Chained
                ==> rs.rules[r].body->Chained_0.len() > 0,
{
    if item.len() == 4 && item[0] == TokV::Ident("macro_rules"@) && item[1] == TokV::Punct('!')
        && item[2] is Ident && (item[3] matches TokV::Group(Delim::Brace, _)) {
        lemma_parse_arms_chains_have_steps(item[3]->Group_1, 0);
    }
}

/// How one emitted arm parses back: its matcher verbatim, and its
/// replacement as the verbatim brace-delimited block.
pub open spec fn reparsed_rule(g: GenRuleV) -> RuleV {
    RuleV { matcher: g.matcher, body: BodyV::Immediate(seq![TokV::Group(Delim::Brace, g.body)]) }
}

proof fn lemma_arms_tokens_len(rules: Seq<GenRuleV>, i: int)
    requires
        0 <= i <= rules.len(),
    ensures
        spec_arms_tokens(rules, i).len() == 5 * (rules.len() - i),
    decreases rules.len() - i,
{
    if i < rules.len() {
        lemma_arms_tokens_len(rules, i + 1);
    }
}

proof fn lemma_arms_tokens_at(rules: Seq<GenRuleV>, i: int, k: int)
    requires
        0 <= i <= k < rules.len(),
    ensures
        spec_arms_tokens(rules, i)[5 * (k - i)] == TokV::Group(Delim::Paren, rules[k].matcher),
        spec_arms_tokens(rules, i)[5 * (k - i) + 1] == TokV::Punct('='),
        spec_arms_tokens(rules, i)[5 * (k - i) + 2] == TokV::Punct('>'),
        spec_arms_tokens(rules, i)[5 * (k - i) + 3] == TokV::Group(Delim::Brace, rules[k].body),
        spec_arms_tokens(rules, i)[5 * (k - i) + 4] == TokV::Punct(';'),
    decreases k - i,
{
    lemma_arms_tokens_len(rules, i + 1);
    if i < k {
        lemma_arms_tokens_at(rules, i + 1, k);
    }
}

proof fn lemma_parse_arms_suffix(rules: Seq<GenRuleV>, k: int)
    requires
        0 <= k <= rules.len(),
    ensures
        spec_parse_arms(spec_arms_tokens(rules, 0), 5 * k) == Ok::<Seq<RuleV>, ParseError>(
            Seq::new((rules.len() - k) as nat, |j: int| reparsed_rule(rules[k + j])),
        ),
    decreases rules.len() - k,
{
    let ts = spec_arms_tokens(rules, 0);
    lemma_arms_tokens_len(rules, 0);
    if k == rules.len() {
        assert(spec_parse_arms(ts, 5 * k) == Ok::<Seq<RuleV>, ParseError>(seq![]));
        assert(Seq::new(0, |j: int| reparsed_rule(rules[k + j])) =~= Seq::<RuleV>::empty());
    } else {
        lemma_arms_tokens_at(rules, 0, k);
        lemma_parse_arms_suffix(rules, k + 1);
        assert(spec_find_semi(ts, 5 * k + 4) == 5 * k + 4);
        assert(spec_find_semi(ts, 5 * k + 3) == 5 * k + 4);
        assert(spec_parse_body(ts, 5 * k + 3, 5 * k + 4) == Ok::<BodyV, ParseError>(
            BodyV::Immediate(ts.subrange(5 * k + 3, 5 * k + 4)),
        ));
        assert(ts.subrange(5 * k + 3, 5 * k + 4) =~= seq![
            TokV::Group(Delim::Brace, rules[k].body),
        ]);
        assert(spec_parse_arms(ts, 5 * (k + 1)) == Ok::<Seq<RuleV>, ParseError>(
            Seq::new((rules.len() - k - 1) as nat, |j: int| reparsed_rule(rules[k + 1 + j])),
        ));
        assert(seq![reparsed_rule(rules[k])] + Seq::new(
            (rules.len() - k - 1) as nat,
            |j: int| reparsed_rule(rules[k + 1 + j]),
        ) =~= Seq::new((rules.len() - k) as nat, |j: int| reparsed_rule(rules[k + j])));
    }
}

/// The emitted token sequence is itself a syntactically valid rule-set
/// definition: parsing it back succeeds, keeps the rule set's name, and
/// yields every emitted arm verbatim, in order.
pub proof fn lemma_emit_reparses(name: Seq<char>, rules: Seq<GenRuleV>)
    ensures
        spec_parse_item(spec_emit(name, rules)) == Ok::<RuleSetV, ParseError>(
            RuleSetV {
                name,
                rules: Seq::new(rules.len(), |j: int| reparsed_rule(rules[j])),
            },
        ),
{
    let item = spec_emit(name, rules);
    assert(item[0] == TokV::Ident("macro_rules"@));
    lemma_parse_arms_suffix(rules, 0);
    assert(Seq::new((rules.len() - 0) as nat, |j: int| reparsed_rule(rules[0 + j])) =~= Seq::new(
        rules.len(),
        |j: int| reparsed_rule(rules[j]),
    ));
}

/// Left-to-right evaluation order: the entry arm of a chained rule invokes
/// the first binding's rule set; the resumption arm that receives binding
/// `t`'s result invokes binding `t+1`'s rule set; and the last resumption
/// arm invokes no rule set at all — it only delivers the substituted tail
/// to the carried continuation.  So a chain's invocations happen exactly in
/// the order its bindings were written.
pub proof fn lemma_left_to_right_order(rs: RuleSetV, r: int, t: int)
    requires
        0 <= r < rs.rules.len(),
        rs.rules[r].body is Chained,
        0 <= t < rs.rules[r].body->Chained_0.len(),
    ensures
        spec_main_arm(rs.name, r, rs.rules[r]).body[0] == TokV::Ident(
            rs.rules[r].body->Chained_0[0].callee,
        ),
        t + 1 < rs.rules[r].body->Chained_0.len() ==> spec_step_arm(
            rs.name,
            r,
            t,
            rs.rules[r].matcher,
            rs.rules[r].body->Chained_0,
            rs.rules[r].body->Chained_1,
        ).body[0] == TokV::Ident(rs.rules[r].body->Chained_0[t + 1].callee),
        t + 1 == rs.rules[r].body->Chained_0.len() ==> spec_step_arm(
            rs.name,
            r,
            t,
            rs.rules[r].matcher,
            rs.rules[r].body->Chained_0,
            rs.rules[r].body->Chained_1,
        ).body[0] == TokV::Punct('$'),
{
}

} // verus!
