//! The parsed shape of a rule set: rules, bodies, binding chains.

use vstd::prelude::*;

use crate::token::{Tok, TokV, toks_view};

verus! {

/// The syntactic kind a captured fragment must satisfy.
#[derive(Clone, Copy, PartialEq, Eq, Structural, Debug)]
pub enum FragKind {
    /// One token tree.
    Tt,
    /// One identifier token.
    Ident,
    /// One literal token.
    Literal,
    /// A trailing token sequence.
    Expr,
}

/// One `let $capture:kind = callee!(args) in` step of a chained body.
pub struct Binding {
    pub capture: String,
    pub constraint: FragKind,
    pub callee: String,
    pub args: Vec<Tok>,
}

/// Mathematical shape of a [`Binding`].
#[verifier::ext_equal]
pub struct BindingV {
    pub capture: Seq<char>,
    pub constraint: FragKind,
    pub callee: Seq<char>,
    pub args: Seq<TokV>,
}

impl View for Binding {
    type V = BindingV;

    open spec fn view(&self) -> BindingV {
        BindingV {
            capture: self.capture@,
            constraint: self.constraint,
            callee: self.callee@,
            args: toks_view(self.args@),
        }
    }
}

pub open spec fn bindings_view(bs: Seq<Binding>) -> Seq<BindingV> {
    Seq::new(bs.len(), |i: int| bs[i]@)
}

/// An arm's replacement: either kept verbatim, or a binding chain and a tail.
pub enum Body {
    Immediate(Vec<Tok>),
    Chained(Vec<Binding>, Vec<Tok>),
}

/// Mathematical shape of a [`Body`].
#[verifier::ext_equal]
pub enum BodyV {
    Immediate(Seq<TokV>),
    Chained(Seq<BindingV>, Seq<TokV>),
}

impl View for Body {
    type V = BodyV;

    open spec fn view(&self) -> BodyV {
        match self {
            Body::Immediate(t) => BodyV::Immediate(toks_view(t@)),
            Body::Chained(bs, t) => BodyV::Chained(bindings_view(bs@), toks_view(t@)),
        }
    }
}

/// One arm of a rule set: a matcher and its replacement.
pub struct Rule {
    pub matcher: Vec<Tok>,
    pub body: Body,
}

/// Mathematical shape of a [`Rule`].
#[verifier::ext_equal]
pub struct RuleV {
    pub matcher: Seq<TokV>,
    pub body: BodyV,
}

impl View for Rule {
    type V = RuleV;

    open spec fn view(&self) -> RuleV {
        RuleV { matcher: toks_view(self.matcher@), body: self.body@ }
    }
}

pub open spec fn rules_view(rs: Seq<Rule>) -> Seq<RuleV> {
    Seq::new(rs.len(), |i: int| rs[i]@)
}

/// A whole rule set: its name and its arms, in order.
pub struct RuleSet {
    pub name: String,
    pub rules: Vec<Rule>,
}

/// Mathematical shape of a [`RuleSet`].
#[verifier::ext_equal]
pub struct RuleSetV {
    pub name: Seq<char>,
    pub rules: Seq<RuleV>,
}

impl View for RuleSet {
    type V = RuleSetV;

    open spec fn view(&self) -> RuleSetV {
        RuleSetV { name: self.name@, rules: rules_view(self.rules@) }
    }
}

/// One arm of the rewritten rule set: matcher and replacement, both bare
/// token sequences.
pub struct GenRule {
    pub matcher: Vec<Tok>,
    pub body: Vec<Tok>,
}

/// Mathematical shape of a [`GenRule`].
#[verifier::ext_equal]
pub struct GenRuleV {
    pub matcher: Seq<TokV>,
    pub body: Seq<TokV>,
}

impl View for GenRule {
    type V = GenRuleV;

    open spec fn view(&self) -> GenRuleV {
        GenRuleV { matcher: toks_view(self.matcher@), body: toks_view(self.body@) }
    }
}

pub open spec fn gen_rules_view(rs: Seq<GenRule>) -> Seq<GenRuleV> {
    Seq::new(rs.len(), |i: int| rs[i]@)
}

pub broadcast proof fn lemma_gen_rules_view_push(s: Seq<GenRule>, g: GenRule)
    ensures
        #[trigger] gen_rules_view(s.push(g)) == gen_rules_view(s).push(g@),
{
    assert(gen_rules_view(s.push(g)) =~= gen_rules_view(s).push(g@));
}

} // verus!
