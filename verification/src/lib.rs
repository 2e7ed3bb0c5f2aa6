//! Continuation-passing rewrites for pattern-matching rule sets.
//!
//! A rule set is an ordered list of arms, each a matcher and a replacement.
//! An arm's replacement may be written as a chain of named intermediate
//! results, `let $x:tt = other!(args) in ... { tail }`, where each step
//! invokes another rule set.  A host rewrite engine expands nested
//! invocations outside-in, so such chains would normally resolve in a
//! confusing order.  This crate rewrites a rule set written with the
//! chained syntax into an equivalent one that threads an explicit
//! continuation through every step, forcing the steps to resolve in the
//! left-to-right order the author wrote.  An invoked rule set must itself
//! have been rewritten by this crate; that is not checked here, and a
//! violation only surfaces later, in the host engine.
//!
//! The crate works on its own token model ([`token::Tok`]); turning host
//! syntax trees into that model and back is the caller's concern.  The
//! modules: [`token`] holds the token model, [`ast`] the parsed shape of a
//! rule set, [`parse`] recognizes the chained syntax, [`names`] builds the
//! synthetic identifiers, [`transform`] holds the rewrite and the emitter,
//! [`expand`] models the host engine's first-match expansion so the
//! rewrite's guarantees can be stated and tested, and [`laws`] proves those
//! guarantees.

use vstd::prelude::*;

pub mod ast;
pub mod expand;
pub mod laws;
pub mod names;
pub mod parse;
pub mod token;
pub mod transform;

verus! {

broadcast use vstd::std_specs::vec::group_vec_axioms;

use crate::ast::RuleSetV;
use crate::token::{Tok, toks_view};
use crate::parse::{ParseError, spec_parse_item};
use crate::transform::{spec_emit, spec_transform};

/// Rewrite one rule-set definition into its continuation-passing form.
///
/// `item` must be the token sequence of a whole definition,
/// `macro_rules ! <name> { <arms> }`.  On success the result is a token
/// sequence of the same shape, with the same name, holding the rewritten
/// arms; on failure it is the parse error, and nothing is emitted.  `attr`
/// is the attribute payload handed to the entry point; it is unused, and
/// accepted only so the signature can stay stable.
pub fn cps(attr: &Vec<Tok>, item: &Vec<Tok>) -> (r: Result<Vec<Tok>, ParseError>)
    ensures
        match r {
            Ok(out) => spec_parse_item(toks_view(item@)) is Ok && toks_view(out@) == spec_emit(
                spec_parse_item(toks_view(item@))->Ok_0.name,
                spec_transform(spec_parse_item(toks_view(item@))->Ok_0),
            ),
            Err(e) => spec_parse_item(toks_view(item@)) == Err::<RuleSetV, ParseError>(e),
        },
{
    let _ = attr;
    let rs = match parse::parse_item(item) {
        Ok(rs) => rs,
        Err(e) => {
            return Err(e);
        },
    };
    let n = rs.rules.len();
    proof {
        assert(rs@.rules.len() == n);
    }
    let rules = transform::transform(&rs);
    Ok(transform::emit(&rs.name, &rules))
}

} // verus!
