//! The token model: identifiers, literals, punctuation, delimited groups.
//!
//! Rule sets are manipulated as sequences of these token trees.  A `$` sign
//! is an ordinary punctuation token; capture syntax such as `$x:tt` is
//! recognized positionally by the modules that care about it.

use vstd::prelude::*;

verus! {

broadcast use vstd::std_specs::vec::group_vec_axioms;

/// The three bracket shapes a token group can have.
#[derive(Clone, Copy, PartialEq, Eq, Structural, Debug)]
pub enum Delim {
    Paren,
    Bracket,
    Brace,
}

/// One token tree.
#[derive(Debug)]
pub enum Tok {
    Ident(String),
    Lit(String),
    Punct(char),
    Group(Delim, Vec<Tok>),
}

/// The mathematical shape of a token tree, with text as character sequences.
pub enum TokV {
    Ident(Seq<char>),
    Lit(Seq<char>),
    Punct(char),
    Group(Delim, Seq<TokV>),
}

/// The abstract value of one executable token tree.
pub open spec fn tok_view(t: Tok) -> TokV
    decreases t,
{
    match t {
        Tok::Ident(s) => TokV::Ident(s@),
        Tok::Lit(s) => TokV::Lit(s@),
        Tok::Punct(c) => TokV::Punct(c),
        Tok::Group(d, ts) => TokV::Group(d, toks_view(ts@)),
    }
}

/// The abstract value of a sequence of executable token trees.
pub open spec fn toks_view(ts: Seq<Tok>) -> Seq<TokV>
    decreases ts,
{
    if ts.len() == 0 {
        Seq::empty()
    } else {
        seq![tok_view(ts[0])] + toks_view(ts.drop_first())
    }
}

impl View for Tok {
    type V = TokV;

    open spec fn view(&self) -> TokV {
        tok_view(*self)
    }
}

pub broadcast proof fn lemma_toks_view_len(ts: Seq<Tok>)
    ensures
        (#[trigger] toks_view(ts)).len() == ts.len(),
    decreases ts,
{
    if ts.len() != 0 {
        lemma_toks_view_len(ts.drop_first());
    }
}

pub broadcast proof fn lemma_toks_view_index(ts: Seq<Tok>, i: int)
    requires
        0 <= i < ts.len(),
    ensures
        #[trigger] toks_view(ts)[i] == tok_view(ts[i]),
    decreases ts,
{
    lemma_toks_view_len(ts);
    if i > 0 {
        lemma_toks_view_index(ts.drop_first(), i - 1);
    }
}

pub broadcast proof fn lemma_toks_view_add(a: Seq<Tok>, b: Seq<Tok>)
    ensures
        #[trigger] toks_view(a + b) == toks_view(a) + toks_view(b),
{
    broadcast use {lemma_toks_view_len, lemma_toks_view_index};

    assert forall|i: int| 0 <= i < (a + b).len() implies toks_view(a + b)[i] == (toks_view(a)
        + toks_view(b))[i] by {
        if i < a.len() {
            assert((a + b)[i] == a[i]);
        } else {
            assert((a + b)[i] == b[i - a.len()]);
        }
    }
    assert(toks_view(a + b) =~= toks_view(a) + toks_view(b));
}

pub broadcast proof fn lemma_toks_view_push(ts: Seq<Tok>, t: Tok)
    ensures
        #[trigger] toks_view(ts.push(t)) == toks_view(ts).push(tok_view(t)),
{
    broadcast use {lemma_toks_view_len, lemma_toks_view_index};

    assert(ts.push(t) =~= ts + seq![t]);
    lemma_toks_view_add(ts, seq![t]);
    assert(toks_view(seq![t]) =~= seq![tok_view(t)]);
    assert(toks_view(ts) + seq![tok_view(t)] =~= toks_view(ts).push(tok_view(t)));
}

/// Push one token, tracking the abstract value.
pub fn push_tok(v: &mut Vec<Tok>, t: Tok)
    ensures
        toks_view(final(v)@) == toks_view(old(v)@).push(tok_view(t)),
{
    let ghost tt = t;
    let ghost pre = v@;
    v.push(t);
    proof {
        lemma_toks_view_push(pre, tt);
    }
}

/// Append a token sequence, tracking the abstract value.
pub fn append_toks(v: &mut Vec<Tok>, other: Vec<Tok>)
    ensures
        toks_view(final(v)@) == toks_view(old(v)@) + toks_view(other@),
{
    let mut other = other;
    let ghost pre = v@;
    let ghost ov = other@;
    v.append(&mut other);
    proof {
        lemma_toks_view_add(pre, ov);
    }
}

pub broadcast proof fn lemma_toks_view_skip_unfold(ts: Seq<Tok>, i: int)
    requires
        0 <= i < ts.len(),
    ensures
        #[trigger] toks_view(ts).skip(i) == seq![tok_view(ts[i])] + toks_view(ts).skip(i + 1),
{
    broadcast use {lemma_toks_view_len, lemma_toks_view_index};

    assert(toks_view(ts).skip(i) =~= seq![tok_view(ts[i])] + toks_view(ts).skip(i + 1));
}

/// Deep copy of one token tree.
pub fn tok_clone(t: &Tok) -> (r: Tok)
    ensures
        r@ == t@,
    decreases *t, 0int,
{
    match t {
        Tok::Ident(s) => Tok::Ident(s.clone()),
        Tok::Lit(s) => Tok::Lit(s.clone()),
        Tok::Punct(c) => Tok::Punct(*c),
        Tok::Group(d, ts) => {
            let inner = toks_clone_from(ts, 0);
            proof {
                assert(toks_view(ts@).skip(0) =~= toks_view(ts@));
            }
            Tok::Group(*d, inner)
        },
    }
}

/// Deep copies of the tokens from position `i` on.
pub fn toks_clone_from(v: &Vec<Tok>, i: usize) -> (r: Vec<Tok>)
    requires
        i <= v.len(),
    ensures
        toks_view(r@) == toks_view(v@).skip(i as int),
        r@.len() == v@.len() - i,
    decreases *v, v@.len() - i + 1,
{
    broadcast use
        {lemma_toks_view_len, lemma_toks_view_index, lemma_toks_view_skip_unfold};

    if i == v.len() {
        let r: Vec<Tok> = Vec::new();
        proof {
            assert(toks_view(r@) =~= toks_view(v@).skip(i as int));
        }
        r
    } else {
        let mut rest = toks_clone_from(v, i + 1);
        let c = tok_clone(&v[i]);
        let ghost old_rest = rest@;
        rest.insert(0, c);
        proof {
            assert(rest@ =~= seq![c] + old_rest);
            lemma_toks_view_add(seq![c], old_rest);
            assert(toks_view(seq![c]) =~= seq![tok_view(c)]);
        }
        rest
    }
}

/// Deep copy of a whole token sequence.
pub fn toks_clone(v: &Vec<Tok>) -> (r: Vec<Tok>)
    ensures
        toks_view(r@) == toks_view(v@),
        r@.len() == v@.len(),
{
    let r = toks_clone_from(v, 0);
    proof {
        assert(toks_view(v@).skip(0) =~= toks_view(v@));
    }
    r
}

/// Whether `t` is the identifier with text `s`.
pub fn tok_is_ident(t: &Tok, s: &str) -> (r: bool)
    ensures
        r == (t@ == TokV::Ident(s@)),
{
    match t {
        Tok::Ident(x) => {
            let o = s.to_owned();
            *x == o
        },
        _ => false,
    }
}

/// Whether `t` is the punctuation character `c`.
pub fn tok_is_punct(t: &Tok, c: char) -> (r: bool)
    ensures
        r == (t@ == TokV::Punct(c)),
{
    match t {
        Tok::Punct(x) => *x == c,
        _ => false,
    }
}

/// Structural equality of two token trees, compared as abstract values.
pub fn tok_eq(a: &Tok, b: &Tok) -> (r: bool)
    ensures
        r == (a@ == b@),
    decreases *a, 0int,
{
    match (a, b) {
        (Tok::Ident(x), Tok::Ident(y)) => *x == *y,
        (Tok::Lit(x), Tok::Lit(y)) => *x == *y,
        (Tok::Punct(x), Tok::Punct(y)) => x == y,
        (Tok::Group(d1, v1), Tok::Group(d2, v2)) => {
            if *d1 != *d2 {
                false
            } else {
                let r = toks_eq_from(v1, v2, 0);
                proof {
                    assert(toks_view(v1@).skip(0) =~= toks_view(v1@));
                    assert(toks_view(v2@).skip(0) =~= toks_view(v2@));
                }
                r
            }
        },
        _ => false,
    }
}

/// Structural equality of two token sequences from position `i` on.
pub fn toks_eq_from(a: &Vec<Tok>, b: &Vec<Tok>, i: usize) -> (r: bool)
    requires
        i <= a.len(),
        i <= b.len(),
    ensures
        r == (toks_view(a@).skip(i as int) == toks_view(b@).skip(i as int)),
    decreases *a, a@.len() - i + 1,
{
    broadcast use {lemma_toks_view_len, lemma_toks_view_index};

    if a.len() - i != b.len() - i {
        proof {
            assert(toks_view(a@).skip(i as int).len() != toks_view(b@).skip(i as int).len());
        }
        false
    } else if i == a.len() && i == b.len() {
        proof {
            assert(toks_view(a@).skip(i as int) =~= toks_view(b@).skip(i as int));
        }
        true
    } else {
        let hd = tok_eq(&a[i], &b[i]);
        if !hd {
            proof {
                assert(toks_view(a@).skip(i as int)[0] == tok_view(a@[i as int]));
                assert(toks_view(b@).skip(i as int)[0] == tok_view(b@[i as int]));
            }
            false
        } else {
            let rest = toks_eq_from(a, b, i + 1);
            proof {
                let sa = toks_view(a@);
                let sb = toks_view(b@);
                assert(sa.skip(i as int).drop_first() =~= sa.skip(i + 1));
                assert(sb.skip(i as int).drop_first() =~= sb.skip(i + 1));
                assert(sa.skip(i as int)[0] == tok_view(a@[i as int]));
                assert(sb.skip(i as int)[0] == tok_view(b@[i as int]));
                if rest {
                    assert(sa.skip(i as int) =~= sb.skip(i as int)) by {
                        assert(forall|j: int|
                            1 <= j < sa.skip(i as int).len() ==> #[trigger] sa.skip(i as int)[j]
                                == sa.skip(i as int).drop_first()[j - 1]);
                        assert(forall|j: int|
                            1 <= j < sb.skip(i as int).len() ==> #[trigger] sb.skip(i as int)[j]
                                == sb.skip(i as int).drop_first()[j - 1]);
                    }
                } else {
                    if sa.skip(i as int) == sb.skip(i as int) {
                        assert(sa.skip(i as int).drop_first() == sb.skip(i as int).drop_first());
                    }
                }
            }
            hd && rest
        }
    }
}

/// Structural equality of two whole token sequences.
pub fn toks_eq(a: &Vec<Tok>, b: &Vec<Tok>) -> (r: bool)
    ensures
        r == (toks_view(a@) == toks_view(b@)),
{
    let r = toks_eq_from(a, b, 0);
    proof {
        assert(toks_view(a@).skip(0) =~= toks_view(a@));
        assert(toks_view(b@).skip(0) =~= toks_view(b@));
    }
    r
}

} // verus!
