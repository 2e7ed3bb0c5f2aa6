//! Tests for the continuation-passing rewrite, run through a small stand-in
//! for the host rewrite engine: first-match-wins arm selection, capture
//! substitution, and re-expansion while the result is a single call, with
//! `stringify!` built in.  The stand-in records every rule-set invocation,
//! so evaluation order is observable.

use cps::ast::GenRule;
use cps::cps;
use cps::parse::{parse_item, ParseErrorKind};
use cps::token::{toks_eq, Delim, Tok};
use cps::transform::transform;

fn id(s: &str) -> Tok {
    Tok::Ident(s.to_string())
}

fn li(s: &str) -> Tok {
    Tok::Lit(s.to_string())
}

fn pu(c: char) -> Tok {
    Tok::Punct(c)
}

fn gr(d: Delim, ts: Vec<Tok>) -> Tok {
    Tok::Group(d, ts)
}

fn clone_toks(ts: &[Tok]) -> Vec<Tok> {
    ts.iter().map(cps::token::tok_clone).collect()
}

/// Build a `macro_rules ! name { (m) => repl ; ... }` item.
fn make_item(name: &str, arms: Vec<(Vec<Tok>, Vec<Tok>)>) -> Vec<Tok> {
    let mut inner: Vec<Tok> = Vec::new();
    for (m, repl) in arms {
        inner.push(gr(Delim::Paren, m));
        inner.push(pu('='));
        inner.push(pu('>'));
        inner.extend(repl);
        inner.push(pu(';'));
    }
    vec![id("macro_rules"), pu('!'), id(name), gr(Delim::Brace, inner)]
}

/// The tokens of one binding step, `let $cap:kind = callee ! ( args ) in`.
fn binding(cap: &str, kind: &str, callee: &str, args: Vec<Tok>) -> Vec<Tok> {
    vec![
        id("let"),
        pu('$'),
        id(cap),
        pu(':'),
        id(kind),
        pu('='),
        id(callee),
        pu('!'),
        gr(Delim::Paren, args),
        id("in"),
    ]
}

type Binds = Vec<(String, Vec<Tok>)>;

fn lookup<'a>(bs: &'a Binds, name: &str) -> Option<&'a Vec<Tok>> {
    bs.iter().find(|(n, _)| n == name).map(|(_, v)| v)
}

fn frag_known(s: &str) -> bool {
    matches!(s, "tt" | "ident" | "literal" | "expr")
}

/// First-match-wins matching, as the host engine does it.
fn match_pat(pat: &[Tok], inp: &[Tok]) -> Option<Binds> {
    if pat.is_empty() {
        return if inp.is_empty() { Some(Vec::new()) } else { None };
    }
    if pat.len() >= 4 {
        if let (Tok::Punct('$'), Tok::Ident(name), Tok::Punct(':'), Tok::Ident(kind)) =
            (&pat[0], &pat[1], &pat[2], &pat[3])
        {
            if frag_known(kind) {
                let one = |ok: bool| -> Option<Binds> {
                    if !ok || inp.is_empty() {
                        return None;
                    }
                    let mut bs = vec![(name.clone(), clone_toks(&inp[..1]))];
                    bs.extend(match_pat(&pat[4..], &inp[1..])?);
                    Some(bs)
                };
                return match kind.as_str() {
                    "tt" => one(true),
                    "ident" => one(matches!(inp.first(), Some(Tok::Ident(_)))),
                    "literal" => one(matches!(inp.first(), Some(Tok::Lit(_)))),
                    _ => {
                        if pat.len() == 4 {
                            Some(vec![(name.clone(), clone_toks(inp))])
                        } else {
                            None
                        }
                    }
                };
            }
        }
    }
    if pat.len() == 3 {
        if let (Tok::Punct('$'), Tok::Group(Delim::Paren, sub), Tok::Punct('*')) =
            (&pat[0], &pat[1], &pat[2])
        {
            if sub.len() == 4 {
                if let (Tok::Punct('$'), Tok::Ident(name)) = (&sub[0], &sub[1]) {
                    return Some(vec![(name.clone(), clone_toks(inp))]);
                }
            }
        }
    }
    if let Tok::Group(d, sub) = &pat[0] {
        if let Some(Tok::Group(d2, sub2)) = inp.first() {
            if d == d2 {
                let mut bs = match_pat(sub, sub2)?;
                bs.extend(match_pat(&pat[1..], &inp[1..])?);
                return Some(bs);
            }
        }
        return None;
    }
    match inp.first() {
        Some(t) if cps::token::tok_eq(t, &pat[0]) => match_pat(&pat[1..], &inp[1..]),
        _ => None,
    }
}

/// Capture substitution, as the host engine does it.
fn subst(body: &[Tok], bs: &Binds) -> Vec<Tok> {
    let mut out: Vec<Tok> = Vec::new();
    let mut i = 0;
    while i < body.len() {
        if let Tok::Punct('$') = &body[i] {
            if i + 1 < body.len() {
                if let Tok::Ident(name) = &body[i + 1] {
                    if let Some(v) = lookup(bs, name) {
                        out.extend(clone_toks(v));
                        i += 2;
                        continue;
                    }
                }
                if i + 2 < body.len() {
                    if let (Tok::Group(Delim::Paren, sub), Tok::Punct('*')) =
                        (&body[i + 1], &body[i + 2])
                    {
                        out.extend(subst(sub, bs));
                        i += 3;
                        continue;
                    }
                }
            }
        }
        if let Tok::Group(d, sub) = &body[i] {
            out.push(Tok::Group(*d, subst(sub, bs)));
        } else {
            out.push(cps::token::tok_clone(&body[i]));
        }
        i += 1;
    }
    out
}

fn render(ts: &[Tok]) -> String {
    let parts: Vec<String> = ts
        .iter()
        .map(|t| match t {
            Tok::Ident(s) => s.clone(),
            Tok::Lit(s) => s.clone(),
            Tok::Punct(c) => c.to_string(),
            Tok::Group(d, sub) => {
                let (o, c) = match d {
                    Delim::Paren => ('(', ')'),
                    Delim::Bracket => ('[', ']'),
                    Delim::Brace => ('{', '}'),
                };
                format!("{}{}{}", o, render(sub), c)
            }
        })
        .collect();
    parts.join(" ")
}

type Env = Vec<(String, Vec<GenRule>)>;

/// Expand a call to a fixed point, recording each rule set invoked.
fn expand(
    env: &Env,
    name: &str,
    args: &[Tok],
    fuel: u32,
    trace: &mut Vec<String>,
) -> Result<Vec<Tok>, String> {
    if fuel == 0 {
        return Err("out of fuel".to_string());
    }
    trace.push(name.to_string());
    if name == "stringify" {
        return Ok(vec![li(&format!("\"{}\"", render(args)))]);
    }
    let rules = match env.iter().find(|(n, _)| n == name) {
        Some((_, r)) => r,
        None => return Err(format!("unknown rule set {}", name)),
    };
    for rule in rules {
        if let Some(bs) = match_pat(&rule.matcher, args) {
            let out = subst(&rule.body, &bs);
            if out.len() == 3 {
                if let (Tok::Ident(n2), Tok::Punct('!'), Tok::Group(Delim::Paren, a2)) =
                    (&out[0], &out[1], &out[2])
                {
                    let n2 = n2.clone();
                    let a2 = a2.clone();
                    return expand(env, &n2, &a2, fuel - 1, trace);
                }
            }
            return Ok(out);
        }
    }
    Err(format!("no rule of {} matched: {}", name, render(args)))
}

fn rules_of(item: Vec<Tok>) -> Vec<GenRule> {
    let rs = parse_item(&item).expect("parse");
    transform(&rs)
}

fn assert_toks(actual: &Vec<Tok>, expected: &Vec<Tok>) {
    assert!(
        toks_eq(actual, expected),
        "got `{}`, expected `{}`",
        render(actual),
        render(expected)
    );
}

fn monobinding_env() -> Env {
    let item = make_item(
        "macro1",
        vec![
            (vec![], vec![gr(Delim::Brace, vec![id("BaseCase")])]),
            (
                vec![id("stringify")],
                {
                    let mut r = binding("x", "tt", "macro1", vec![]);
                    r.push(gr(
                        Delim::Brace,
                        vec![id("stringify"), pu('!'), gr(Delim::Paren, vec![pu('$'), id("x")])],
                    ));
                    r
                },
            ),
        ],
    );
    vec![("macro1".to_string(), rules_of(item))]
}

#[test]
fn stringify_order_single_call() {
    let env = monobinding_env();
    let mut trace = Vec::new();
    let out = expand(&env, "macro1", &[id("stringify")], 100, &mut trace).unwrap();
    assert_toks(&out, &vec![li("\"BaseCase\"")]);
}

fn unmodified_env() -> Env {
    let item = make_item(
        "macro1",
        vec![
            (vec![], vec![gr(Delim::Brace, vec![li("\"Empty Call\"")])]),
            (vec![id("a")], vec![gr(Delim::Brace, vec![li("1")])]),
            (vec![li("12.5")], vec![gr(Delim::Brace, vec![li("2")])]),
            (
                vec![id("TestParens")],
                vec![gr(
                    Delim::Brace,
                    vec![gr(Delim::Paren, vec![li("5"), pu('+'), li("10")])],
                )],
            ),
        ],
    );
    vec![("macro1".to_string(), rules_of(item))]
}

#[test]
fn empty_preserved() {
    let env = unmodified_env();
    let out = expand(&env, "macro1", &[], 100, &mut Vec::new()).unwrap();
    assert_toks(&out, &vec![li("\"Empty Call\"")]);
}

#[test]
fn ident_preserved() {
    let env = unmodified_env();
    let out = expand(&env, "macro1", &[id("a")], 100, &mut Vec::new()).unwrap();
    assert_toks(&out, &vec![li("1")]);
}

#[test]
fn literal_preserved() {
    let env = unmodified_env();
    let out = expand(&env, "macro1", &[li("12.5")], 100, &mut Vec::new()).unwrap();
    assert_toks(&out, &vec![li("2")]);
}

#[test]
fn parens_returned() {
    // A call site computing `macro1!(TestParens) * 2` must see 30: the
    // expansion has to be the parenthesized sum, kept intact so the
    // multiplication applies to the whole of it.
    let env = unmodified_env();
    let out = expand(&env, "macro1", &[id("TestParens")], 100, &mut Vec::new()).unwrap();
    assert_toks(&out, &vec![gr(Delim::Paren, vec![li("5"), pu('+'), li("10")])]);
}

#[test]
fn two_step_chain_runs_left_to_right() {
    // `f` is resolved fully before `g` is invoked, and `g` sees `f`'s value.
    let f = make_item("f", vec![(vec![], vec![gr(Delim::Brace, vec![id("one")])])]);
    let g = make_item(
        "g",
        vec![(
            vec![pu('$'), id("v"), pu(':'), id("tt")],
            vec![gr(
                Delim::Brace,
                vec![gr(Delim::Bracket, vec![pu('$'), id("v"), id("two")])],
            )],
        )],
    );
    let m = make_item(
        "m",
        vec![(vec![], {
            let mut r = binding("a", "tt", "f", vec![]);
            r.extend(binding("b", "tt", "g", vec![pu('$'), id("a")]));
            r.push(gr(
                Delim::Brace,
                vec![gr(Delim::Bracket, vec![pu('$'), id("a"), pu('$'), id("b")])],
            ));
            r
        })],
    );
    let env: Env = vec![
        ("f".to_string(), rules_of(f)),
        ("g".to_string(), rules_of(g)),
        ("m".to_string(), rules_of(m)),
    ];
    let mut trace = Vec::new();
    let out = expand(&env, "m", &[], 200, &mut trace).unwrap();
    assert_toks(
        &out,
        &vec![gr(
            Delim::Bracket,
            vec![id("one"), gr(Delim::Bracket, vec![id("one"), id("two")])],
        )],
    );
    let f_at = trace.iter().position(|n| n == "f").unwrap();
    let g_at = trace.iter().position(|n| n == "g").unwrap();
    assert!(f_at < g_at, "f must be resolved before g: {:?}", trace);
}

fn fib_env() -> Env {
    // (x) counts 1, (x x) counts 2, and longer runs sum the two
    // self-invocations on one fewer and two fewer markers.
    let mut chain = binding("a", "expr", "fib", {
        let mut a = vec![id("x")];
        a.extend(vec![
            pu('$'),
            gr(Delim::Paren, vec![pu('$'), id("r")]),
            pu('*'),
        ]);
        a
    });
    chain.extend(binding(
        "b",
        "expr",
        "fib",
        vec![pu('$'), gr(Delim::Paren, vec![pu('$'), id("r")]), pu('*')],
    ));
    chain.push(gr(Delim::Brace, vec![pu('$'), id("a"), pu('$'), id("b")]));
    let item = make_item(
        "fib",
        vec![
            (vec![id("x")], vec![gr(Delim::Brace, vec![id("y")])]),
            (
                vec![id("x"), id("x")],
                vec![gr(Delim::Brace, vec![id("y"), id("y")])],
            ),
            (
                {
                    let mut m = vec![id("x"), id("x")];
                    m.extend(vec![
                        pu('$'),
                        gr(
                            Delim::Paren,
                            vec![pu('$'), id("r"), pu(':'), id("tt")],
                        ),
                        pu('*'),
                    ]);
                    m
                },
                chain,
            ),
        ],
    );
    vec![("fib".to_string(), rules_of(item))]
}

#[test]
fn self_recursion_seven_markers_yield_twenty_one() {
    let env = fib_env();
    let args: Vec<Tok> = (0..7).map(|_| id("x")).collect();
    let out = expand(&env, "fib", &args, 100_000, &mut Vec::new()).unwrap();
    let expected: Vec<Tok> = (0..21).map(|_| id("y")).collect();
    assert_toks(&out, &expected);
}

#[test]
fn cross_rule_set_composition_matches_inlining() {
    // A's chain invokes rewritten B; the result equals B's selected tail
    // manually inlined into A's chain.
    let b = make_item(
        "b",
        vec![(
            vec![pu('$'), id("v"), pu(':'), id("tt")],
            vec![gr(
                Delim::Brace,
                vec![gr(Delim::Bracket, vec![pu('$'), id("v")])],
            )],
        )],
    );
    let a = make_item(
        "a",
        vec![(vec![id("go"), pu('$'), id("v"), pu(':'), id("tt")], {
            let mut r = binding("w", "tt", "b", vec![pu('$'), id("v")]);
            r.push(gr(
                Delim::Brace,
                vec![gr(Delim::Paren, vec![pu('$'), id("w")])],
            ));
            r
        })],
    );
    // A with B's arm inlined at the binding position.
    let inlined = make_item(
        "a2",
        vec![(
            vec![id("go"), pu('$'), id("v"), pu(':'), id("tt")],
            vec![gr(
                Delim::Brace,
                vec![gr(
                    Delim::Paren,
                    vec![gr(Delim::Bracket, vec![pu('$'), id("v")])],
                )],
            )],
        )],
    );
    let env: Env = vec![
        ("a".to_string(), rules_of(a)),
        ("b".to_string(), rules_of(b)),
        ("a2".to_string(), rules_of(inlined)),
    ];
    let composed = expand(&env, "a", &[id("go"), id("k")], 200, &mut Vec::new()).unwrap();
    let direct = expand(&env, "a2", &[id("go"), id("k")], 200, &mut Vec::new()).unwrap();
    assert!(toks_eq(&composed, &direct));
    assert_toks(
        &composed,
        &vec![gr(
            Delim::Paren,
            vec![gr(Delim::Bracket, vec![id("k")])],
        )],
    );
}

#[test]
fn emitted_item_keeps_shape_and_name() {
    let item = make_item("keepme", vec![(vec![], vec![gr(Delim::Brace, vec![id("ok")])])]);
    let out = cps(&vec![], &item).unwrap();
    assert_eq!(out.len(), 4);
    assert!(cps::token::tok_eq(&out[0], &id("macro_rules")));
    assert!(cps::token::tok_eq(&out[1], &pu('!')));
    assert!(cps::token::tok_eq(&out[2], &id("keepme")));
    assert!(matches!(&out[3], Tok::Group(Delim::Brace, _)));
}

#[test]
fn missing_in_is_an_error() {
    let arm = vec![
        id("let"),
        pu('$'),
        id("x"),
        pu(':'),
        id("tt"),
        pu('='),
        id("f"),
        pu('!'),
        gr(Delim::Paren, vec![]),
        gr(Delim::Brace, vec![id("t")]),
    ];
    let item = make_item("m", vec![(vec![], arm)]);
    let e = cps(&vec![], &item).unwrap_err();
    assert_eq!(e.kind, ParseErrorKind::ChainIn);
}

#[test]
fn missing_invocation_parens_is_an_error() {
    let arm = vec![
        id("let"),
        pu('$'),
        id("x"),
        pu(':'),
        id("tt"),
        pu('='),
        id("f"),
        id("in"),
        gr(Delim::Brace, vec![id("t")]),
    ];
    let item = make_item("m", vec![(vec![], arm)]);
    let e = cps(&vec![], &item).unwrap_err();
    assert_eq!(e.kind, ParseErrorKind::ChainInvocation);
}

#[test]
fn unknown_fragment_kind_is_an_error() {
    let arm = vec![
        id("let"),
        pu('$'),
        id("x"),
        pu(':'),
        id("mystery"),
        pu('='),
        id("f"),
        pu('!'),
        gr(Delim::Paren, vec![]),
        id("in"),
        gr(Delim::Brace, vec![id("t")]),
    ];
    let item = make_item("m", vec![(vec![], arm)]);
    let e = cps(&vec![], &item).unwrap_err();
    assert_eq!(e.kind, ParseErrorKind::ChainConstraint);
}

#[test]
fn missing_tail_block_is_an_error() {
    let arm = binding("x", "tt", "f", vec![]);
    let item = make_item("m", vec![(vec![], arm)]);
    let e = cps(&vec![], &item).unwrap_err();
    assert_eq!(e.kind, ParseErrorKind::ChainTail);
}

#[test]
fn non_rule_set_item_is_an_error() {
    let e = cps(&vec![], &vec![id("fn"), id("main")]).unwrap_err();
    assert_eq!(e.kind, ParseErrorKind::NotRuleSet);
}

#[test]
fn chained_callers_can_call_plain_rule_sets_continued() {
    // A rewritten all-Immediate rule set still answers continued calls,
    // which is what lets it serve as a step inside another chain.
    let base = make_item(
        "base",
        vec![(vec![], vec![gr(Delim::Brace, vec![id("leaf")])])],
    );
    let m = make_item(
        "m",
        vec![(vec![], {
            let mut r = binding("a", "tt", "base", vec![]);
            r.push(gr(Delim::Brace, vec![pu('$'), id("a"), pu('$'), id("a")]));
            r
        })],
    );
    let env: Env = vec![
        ("base".to_string(), rules_of(base)),
        ("m".to_string(), rules_of(m)),
    ];
    let out = expand(&env, "m", &[], 200, &mut Vec::new()).unwrap();
    assert_toks(&out, &vec![id("leaf"), id("leaf")]);
}

#[test]
fn expanding_with_bar_yields_basecase() {
    // The literal scenario: `() => { BaseCase }` and
    // `(bar) => let $x:tt = self!() in { stringify!($x) }`.
    let item = make_item(
        "foo",
        vec![
            (vec![], vec![gr(Delim::Brace, vec![id("BaseCase")])]),
            (vec![id("bar")], {
                let mut r = binding("x", "tt", "foo", vec![]);
                r.push(gr(
                    Delim::Brace,
                    vec![id("stringify"), pu('!'), gr(Delim::Paren, vec![pu('$'), id("x")])],
                ));
                r
            }),
        ],
    );
    let env: Env = vec![("foo".to_string(), rules_of(item))];
    let out = expand(&env, "foo", &[id("bar")], 100, &mut Vec::new()).unwrap();
    assert_toks(&out, &vec![li("\"BaseCase\"")]);
}

#[test]
fn missing_capture_dollar_is_an_error() {
    let arm = vec![
        id("let"),
        id("x"),
        pu(':'),
        id("tt"),
        pu('='),
        id("f"),
        pu('!'),
        gr(Delim::Paren, vec![]),
        id("in"),
        gr(Delim::Brace, vec![id("t")]),
    ];
    let item = make_item("m", vec![(vec![], arm)]);
    let e = cps(&vec![], &item).unwrap_err();
    assert_eq!(e.kind, ParseErrorKind::ChainCapture);
}

#[test]
fn missing_equals_is_an_error() {
    let arm = vec![
        id("let"),
        pu('$'),
        id("x"),
        pu(':'),
        id("tt"),
        id("f"),
        pu('!'),
        gr(Delim::Paren, vec![]),
        id("in"),
        gr(Delim::Brace, vec![id("t")]),
    ];
    let item = make_item("m", vec![(vec![], arm)]);
    let e = cps(&vec![], &item).unwrap_err();
    assert_eq!(e.kind, ParseErrorKind::ChainEquals);
}

#[test]
fn arm_without_matcher_group_is_an_error() {
    let item = vec![
        id("macro_rules"),
        pu('!'),
        id("m"),
        gr(Delim::Brace, vec![id("oops")]),
    ];
    let e = cps(&vec![], &item).unwrap_err();
    assert_eq!(e.kind, ParseErrorKind::ArmMatcher);
}

#[test]
fn arm_without_arrow_is_an_error() {
    let item = vec![
        id("macro_rules"),
        pu('!'),
        id("m"),
        gr(
            Delim::Brace,
            vec![gr(Delim::Paren, vec![]), gr(Delim::Brace, vec![id("t")]), pu(';')],
        ),
    ];
    let e = cps(&vec![], &item).unwrap_err();
    assert_eq!(e.kind, ParseErrorKind::ArmArrow);
}

#[test]
fn emitted_item_reparses_as_rule_set() {
    // The emitted tokens are themselves a valid rule-set definition: the
    // parser accepts them, keeps the name, and sees one verbatim arm per
    // emitted rule.
    let item = make_item(
        "again",
        vec![
            (vec![], vec![gr(Delim::Brace, vec![id("base")])]),
            (vec![id("go")], {
                let mut r = binding("x", "tt", "again", vec![]);
                r.push(gr(Delim::Brace, vec![pu('$'), id("x")]));
                r
            }),
        ],
    );
    let emitted = cps(&vec![], &item).unwrap();
    let reparsed = parse_item(&emitted).unwrap();
    assert_eq!(reparsed.name, "again");
    // two continued-call arms, one resumption arm, the return arm, and the
    // two in-order arms
    assert_eq!(reparsed.rules.len(), 6);
}
