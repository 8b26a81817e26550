//! Tests of the parser, the validator, and the definition / call
//! rewriters.

use pre::diag::{DiagCode, Severity, Span};
use pre::parse::{parse_assert_pre_attr, parse_precondition, AssertPreAttr};
use pre::precondition::{has_unfinished_reason, Precondition, PreconditionKind, Reason};
use pre::rewrite::{
    check_preconditions, is_attr, process_call, process_file, render_function, ProcessedCall,
};
use pre::syntax::{
    Attr, CallExpr, FnDecl, Item, Param, Path, Signature, SourceFile, Visibility,
};
use pre::token::{Tok, Token};

fn sp(lo: usize, hi: usize) -> Span {
    Span { lo, hi }
}

fn tok(t: Tok, lo: usize, hi: usize) -> Token {
    Token { tok: t, span: sp(lo, hi) }
}

fn path(segs: &[&str]) -> Path {
    Path {
        leading_colon: false,
        segs: segs.iter().map(|s| s.to_string()).collect(),
    }
}

/// `#[pre(...)]`-shaped attribute with the given token content.
fn pre_attr(tokens: Vec<Token>, lo: usize, hi: usize) -> Attr {
    Attr { path: path(&["pre"]), tokens, span: sp(lo, hi) }
}

/// `#[assert_pre(...)]`-shaped attribute with the given token content.
fn assert_pre_attr(tokens: Vec<Token>, lo: usize, hi: usize) -> Attr {
    Attr { path: path(&["assert_pre"]), tokens, span: sp(lo, hi) }
}

fn simple_fn(attrs: Vec<Attr>) -> FnDecl {
    FnDecl {
        attrs,
        vis: Visibility::Public,
        sig: Signature {
            name: "target".to_string(),
            params: vec![Param { pat: "x".to_string(), ty: "u32".to_string() }],
            output: "u32".to_string(),
        },
        body: "{ x }".to_string(),
    }
}

fn reason_tokens(kind_hi: usize, reason: &str) -> Vec<Token> {
    vec![
        tok(Tok::Comma, kind_hi, kind_hi + 1),
        tok(Tok::Ident("reason".to_string()), kind_hi + 1, kind_hi + 7),
        tok(Tok::Eq, kind_hi + 7, kind_hi + 8),
        tok(Tok::LitStr(reason.to_string()), kind_hi + 8, kind_hi + 20),
    ]
}

#[test]
fn parse_custom_precondition_with_reason() {
    let mut toks = vec![tok(Tok::LitStr("x > 0".to_string()), 0, 7)];
    toks.extend(reason_tokens(7, "checked above"));
    let p = parse_precondition(&toks, sp(0, 30)).unwrap();
    assert_eq!(p.kind, PreconditionKind::Custom("x > 0".to_string()));
    assert_eq!(p.kind_span, sp(0, 7));
    let reason = p.reason.unwrap();
    assert_eq!(reason.text, "checked above");
    assert_eq!(p.end_span, sp(7, 7));
}

#[test]
fn parse_valid_ptr_precondition() {
    let toks = vec![
        tok(Tok::Ident("valid_ptr".to_string()), 0, 9),
        tok(Tok::OpenParen, 9, 10),
        tok(Tok::Ident("dst".to_string()), 10, 13),
        tok(Tok::CloseParen, 13, 14),
    ];
    let p = parse_precondition(&toks, sp(0, 14)).unwrap();
    assert_eq!(p.kind, PreconditionKind::ValidPtr("dst".to_string()));
    assert_eq!(p.kind_span, sp(0, 14));
    assert!(p.reason.is_none());
}

#[test]
fn parse_malformed_precondition_is_anchored() {
    let toks = vec![tok(Tok::Comma, 3, 4)];
    let d = parse_precondition(&toks, sp(0, 10)).unwrap_err();
    assert_eq!(d.code, DiagCode::MalformedAnnotation);
    assert_eq!(d.severity, Severity::Error);
    assert_eq!(d.span, sp(3, 4));
}

#[test]
fn parse_def_statement_target() {
    let toks = vec![
        tok(Tok::Ident("def".to_string()), 0, 3),
        tok(Tok::OpenParen, 3, 4),
        tok(Tok::Ident("core".to_string()), 4, 8),
        tok(Tok::PathSep, 8, 10),
        tok(Tok::Ident("ptr".to_string()), 10, 13),
        tok(Tok::CloseParen, 13, 14),
    ];
    let a = parse_assert_pre_attr(&toks, sp(0, 14)).unwrap();
    match a {
        AssertPreAttr::Def(d) => {
            assert!(!d.target.leading_colon);
            assert_eq!(d.target.segs, vec!["core".to_string(), "ptr".to_string()]);
            assert_eq!(d.span, sp(0, 14));
        },
        AssertPreAttr::Precondition(_) => panic!("expected a forwarding statement"),
    }
}

#[test]
fn missing_justification_blocks_the_rewrite() {
    let f = simple_fn(vec![pre_attr(
        vec![tok(Tok::LitStr("x > 0".to_string()), 10, 17)],
        8,
        18,
    )]);
    let (rewritten, diags) = render_function(f, None, "pre");
    assert!(rewritten.is_none());
    assert_eq!(diags.len(), 1);
    assert_eq!(diags[0].code, DiagCode::MissingJustification);
    assert_eq!(diags[0].severity, Severity::Error);
    assert_eq!(diags[0].span, sp(10, 17));
    assert_eq!(diags[0].help_span, Some(sp(17, 17)));
}

#[test]
fn placeholder_justification_warns_but_rewrites() {
    let mut toks = vec![tok(Tok::LitStr("x > 0".to_string()), 10, 17)];
    toks.extend(reason_tokens(17, "TODO"));
    let f = simple_fn(vec![pre_attr(toks, 8, 40)]);
    let (rewritten, diags) = render_function(f, None, "pre");
    assert_eq!(diags.len(), 1);
    assert_eq!(diags[0].code, DiagCode::PlaceholderJustification);
    assert_eq!(diags[0].severity, Severity::Warning);
    let f2 = rewritten.unwrap();
    assert_eq!(f2.sig.params.len(), 2);
    assert_eq!(f2.sig.params[1].pat, "_");
    assert_eq!(
        f2.sig.params[1].ty,
        "::core::marker::PhantomData<(::pre::CustomConditionHolds::<\"x > 0\">, )>"
    );
}

#[test]
fn empty_annotation_erases_to_the_same_function() {
    let f = simple_fn(vec![pre_attr(Vec::new(), 8, 18)]);
    let original_sig = f.sig.clone();
    let original_body = f.body.clone();
    let (rewritten, diags) = render_function(f, None, "pre");
    assert!(diags.is_empty());
    let f2 = rewritten.unwrap();
    assert!(f2.attrs.is_empty());
    assert_eq!(f2.sig, original_sig);
    assert_eq!(f2.body, original_body);
}

#[test]
fn function_without_annotations_is_untouched() {
    let f = simple_fn(Vec::new());
    let original = f.clone();
    let (rewritten, diags) = render_function(f, None, "pre");
    assert!(diags.is_empty());
    assert_eq!(rewritten.unwrap(), original);
}

#[test]
fn duplicate_condition_is_rejected_not_merged() {
    let mk = |lo: usize| {
        let mut toks = vec![tok(Tok::LitStr("len <= cap".to_string()), lo, lo + 12)];
        toks.extend(reason_tokens(lo + 12, "checked by caller"));
        toks
    };
    let mut pres: Vec<Precondition> = Vec::new();
    for lo in [10usize, 50usize] {
        match parse_precondition(&mk(lo), sp(lo, lo + 40)) {
            Ok(p) => pres.push(p),
            Err(_) => panic!("parse failed"),
        }
    }
    let (kept, diags) = check_preconditions(&pres, 0);
    assert_eq!(kept.len(), 1);
    assert_eq!(kept[0].kind_span, sp(10, 22));
    assert_eq!(diags.len(), 1);
    assert_eq!(diags[0].code, DiagCode::DuplicateAnnotation);
    assert_eq!(diags[0].severity, Severity::Error);
    assert_eq!(diags[0].span, sp(50, 62));
    assert_eq!(diags[0].help_span, Some(sp(10, 22)));
}

#[test]
fn unfinished_reasons_are_detected() {
    let mk = |text: &str| Precondition {
        kind: PreconditionKind::Custom("c".to_string()),
        kind_span: sp(0, 1),
        reason: Some(Reason { text: text.to_string(), span: sp(2, 3) }),
        end_span: sp(1, 1),
    };
    assert!(has_unfinished_reason(&mk("todo")));
    assert!(has_unfinished_reason(&mk("TODO")));
    assert!(has_unfinished_reason(&mk("?")));
    assert!(has_unfinished_reason(&mk("why does this hold?")));
    assert!(has_unfinished_reason(&mk("WHY DOES THIS HOLD?")));
    assert!(!has_unfinished_reason(&mk("the buffer was allocated above")));
    let none = Precondition {
        kind: PreconditionKind::Custom("c".to_string()),
        kind_span: sp(0, 1),
        reason: None,
        end_span: sp(1, 1),
    };
    assert!(!has_unfinished_reason(&none));
}

#[test]
fn call_without_assert_pre_is_left_alone() {
    let call = CallExpr {
        attrs: Vec::new(),
        callee: path(&["target"]),
        args: vec!["x".to_string()],
    };
    let (out, diags) = process_call(call, "pre");
    assert!(out.is_none());
    assert!(diags.is_empty());
}

#[test]
fn call_gains_marker_argument() {
    let mut toks = vec![tok(Tok::LitStr("x > 0".to_string()), 10, 17)];
    toks.extend(reason_tokens(17, "x is the successor of a nat"));
    let call = CallExpr {
        attrs: vec![assert_pre_attr(toks, 8, 40)],
        callee: path(&["target"]),
        args: vec!["x".to_string()],
    };
    let (out, diags) = process_call(call, "pre");
    assert!(diags.is_empty());
    match out.unwrap() {
        ProcessedCall::Plain(c) => {
            assert!(c.attrs.is_empty());
            assert_eq!(c.args.len(), 2);
            assert_eq!(c.args[0], "x");
            assert_eq!(
                c.args[1],
                "::core::marker::PhantomData::<(::pre::CustomConditionHolds::<\"x > 0\">, )>"
            );
        },
        ProcessedCall::Guarded { .. } => panic!("no forwarding statement was given"),
    }
}

#[test]
fn forwarding_keeps_the_original_call_in_a_dead_branch() {
    let def_toks = vec![
        tok(Tok::Ident("def".to_string()), 0, 3),
        tok(Tok::OpenParen, 3, 4),
        tok(Tok::Ident("real_mod".to_string()), 4, 12),
        tok(Tok::CloseParen, 12, 13),
    ];
    let mut cond_toks = vec![tok(Tok::LitStr("p is aligned".to_string()), 20, 34)];
    cond_toks.extend(reason_tokens(34, "alignment checked"));
    let call = CallExpr {
        attrs: vec![
            assert_pre_attr(def_toks, 0, 13),
            assert_pre_attr(cond_toks, 20, 60),
        ],
        callee: path(&["wrapped", "read"]),
        args: vec!["p".to_string(), "n".to_string()],
    };
    let (out, diags) = process_call(call, "pre");
    assert!(diags.is_empty());
    match out.unwrap() {
        ProcessedCall::Guarded { live, shadow } => {
            // The dead branch holds the untouched original call shape.
            assert_eq!(shadow.callee.segs, vec!["wrapped".to_string(), "read".to_string()]);
            assert_eq!(shadow.args, vec!["p".to_string(), "n".to_string()]);
            // The live branch is redirected and carries the marker.
            assert_eq!(live.callee.segs, vec!["real_mod".to_string(), "read".to_string()]);
            assert_eq!(live.args.len(), 3);
            assert_eq!(live.args[0], "p");
            assert_eq!(live.args[1], "n");
            assert_eq!(
                live.args[2],
                "::core::marker::PhantomData::<(::pre::CustomConditionHolds::<\"p is aligned\">, )>"
            );
        },
        ProcessedCall::Plain(_) => panic!("expected the guarded form"),
    }
}

#[test]
fn duplicate_forwarding_statement_is_an_error() {
    let mk_def = |target: &str, lo: usize| {
        let toks = vec![
            tok(Tok::Ident("def".to_string()), lo, lo + 3),
            tok(Tok::OpenParen, lo + 3, lo + 4),
            tok(Tok::Ident(target.to_string()), lo + 4, lo + 9),
            tok(Tok::CloseParen, lo + 9, lo + 10),
        ];
        assert_pre_attr(toks, lo, lo + 10)
    };
    let call = CallExpr {
        attrs: vec![mk_def("first", 0), mk_def("later", 20)],
        callee: path(&["f"]),
        args: Vec::new(),
    };
    let (out, diags) = process_call(call, "pre");
    assert_eq!(diags.len(), 1);
    assert_eq!(diags[0].code, DiagCode::DuplicateForwardingStatement);
    assert_eq!(diags[0].severity, Severity::Error);
    assert_eq!(diags[0].span, sp(20, 30));
    assert_eq!(diags[0].help_span, Some(sp(0, 10)));
    // The later statement is the one in force.
    match out.unwrap() {
        ProcessedCall::Guarded { live, .. } => {
            assert_eq!(live.callee.segs, vec!["later".to_string(), "f".to_string()]);
        },
        ProcessedCall::Plain(_) => panic!("expected the guarded form"),
    }
}

#[test]
fn malformed_annotation_does_not_suppress_siblings() {
    let bad = pre_attr(vec![tok(Tok::Eq, 5, 6)], 4, 7);
    let good = pre_attr(Vec::new(), 8, 12);
    let f = simple_fn(vec![bad, good]);
    let (rewritten, diags) = render_function(f, None, "pre");
    assert!(rewritten.is_none());
    assert_eq!(diags.len(), 1);
    assert_eq!(diags[0].code, DiagCode::MalformedAnnotation);
    assert_eq!(diags[0].span, sp(5, 6));
}

#[test]
fn is_attr_accepts_plain_and_crate_qualified_paths() {
    let plain = pre_attr(Vec::new(), 0, 1);
    assert!(is_attr("pre", "pre_crate", &plain));
    let qualified = Attr { path: path(&["pre_crate", "pre"]), tokens: Vec::new(), span: sp(0, 1) };
    assert!(is_attr("pre", "pre_crate", &qualified));
    let other = Attr { path: path(&["derive"]), tokens: Vec::new(), span: sp(0, 1) };
    assert!(!is_attr("pre", "pre_crate", &other));
    let wrong_crate = Attr { path: path(&["other", "pre"]), tokens: Vec::new(), span: sp(0, 1) };
    assert!(!is_attr("pre", "pre_crate", &wrong_crate));
}

#[test]
fn top_level_annotation_on_a_single_function_applies_to_it() {
    let f = simple_fn(Vec::new());
    let file = SourceFile { items: vec![Item::Fn(f)] };
    let mut toks = vec![tok(Tok::LitStr("x > 0".to_string()), 0, 7)];
    toks.extend(reason_tokens(7, "positive by construction"));
    let first = pre::parse::parse_pre_attr(&toks, Span { lo: 0, hi: 30 }).unwrap();
    let (out, diags) = process_file(file, Some(first), "pre");
    assert!(diags.is_empty());
    match &out.items[0] {
        Item::Fn(g) => {
            assert_eq!(g.sig.params.len(), 2);
        },
        Item::Other(_) => panic!("the function should stay a function"),
    }
}

#[test]
fn unused_top_level_annotation_warns() {
    let file = SourceFile {
        items: vec![
            Item::Other("struct S;".to_string()),
            Item::Fn(simple_fn(Vec::new())),
        ],
    };
    let toks = vec![tok(Tok::LitStr("x > 0".to_string()), 2, 9)];
    let first = pre::parse::parse_pre_attr(&toks, Span { lo: 0, hi: 12 }).unwrap();
    let (out, diags) = process_file(file, Some(first), "pre");
    assert_eq!(out.items.len(), 2);
    assert_eq!(diags.len(), 1);
    assert_eq!(diags[0].code, DiagCode::UnusedTopLevelAnnotation);
    assert_eq!(diags[0].severity, Severity::Warning);
    assert_eq!(diags[0].span, sp(2, 9));
}

#[test]
fn diagnostic_messages_are_stable() {
    let d = pre::diag::Diagnostic::new(DiagCode::MissingJustification, sp(0, 1), None);
    assert_eq!(
        d.message(),
        "you need to specify a reason why this precondition holds"
    );
    assert_eq!(
        d.help_message().unwrap(),
        "add `, reason = \"why does this hold?\"`"
    );
    let w = pre::diag::Diagnostic::new(DiagCode::PlaceholderJustification, sp(0, 1), None);
    assert_eq!(w.severity, Severity::Warning);
    assert_eq!(w.message(), "you should specify a more meaningful reason here");
}

#[test]
fn unfinished_reason_returns_the_reason_span() {
    let placeholder = Reason { text: "todo".to_string(), span: sp(4, 10) };
    assert_eq!(pre::precondition::unfinished_reason(&placeholder), Some(sp(4, 10)));
    let meaningful = Reason { text: "the index was bounds-checked".to_string(), span: sp(4, 10) };
    assert_eq!(pre::precondition::unfinished_reason(&meaningful), None);
}

#[test]
fn has_error_sees_through_warnings() {
    let warn = pre::diag::Diagnostic::new(DiagCode::PlaceholderJustification, sp(0, 1), None);
    let err = pre::diag::Diagnostic::new(DiagCode::DuplicateAnnotation, sp(0, 1), None);
    assert!(!pre::diag::has_error(&vec![warn]));
    assert!(pre::diag::has_error(&vec![warn, err]));
}

#[test]
fn parse_def_statement_with_pointer_list() {
    let toks = vec![
        tok(Tok::Ident("def".to_string()), 0, 3),
        tok(Tok::OpenParen, 3, 4),
        tok(Tok::Ident("real_mod".to_string()), 4, 12),
        tok(Tok::Comma, 12, 13),
        tok(Tok::Ident("ptr".to_string()), 13, 16),
        tok(Tok::OpenParen, 16, 17),
        tok(Tok::Ident("src".to_string()), 17, 20),
        tok(Tok::Comma, 20, 21),
        tok(Tok::Ident("dst".to_string()), 21, 24),
        tok(Tok::CloseParen, 24, 25),
        tok(Tok::CloseParen, 25, 26),
    ];
    let a = parse_assert_pre_attr(&toks, sp(0, 26)).unwrap();
    match a {
        AssertPreAttr::Def(d) => {
            assert_eq!(d.target.segs, vec!["real_mod".to_string()]);
            assert_eq!(d.ptrs, vec!["src".to_string(), "dst".to_string()]);
            assert_eq!(d.span, sp(0, 26));
        },
        AssertPreAttr::Precondition(_) => panic!("expected a forwarding statement"),
    }
}

#[test]
fn forwarding_remaps_pointer_arguments_in_the_live_call_only() {
    let def_toks = vec![
        tok(Tok::Ident("def".to_string()), 0, 3),
        tok(Tok::OpenParen, 3, 4),
        tok(Tok::Ident("real_mod".to_string()), 4, 12),
        tok(Tok::Comma, 12, 13),
        tok(Tok::Ident("ptr".to_string()), 13, 16),
        tok(Tok::OpenParen, 16, 17),
        tok(Tok::Ident("p".to_string()), 17, 18),
        tok(Tok::CloseParen, 18, 19),
        tok(Tok::CloseParen, 19, 20),
    ];
    let mut cond_toks = vec![tok(Tok::LitStr("p is aligned".to_string()), 30, 44)];
    cond_toks.extend(reason_tokens(44, "alignment checked"));
    let call = CallExpr {
        attrs: vec![
            assert_pre_attr(def_toks, 0, 20),
            assert_pre_attr(cond_toks, 30, 70),
        ],
        callee: path(&["wrapped", "read"]),
        args: vec!["p".to_string(), "n".to_string()],
    };
    let (out, diags) = process_call(call, "pre");
    assert!(diags.is_empty());
    match out.unwrap() {
        ProcessedCall::Guarded { live, shadow } => {
            // Only the listed argument is remapped, and only in the live call.
            assert_eq!(shadow.args, vec!["p".to_string(), "n".to_string()]);
            assert_eq!(live.args[0], "p as *const _");
            assert_eq!(live.args[1], "n");
            assert_eq!(live.callee.segs, vec!["real_mod".to_string(), "read".to_string()]);
        },
        ProcessedCall::Plain(_) => panic!("expected the guarded form"),
    }
}
