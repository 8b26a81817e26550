//! Tests of the canonicalizer / fingerprint encoder.

use pre::diag::Span;
use pre::encode::{render_fingerprint, render_marker_arg, render_marker_ty, sort_preconditions};
use pre::precondition::{Precondition, PreconditionKind};

fn sp(lo: usize, hi: usize) -> Span {
    Span { lo, hi }
}

fn custom(text: &str) -> Precondition {
    Precondition {
        kind: PreconditionKind::Custom(text.to_string()),
        kind_span: sp(0, 1),
        reason: None,
        end_span: sp(1, 1),
    }
}

fn valid_ptr(name: &str) -> Precondition {
    Precondition {
        kind: PreconditionKind::ValidPtr(name.to_string()),
        kind_span: sp(0, 1),
        reason: None,
        end_span: sp(1, 1),
    }
}

#[test]
fn fingerprint_exact_value() {
    let pres = vec![custom("a")];
    let fp = render_fingerprint(pres, "pre");
    assert_eq!(fp, "::pre::CustomConditionHolds::<\"a\">, ");
}

#[test]
fn fingerprint_orders_custom_before_valid_ptr() {
    let pres = vec![valid_ptr("p"), custom("b"), custom("a")];
    let fp = render_fingerprint(pres, "pre");
    assert_eq!(
        fp,
        "::pre::CustomConditionHolds::<\"a\">, ::pre::CustomConditionHolds::<\"b\">, ::pre::ValidPtrConditionHolds::<\"p\">, "
    );
}

#[test]
fn fingerprint_order_independent() {
    let orders: Vec<Vec<Precondition>> = vec![
        vec![custom("a"), custom("b"), valid_ptr("p")],
        vec![custom("b"), custom("a"), valid_ptr("p")],
        vec![valid_ptr("p"), custom("a"), custom("b")],
        vec![custom("b"), valid_ptr("p"), custom("a")],
        vec![valid_ptr("p"), custom("b"), custom("a")],
        vec![custom("a"), valid_ptr("p"), custom("b")],
    ];
    let mut rendered: Vec<String> = Vec::new();
    for order in orders {
        rendered.push(render_fingerprint(order, "pre"));
    }
    for r in &rendered {
        assert_eq!(r, &rendered[0]);
    }
}

#[test]
fn sort_is_stable_under_permutation() {
    let a = sort_preconditions(vec![custom("y"), custom("x")]);
    let b = sort_preconditions(vec![custom("x"), custom("y")]);
    assert_eq!(a.len(), 2);
    assert_eq!(b.len(), 2);
    assert_eq!(a[0].kind, PreconditionKind::Custom("x".to_string()));
    assert_eq!(a[1].kind, PreconditionKind::Custom("y".to_string()));
    assert_eq!(b[0].kind, a[0].kind);
    assert_eq!(b[1].kind, a[1].kind);
}

#[test]
fn marker_type_and_argument_wrap_the_fingerprint() {
    let ty = render_marker_ty(vec![custom("a")], "pre");
    assert_eq!(
        ty,
        "::core::marker::PhantomData<(::pre::CustomConditionHolds::<\"a\">, )>"
    );
    let arg = render_marker_arg(vec![custom("a")], "pre");
    assert_eq!(
        arg,
        "::core::marker::PhantomData::<(::pre::CustomConditionHolds::<\"a\">, )>"
    );
}

#[test]
fn fingerprint_of_empty_set_is_empty() {
    let fp = render_fingerprint(Vec::new(), "pre");
    assert_eq!(fp, "");
}

#[test]
fn fingerprint_uses_the_resolved_crate_name() {
    let fp = render_fingerprint(vec![valid_ptr("q")], "other_name");
    assert_eq!(fp, "::other_name::ValidPtrConditionHolds::<\"q\">, ");
}

#[test]
fn payload_escaping_keeps_encodings_apart() {
    // Without escaping, this one-element set would render byte-identically
    // to the two-element set {"a", "b"}.
    let crafted = vec![custom("a\">, ::pre::CustomConditionHolds::<\"b")];
    let plain = vec![custom("a"), custom("b")];
    let crafted_fp = render_fingerprint(crafted, "pre");
    let plain_fp = render_fingerprint(plain, "pre");
    assert_ne!(crafted_fp, plain_fp);
    assert_eq!(
        crafted_fp,
        "::pre::CustomConditionHolds::<\"a\\\">, ::pre::CustomConditionHolds::<\\\"b\">, "
    );
}

#[test]
fn backslashes_and_quotes_are_escaped() {
    let pres = vec![custom("a\\b\"c")];
    let fp = render_fingerprint(pres, "pre");
    assert_eq!(fp, "::pre::CustomConditionHolds::<\"a\\\\b\\\"c\">, ");
}
