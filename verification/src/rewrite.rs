//! Validator and the definition / call rewriters.
//!
//! A traversal over a compilation unit visits declarations and call
//! expressions; on each match the annotation blocks are removed, parsed,
//! validated and canonicalized, and the node is replaced: a declaration
//! gains one trailing marker parameter, a call one trailing marker argument.
//! All problems are reported as [`Diagnostic`] values; errors block the
//! rewrite of the declaration they sit on, warnings never do.

use vstd::prelude::*;
use crate::diag::{has_error, spec_diag, spec_has_error, DiagCode, Diagnostic, Severity};
use crate::encode::{pre_kinds, render_marker_arg, render_marker_ty, spec_marker_arg, spec_marker_ty};
use crate::parse::{
    parse_assert_pre_attr, parse_pre_attr, spec_parse_assert_pre_attr, spec_parse_pre_attr,
    AssertPreAttr, AssertPreAttrView, DefStatement, DefStatementView, PreAttr, PreAttrView,
};
use crate::precondition::{
    kind_eq_exec, kinds_of, precondition_views, Precondition, PreconditionView,
};
use crate::syntax::{
    attr_views, clone_strings, item_views, param_views, string_views, Attr, AttrView, CallExpr,
    CallExprView, FnDecl, FnDeclView, Item, ItemView, Param, ParamView, Path, PathView,
    SignatureView, SourceFile, SourceFileView,
};
use crate::text::is_placeholder;
use crate::text::str_eq;

verus! {

/// Whether an attribute is the `name` attribute of this processor: its path
/// is `name` alone, or `crate_name::name`.
pub open spec fn spec_is_attr(name: Seq<char>, crate_name: Seq<char>, a: AttrView) -> bool {
    ||| (a.path.segs.len() == 1 && a.path.segs[0] == name)
    ||| (a.path.segs.len() == 2 && a.path.segs[0] == crate_name && a.path.segs[1] == name)
}

/// Checks if the given attribute is an `attr_to_check` attribute of the main
/// crate.  Paths both with and without a leading colon are accepted.
pub fn is_attr(attr_to_check: &str, crate_name: &str, attr: &Attr) -> (r: bool)
    ensures
        r == spec_is_attr(attr_to_check@, crate_name@, attr@),
{
    if attr.path.segs.len() == 1 {
        str_eq(attr.path.segs[0].as_str(), attr_to_check)
    } else if attr.path.segs.len() == 2 {
        str_eq(attr.path.segs[0].as_str(), crate_name) && str_eq(
            attr.path.segs[1].as_str(),
            attr_to_check,
        )
    } else {
        false
    }
}

/// What collecting the `pre` attributes of one declaration yields.
pub struct DeclCollect {
    /// The attributes that stay on the declaration.
    pub kept: Seq<AttrView>,
    /// The preconditions stated by the removed attributes, in source order.
    pub pres: Seq<PreconditionView>,
    /// Parse diagnostics, in source order.
    pub diags: Seq<Diagnostic>,
}

/// Collects the `pre` attributes of a declaration from position `i` on:
/// matching attributes are removed and parsed, all others are kept.  One
/// malformed annotation never suppresses its siblings.
pub open spec fn spec_collect_decl(
    attrs: Seq<AttrView>,
    crate_name: Seq<char>,
    i: int,
) -> DeclCollect
    decreases attrs.len() - i,
{
    if i < 0 || i >= attrs.len() {
        DeclCollect { kept: Seq::empty(), pres: Seq::empty(), diags: Seq::empty() }
    } else {
        let rest = spec_collect_decl(attrs, crate_name, i + 1);
        let a = attrs[i];
        if !spec_is_attr("pre"@, crate_name, a) {
            DeclCollect { kept: seq![a] + rest.kept, pres: rest.pres, diags: rest.diags }
        } else {
            match spec_parse_pre_attr(a.tokens, a.span) {
                Err(d) => DeclCollect {
                    kept: rest.kept,
                    pres: rest.pres,
                    diags: seq![d] + rest.diags,
                },
                Ok(PreAttrView::Empty) => rest,
                Ok(PreAttrView::Precondition(p)) => DeclCollect {
                    kept: rest.kept,
                    pres: seq![p] + rest.pres,
                    diags: rest.diags,
                },
            }
        }
    }
}

/// Removes, parses and collects the `pre` attributes of a declaration.
fn collect_decl_attrs(attrs: &Vec<Attr>, crate_name: &str, i: usize) -> (r: (
    Vec<Attr>,
    Vec<Precondition>,
    Vec<Diagnostic>,
))
    requires
        i <= attrs@.len(),
    ensures
        ({
            let c = spec_collect_decl(attr_views(attrs@), crate_name@, i as int);
            attr_views(r.0@) == c.kept && precondition_views(r.1@) == c.pres && r.2@ == c.diags
        }),
    decreases attrs@.len() - i,
{
    if i == attrs.len() {
        let r: (Vec<Attr>, Vec<Precondition>, Vec<Diagnostic>) = (
            Vec::new(),
            Vec::new(),
            Vec::new(),
        );
        proof {
            assert(attr_views(r.0@) =~= Seq::<AttrView>::empty());
            assert(precondition_views(r.1@) =~= Seq::<PreconditionView>::empty());
        }
        r
    } else {
        let (mut kept, mut pres, mut diags) = collect_decl_attrs(attrs, crate_name, i + 1);
        let ghost rest_kept = attr_views(kept@);
        let ghost rest_pres = precondition_views(pres@);
        let a = &attrs[i];
        if !is_attr("pre", crate_name, a) {
            kept.insert(0, a.duplicate());
            proof {
                assert(attr_views(kept@) =~= seq![attr_views(attrs@)[i as int]] + rest_kept);
            }
        } else {
            match parse_pre_attr(&a.tokens, a.span) {
                Err(d) => {
                    diags.insert(0, d);
                },
                Ok(PreAttr::Empty) => {},
                Ok(PreAttr::Precondition(p)) => {
                    let ghost pv = p@;
                    pres.insert(0, p);
                    proof {
                        assert(precondition_views(pres@) =~= seq![pv] + rest_pres);
                    }
                },
            }
        }
        (kept, pres, diags)
    }
}

/// The first position in `pres[0..i]` stating the same logical condition as
/// `pres[i]`, if any.
pub open spec fn spec_find_same_kind(pres: Seq<PreconditionView>, i: int, j: int) -> Option<int>
    decreases i - j,
{
    if j < 0 || j >= i {
        None
    } else if pres[j].kind == pres[i].kind {
        Some(j)
    } else {
        spec_find_same_kind(pres, i, j + 1)
    }
}

/// What validating a precondition list yields.
pub struct Validated {
    /// The preconditions that reach the encoder: first statements only.
    pub kept: Seq<PreconditionView>,
    /// Contract diagnostics, in source order.
    pub diags: Seq<Diagnostic>,
}

/// Validates the precondition list of one declaration or one call, from
/// position `i` on.
///
/// For each precondition: restating a condition already stated on the same
/// node is an error, and the restatement is dropped, never merged; a missing
/// justification is an error, with help pointing at the position where the
/// clause belongs; a placeholder justification is a warning.  The three
/// diagnostics are independent; warnings never suppress encoding.
pub open spec fn spec_validate(pres: Seq<PreconditionView>, i: int) -> Validated
    decreases pres.len() - i,
{
    if i < 0 || i >= pres.len() {
        Validated { kept: Seq::empty(), diags: Seq::empty() }
    } else {
        let rest = spec_validate(pres, i + 1);
        let p = pres[i];
        match spec_find_same_kind(pres, i, 0) {
            Some(j) => Validated {
                kept: rest.kept,
                diags: seq![
                    spec_diag(DiagCode::DuplicateAnnotation, p.kind_span, Some(pres[j].kind_span)),
                ] + rest.diags,
            },
            None => {
                let own = match p.reason {
                    None => seq![
                        spec_diag(DiagCode::MissingJustification, p.kind_span, Some(p.end_span)),
                    ],
                    Some(re) => if is_placeholder(re.text) {
                        seq![spec_diag(DiagCode::PlaceholderJustification, re.span, None)]
                    } else {
                        Seq::empty()
                    },
                };
                Validated { kept: seq![p] + rest.kept, diags: own + rest.diags }
            },
        }
    }
}

/// Finds an earlier statement of the same condition, executable.
fn find_same_kind(pres: &Vec<Precondition>, i: usize, j: usize) -> (r: Option<usize>)
    requires
        i < pres@.len(),
        j <= i,
    ensures
        ({
            let s = spec_find_same_kind(precondition_views(pres@), i as int, j as int);
            match r {
                Some(k) => s == Some(k as int) && k < i,
                None => s is None,
            }
        }),
    decreases i - j,
{
    if j >= i {
        None
    } else if kind_eq_exec(&pres[j].kind, &pres[i].kind) {
        Some(j)
    } else {
        find_same_kind(pres, i, j + 1)
    }
}

/// Checks that all justifications exist and make sense and that no
/// condition is stated twice, from position `i` on.  Returns the
/// preconditions that reach the encoder and the diagnostics.
pub fn check_preconditions(pres: &Vec<Precondition>, i: usize) -> (r: (
    Vec<Precondition>,
    Vec<Diagnostic>,
))
    requires
        i <= pres@.len(),
    ensures
        ({
            let v = spec_validate(precondition_views(pres@), i as int);
            precondition_views(r.0@) == v.kept && r.1@ == v.diags
        }),
    decreases pres@.len() - i,
{
    if i == pres.len() {
        let r: (Vec<Precondition>, Vec<Diagnostic>) = (Vec::new(), Vec::new());
        proof {
            assert(precondition_views(r.0@) =~= Seq::<PreconditionView>::empty());
        }
        r
    } else {
        let (mut kept, mut diags) = check_preconditions(pres, i + 1);
        let ghost rest_kept = precondition_views(kept@);
        let p = &pres[i];
        match find_same_kind(pres, i, 0) {
            Some(j) => {
                diags.insert(
                    0,
                    Diagnostic::new(
                        DiagCode::DuplicateAnnotation,
                        p.kind_span,
                        Some(pres[j].kind_span),
                    ),
                );
            },
            None => {
                match &p.reason {
                    None => {
                        diags.insert(
                            0,
                            Diagnostic::new(
                                DiagCode::MissingJustification,
                                p.kind_span,
                                Some(p.end_span),
                            ),
                        );
                    },
                    Some(re) => {
                        if crate::text::is_placeholder_exec(re.text.as_str()) {
                            diags.insert(
                                0,
                                Diagnostic::new(DiagCode::PlaceholderJustification, re.span, None),
                            );
                        }
                    },
                }
                kept.insert(0, p.duplicate());
                proof {
                    assert(precondition_views(kept@) =~= seq![precondition_views(pres@)[i as int]]
                        + rest_kept);
                }
            },
        }
        (kept, diags)
    }
}

/// The declaration after rewriting: the processed attributes are gone; when
/// any precondition survived validation, one marker parameter is appended;
/// an empty set leaves the signature untouched.
pub open spec fn spec_rewrite_fn(
    f: FnDeclView,
    kept_attrs: Seq<AttrView>,
    valid: Seq<PreconditionView>,
    crate_name: Seq<char>,
) -> FnDeclView {
    if valid.len() == 0 {
        FnDeclView { attrs: kept_attrs, ..f }
    } else {
        FnDeclView {
            attrs: kept_attrs,
            sig: SignatureView {
                params: f.sig.params.push(
                    ParamView { pat: "_"@, ty: spec_marker_ty(kinds_of(valid), crate_name) },
                ),
                ..f.sig
            },
            ..f
        }
    }
}

/// Generates the function with the precondition handling added: one extra
/// parameter of the encoded marker type; original parameters, return type
/// and body untouched.
pub fn render_pre(preconditions: Vec<Precondition>, function: FnDecl, crate_name: &str) -> (r:
    FnDecl)
    requires
        preconditions@.len() > 0,
    ensures
        r@ == spec_rewrite_fn(
            function@,
            function@.attrs,
            precondition_views(preconditions@),
            crate_name@,
        ),
{
    let ghost pres_view = precondition_views(preconditions@);
    let ghost pk = pre_kinds(preconditions@);
    let ghost f0 = function@;
    let ty = render_marker_ty(preconditions, crate_name);
    let mut function = function;
    let pat = "_".to_owned();
    function.sig.params.push(Param { pat, ty });
    proof {
        assert(kinds_of(pres_view) =~= pk);
        assert(param_views(function.sig.params@) =~= spec_rewrite_fn(
            f0,
            f0.attrs,
            pres_view,
            crate_name@,
        ).sig.params);
    }
    function
}

/// What processing one declaration yields: the rewritten declaration when
/// no error blocked it, and the diagnostics.
pub open spec fn spec_render_function(
    f: FnDeclView,
    first_attr: Option<PreAttrView>,
    crate_name: Seq<char>,
) -> (Option<FnDeclView>, Seq<Diagnostic>) {
    let c = spec_collect_decl(f.attrs, crate_name, 0);
    let first: Seq<PreconditionView> = match first_attr {
        Some(PreAttrView::Precondition(p)) => seq![p],
        _ => Seq::empty(),
    };
    let v = spec_validate(first + c.pres, 0);
    let diags = c.diags + v.diags;
    if spec_has_error(diags) {
        (None, diags)
    } else {
        (Some(spec_rewrite_fn(f, c.kept, v.kept, crate_name)), diags)
    }
}

/// Renders the given function with all its `pre` attributes applied.
///
/// `first_attr` is the already-parsed content of the attribute that started
/// the pass, when this declaration was its direct subject.  On any error the
/// declaration is not rewritten.
pub fn render_function(function: FnDecl, first_attr: Option<PreAttr>, crate_name: &str) -> (r: (
    Option<FnDecl>,
    Vec<Diagnostic>,
))
    ensures
        ({
            let s = spec_render_function(
                function@,
                match first_attr {
                    Some(a) => Some(a@),
                    None => None,
                },
                crate_name@,
            );
            r.1@ == s.1 && (match r.0 {
                Some(f) => s.0 == Some(f@),
                None => s.0 is None,
            })
        }),
{
    let ghost first_view: Seq<PreconditionView> = match &first_attr {
        Some(PreAttr::Precondition(p)) => seq![p@],
        _ => Seq::empty(),
    };
    let (kept, collected, diags) = collect_decl_attrs(&function.attrs, crate_name, 0);
    let ghost c = spec_collect_decl(attr_views(function.attrs@), crate_name@, 0);
    let mut pres = collected;
    match first_attr {
        Some(PreAttr::Precondition(p)) => {
            pres.insert(0, p);
            proof {
                assert(precondition_views(pres@) =~= first_view + c.pres);
            }
        },
        _ => {
            proof {
                assert(precondition_views(pres@) =~= first_view + c.pres);
            }
        },
    }
    let (valid, vdiags) = check_preconditions(&pres, 0);
    let mut all_diags = diags;
    let mut vdiags = vdiags;
    all_diags.append(&mut vdiags);
    if has_error(&all_diags) {
        (None, all_diags)
    } else {
        let ghost f0 = function@;
        let mut function = function;
        function.attrs = kept;
        let ghost v = spec_validate(first_view + c.pres, 0);
        if valid.len() == 0 {
            proof {
                assert(v.kept =~= Seq::<PreconditionView>::empty());
                assert(function@ == spec_rewrite_fn(f0, c.kept, v.kept, crate_name@));
            }
            (Some(function), all_diags)
        } else {
            let rewritten = render_pre(valid, function, crate_name);
            proof {
                assert(rewritten@ == spec_rewrite_fn(f0, c.kept, v.kept, crate_name@));
            }
            (Some(rewritten), all_diags)
        }
    }
}

/// Justification gating: one declaration-level precondition with no
/// `reason` clause produces exactly one missing-justification error and no
/// rewrite of the declaration.
pub proof fn lemma_justification_gating(f: FnDeclView, a: AttrView, p: PreconditionView, crate_name: Seq<char>)
    requires
        f.attrs == seq![a],
        spec_is_attr("pre"@, crate_name, a),
        spec_parse_pre_attr(a.tokens, a.span) == Ok::<PreAttrView, Diagnostic>(
            PreAttrView::Precondition(p),
        ),
        p.reason is None,
    ensures
        spec_render_function(f, None, crate_name).0 is None,
        spec_render_function(f, None, crate_name).1 == seq![
            spec_diag(DiagCode::MissingJustification, p.kind_span, Some(p.end_span)),
        ],
{
    reveal_with_fuel(spec_collect_decl, 3);
    reveal_with_fuel(spec_validate, 3);
    let c = spec_collect_decl(f.attrs, crate_name, 0);
    assert(c.pres =~= seq![p]);
    assert(c.diags =~= Seq::<Diagnostic>::empty());
    let pres = Seq::<PreconditionView>::empty() + c.pres;
    assert(pres =~= seq![p]);
    let v = spec_validate(pres, 0);
    assert(spec_find_same_kind(pres, 0, 0) is None);
    let d = spec_diag(DiagCode::MissingJustification, p.kind_span, Some(p.end_span));
    assert(v.diags =~= seq![d]);
    let diags = c.diags + v.diags;
    assert(diags =~= seq![d]);
    assert(spec_has_error(diags)) by {
        assert(diags[0].severity == Severity::Error);
    }
}

/// Empty-set erasure: a declaration whose annotations state no
/// precondition and parse cleanly is rewritten to itself unchanged — no
/// marker parameter is appended.
pub proof fn lemma_empty_set_erasure(f: FnDeclView, crate_name: Seq<char>)
    requires
        spec_collect_decl(f.attrs, crate_name, 0).pres.len() == 0,
        spec_collect_decl(f.attrs, crate_name, 0).diags.len() == 0,
    ensures
        spec_render_function(f, None, crate_name).0 matches Some(g) && g.sig == f.sig && g.body
            == f.body && g.vis == f.vis,
{
    reveal_with_fuel(spec_validate, 2);
    let c = spec_collect_decl(f.attrs, crate_name, 0);
    let pres = Seq::<PreconditionView>::empty() + c.pres;
    assert(pres =~= Seq::<PreconditionView>::empty());
    let v = spec_validate(pres, 0);
    let diags = c.diags + v.diags;
    assert(diags =~= Seq::<Diagnostic>::empty());
    assert(!spec_has_error(diags));
}

/// The duplicate-annotation diagnostic of a later restatement is in the
/// validator's output, from any starting position at or before it.
proof fn lemma_validate_contains_dup(pres: Seq<PreconditionView>, i: int, j: int)
    requires
        0 <= i <= j < pres.len(),
        spec_find_same_kind(pres, j, 0) matches Some(k),
    ensures
        spec_validate(pres, i).diags.contains(
            spec_diag(
                DiagCode::DuplicateAnnotation,
                pres[j].kind_span,
                Some(pres[spec_find_same_kind(pres, j, 0)->Some_0].kind_span),
            ),
        ),
        spec_validate(pres, i).kept.len() < pres.len() - i,
    decreases j - i,
{
    let d = spec_diag(
        DiagCode::DuplicateAnnotation,
        pres[j].kind_span,
        Some(pres[spec_find_same_kind(pres, j, 0)->Some_0].kind_span),
    );
    let rest = spec_validate(pres, i + 1);
    if i == j {
        assert(spec_validate(pres, i).diags[0] == d);
        assert(rest.kept.len() <= pres.len() - i - 1) by {
            lemma_validate_kept_len(pres, i + 1);
        }
    } else {
        lemma_validate_contains_dup(pres, i + 1, j);
        let k = choose|k: int| 0 <= k < rest.diags.len() && rest.diags[k] == d;
        match spec_find_same_kind(pres, i, 0) {
            Some(_) => {
                assert(spec_validate(pres, i).diags[1 + k] == d);
            },
            None => {
                let own_len = spec_validate(pres, i).diags.len() - rest.diags.len();
                assert(spec_validate(pres, i).diags[own_len + k] == d);
            },
        }
    }
}

/// The validator keeps at most one precondition per position.
proof fn lemma_validate_kept_len(pres: Seq<PreconditionView>, i: int)
    requires
        0 <= i <= pres.len(),
    ensures
        spec_validate(pres, i).kept.len() <= pres.len() - i,
    decreases pres.len() - i,
{
    if i < pres.len() {
        lemma_validate_kept_len(pres, i + 1);
    }
}

/// Round trip absence of duplication: a logical condition stated twice via
/// two separate annotation blocks is rejected before encoding — a
/// duplicate-annotation error is emitted and the restatement is dropped,
/// never silently merged.
pub proof fn lemma_duplicate_rejected(pres: Seq<PreconditionView>, i: int, j: int)
    requires
        0 <= i < j < pres.len(),
        pres[i].kind == pres[j].kind,
    ensures
        exists|k: int|
            0 <= k < spec_validate(pres, 0).diags.len() && spec_validate(pres, 0).diags[k].code
                == DiagCode::DuplicateAnnotation && spec_validate(pres, 0).diags[k].severity
                == Severity::Error,
        spec_validate(pres, 0).kept.len() < pres.len(),
{
    lemma_find_same_kind_finds(pres, j, i, 0);
    lemma_validate_contains_dup(pres, 0, j);
    let d = spec_diag(
        DiagCode::DuplicateAnnotation,
        pres[j].kind_span,
        Some(pres[spec_find_same_kind(pres, j, 0)->Some_0].kind_span),
    );
    let k = choose|k: int|
        0 <= k < spec_validate(pres, 0).diags.len() && spec_validate(pres, 0).diags[k] == d;
    assert(spec_validate(pres, 0).diags[k].code == DiagCode::DuplicateAnnotation);
}

/// How many preconditions from position `i` on carry a placeholder
/// justification.
pub open spec fn spec_count_placeholders(pres: Seq<PreconditionView>, i: int) -> nat
    decreases pres.len() - i,
{
    if i < 0 || i >= pres.len() {
        0
    } else {
        let rest = spec_count_placeholders(pres, i + 1);
        match pres[i].reason {
            Some(re) => if is_placeholder(re.text) {
                1 + rest
            } else {
                rest
            },
            None => rest,
        }
    }
}

/// When every statement has a justification and no condition is stated
/// twice, validation emits exactly one placeholder-justification warning
/// per placeholder reason and nothing else, and returns every
/// precondition: warnings never escalate and never suppress encoding.
pub proof fn lemma_placeholder_warnings_only(pres: Seq<PreconditionView>, i: int)
    requires
        0 <= i <= pres.len(),
        forall|k: int| 0 <= k < pres.len() ==> (#[trigger] pres[k]).reason is Some,
        forall|k1: int, k2: int|
            0 <= k1 < k2 < pres.len() ==> (#[trigger] pres[k1]).kind != (#[trigger] pres[k2]).kind,
    ensures
        spec_validate(pres, i).kept == pres.skip(i),
        spec_validate(pres, i).diags.len() == spec_count_placeholders(pres, i),
        forall|t: int|
            0 <= t < spec_validate(pres, i).diags.len() ==> (#[trigger] spec_validate(
                pres,
                i,
            ).diags[t]).code == DiagCode::PlaceholderJustification && spec_validate(
                pres,
                i,
            ).diags[t].severity == Severity::Warning,
    decreases pres.len() - i,
{
    if i < pres.len() {
        lemma_placeholder_warnings_only(pres, i + 1);
        let rest = spec_validate(pres, i + 1);
        match spec_find_same_kind(pres, i, 0) {
            Some(j) => {
                assert(pres[j].kind == pres[i].kind && 0 <= j < i) by {
                    lemma_find_same_kind_sound(pres, i, 0);
                }
                assert(false);
            },
            None => {
                assert(spec_validate(pres, i).kept =~= pres.skip(i)) by {
                    assert(rest.kept == pres.skip(i + 1));
                    assert forall|t: int| 0 <= t < pres.len() - i implies (seq![pres[i]]
                        + pres.skip(i + 1))[t] == pres.skip(i)[t] by {
                        if t > 0 {
                            assert(pres.skip(i + 1)[t - 1] == pres[i + 1 + t - 1]);
                            assert(pres.skip(i)[t] == pres[i + t]);
                        }
                    }
                }
            },
        }
    } else {
        assert(spec_validate(pres, i).kept =~= pres.skip(i));
    }
}

/// What the search for an earlier statement returns really is an earlier
/// statement of the same condition.
proof fn lemma_find_same_kind_sound(pres: Seq<PreconditionView>, i: int, j: int)
    requires
        0 <= j,
        spec_find_same_kind(pres, i, j) is Some,
    ensures
        ({
            let k = spec_find_same_kind(pres, i, j)->Some_0;
            j <= k < i && pres[k].kind == pres[i].kind
        }),
    decreases i - j,
{
    if j < i && pres[j].kind == pres[i].kind {
    } else {
        lemma_find_same_kind_sound(pres, i, j + 1);
    }
}

/// What the validator keeps is duplicate-free: the encoder never sees the
/// same logical condition twice, so duplicates are never merged.  Each kept
/// precondition is one of the input statements whose condition has no
/// earlier statement.
pub proof fn lemma_validate_kept_distinct(pres: Seq<PreconditionView>, i: int)
    requires
        0 <= i <= pres.len(),
    ensures
        forall|a: int, b: int|
            0 <= a < b < spec_validate(pres, i).kept.len() ==> (#[trigger] spec_validate(
                pres,
                i,
            ).kept[a]).kind != (#[trigger] spec_validate(pres, i).kept[b]).kind,
        forall|t: int|
            0 <= t < spec_validate(pres, i).kept.len() ==> exists|k: int|
                i <= k < pres.len() && pres[k] == #[trigger] spec_validate(pres, i).kept[t]
                    && spec_find_same_kind(pres, k, 0) is None,
    decreases pres.len() - i,
{
    if i < pres.len() {
        lemma_validate_kept_distinct(pres, i + 1);
        let rest = spec_validate(pres, i + 1);
        let kept = spec_validate(pres, i).kept;
        match spec_find_same_kind(pres, i, 0) {
            Some(_) => {},
            None => {
                assert(kept =~= seq![pres[i]] + rest.kept);
                assert forall|t: int| 0 <= t < kept.len() implies exists|k: int|
                    i <= k < pres.len() && pres[k] == #[trigger] kept[t] && spec_find_same_kind(
                        pres,
                        k,
                        0,
                    ) is None by {
                    if t == 0 {
                        assert(pres[i] == kept[0]);
                    } else {
                        assert(kept[t] == rest.kept[t - 1]);
                        let k = choose|k: int|
                            i + 1 <= k < pres.len() && pres[k] == rest.kept[t - 1]
                                && spec_find_same_kind(pres, k, 0) is None;
                        assert(pres[k] == kept[t] && spec_find_same_kind(pres, k, 0) is None);
                    }
                }
                assert forall|a: int, b: int| 0 <= a < b < kept.len() implies (
                #[trigger] kept[a]).kind != (#[trigger] kept[b]).kind by {
                    if a == 0 {
                        assert(kept[b] == rest.kept[b - 1]);
                        let k = choose|k: int|
                            i + 1 <= k < pres.len() && pres[k] == rest.kept[b - 1]
                                && spec_find_same_kind(pres, k, 0) is None;
                        if pres[k].kind == pres[i].kind {
                            lemma_find_same_kind_finds(pres, k, i, 0);
                            assert(false);
                        }
                    } else {
                        assert(kept[a] == rest.kept[a - 1]);
                        assert(kept[b] == rest.kept[b - 1]);
                    }
                }
            },
        }
    }
}

/// The search for an earlier statement of the same condition succeeds when
/// one exists.
proof fn lemma_find_same_kind_finds(pres: Seq<PreconditionView>, i: int, w: int, j: int)
    requires
        0 <= j <= w < i < pres.len(),
        pres[w].kind == pres[i].kind,
    ensures
        spec_find_same_kind(pres, i, j) is Some,
    decreases w - j,
{
    if pres[j].kind == pres[i].kind {
    } else {
        lemma_find_same_kind_finds(pres, i, w, j + 1);
    }
}

/// Whether any annotation block on this node belongs to `assert_pre`.
pub open spec fn spec_has_assert_pre(attrs: Seq<AttrView>) -> bool {
    exists|k: int|
        0 <= k < attrs.len() && attrs[k].path.segs.len() == 1 && attrs[k].path.segs[0]
            == "assert_pre"@
}

/// What collecting the `assert_pre` attributes of one call yields.
pub struct CallCollect {
    /// The attributes that stay on the call.
    pub kept: Seq<AttrView>,
    /// The stated preconditions, in source order.
    pub pres: Seq<PreconditionView>,
    /// The forwarding statement in force: the latest one written.
    pub def: Option<DefStatementView>,
    /// Parse diagnostics and duplicate-forwarding errors, in source order.
    pub diags: Seq<Diagnostic>,
}

/// Collects the `assert_pre` attributes of a call from position `i` on,
/// `cur_def` being the forwarding statement seen so far.  A second
/// forwarding statement is an error pointing at both occurrences; the later
/// one replaces the earlier.
pub open spec fn spec_collect_call(
    attrs: Seq<AttrView>,
    i: int,
    cur_def: Option<DefStatementView>,
) -> CallCollect
    decreases attrs.len() - i,
{
    if i < 0 || i >= attrs.len() {
        CallCollect { kept: Seq::empty(), pres: Seq::empty(), def: cur_def, diags: Seq::empty() }
    } else {
        let a = attrs[i];
        if !(a.path.segs.len() == 1 && a.path.segs[0] == "assert_pre"@) {
            let rest = spec_collect_call(attrs, i + 1, cur_def);
            CallCollect { kept: seq![a] + rest.kept, ..rest }
        } else {
            match spec_parse_assert_pre_attr(a.tokens, a.span) {
                Err(d) => {
                    let rest = spec_collect_call(attrs, i + 1, cur_def);
                    CallCollect { diags: seq![d] + rest.diags, ..rest }
                },
                Ok(AssertPreAttrView::Def(d)) => match cur_def {
                    None => spec_collect_call(attrs, i + 1, Some(d)),
                    Some(old_def) => {
                        let rest = spec_collect_call(attrs, i + 1, Some(d));
                        CallCollect {
                            diags: seq![
                                spec_diag(
                                    DiagCode::DuplicateForwardingStatement,
                                    d.span,
                                    Some(old_def.span),
                                ),
                            ] + rest.diags,
                            ..rest
                        }
                    },
                },
                Ok(AssertPreAttrView::Precondition(p)) => {
                    let rest = spec_collect_call(attrs, i + 1, cur_def);
                    CallCollect { pres: seq![p] + rest.pres, ..rest }
                },
            }
        }
    }
}

/// The view of an optional forwarding statement.
pub open spec fn def_view(d: Option<DefStatement>) -> Option<DefStatementView> {
    match d {
        Some(s) => Some(s@),
        None => None,
    }
}

/// Removes, parses and collects the `assert_pre` attributes of a call.
fn collect_call_attrs(attrs: &Vec<Attr>, i: usize, cur_def: Option<DefStatement>) -> (r: (
    Vec<Attr>,
    Vec<Precondition>,
    Option<DefStatement>,
    Vec<Diagnostic>,
))
    requires
        i <= attrs@.len(),
    ensures
        ({
            let c = spec_collect_call(attr_views(attrs@), i as int, def_view(cur_def));
            attr_views(r.0@) == c.kept && precondition_views(r.1@) == c.pres && def_view(r.2)
                == c.def && r.3@ == c.diags
        }),
    decreases attrs@.len() - i,
{
    if i == attrs.len() {
        let r: (Vec<Attr>, Vec<Precondition>, Option<DefStatement>, Vec<Diagnostic>) = (
            Vec::new(),
            Vec::new(),
            cur_def,
            Vec::new(),
        );
        proof {
            assert(attr_views(r.0@) =~= Seq::<AttrView>::empty());
            assert(precondition_views(r.1@) =~= Seq::<PreconditionView>::empty());
        }
        r
    } else {
        let a = &attrs[i];
        let matches_attr = a.path.segs.len() == 1 && str_eq(a.path.segs[0].as_str(), "assert_pre");
        if !matches_attr {
            let (mut kept, pres, def, diags) = collect_call_attrs(attrs, i + 1, cur_def);
            let ghost rest_kept = attr_views(kept@);
            kept.insert(0, a.duplicate());
            proof {
                assert(attr_views(kept@) =~= seq![attr_views(attrs@)[i as int]] + rest_kept);
            }
            (kept, pres, def, diags)
        } else {
            match parse_assert_pre_attr(&a.tokens, a.span) {
                Err(d) => {
                    let (kept, pres, def, mut diags) = collect_call_attrs(attrs, i + 1, cur_def);
                    diags.insert(0, d);
                    (kept, pres, def, diags)
                },
                Ok(AssertPreAttr::Def(d)) => match cur_def {
                    None => collect_call_attrs(attrs, i + 1, Some(d)),
                    Some(old_def) => {
                        let ghost new_span = d.span;
                        let ghost old_span = old_def.span;
                        let dspan = d.span;
                        let ospan = old_def.span;
                        let (kept, pres, def, mut diags) = collect_call_attrs(
                            attrs,
                            i + 1,
                            Some(d),
                        );
                        diags.insert(
                            0,
                            Diagnostic::new(
                                DiagCode::DuplicateForwardingStatement,
                                dspan,
                                Some(ospan),
                            ),
                        );
                        (kept, pres, def, diags)
                    },
                },
                Ok(AssertPreAttr::Precondition(p)) => {
                    let ghost pv = p@;
                    let (kept, mut pres, def, diags) = collect_call_attrs(attrs, i + 1, cur_def);
                    let ghost rest_pres = precondition_views(pres@);
                    pres.insert(0, p);
                    proof {
                        assert(precondition_views(pres@) =~= seq![pv] + rest_pres);
                    }
                    (kept, pres, def, diags)
                },
            }
        }
    }
}

/// A processed call: rewritten in place, or wrapped so that the original
/// call shape still undergoes type checking under a dead branch of a
/// statically-true conditional.
pub enum ProcessedCall {
    /// The call itself, with the marker argument appended.
    Plain(CallExpr),
    /// `if true { live } else { shadow }`: only `live` ever runs; `shadow`
    /// keeps the original call shape for the type checker alone.
    Guarded { live: CallExpr, shadow: CallExpr },
}

/// The mathematical shape of a processed call.
pub enum ProcessedCallView {
    Plain(CallExprView),
    Guarded { live: CallExprView, shadow: CallExprView },
}

impl View for ProcessedCall {
    type V = ProcessedCallView;

    open spec fn view(&self) -> ProcessedCallView {
        match self {
            ProcessedCall::Plain(c) => ProcessedCallView::Plain(c@),
            ProcessedCall::Guarded { live, shadow } => ProcessedCallView::Guarded {
                live: live@,
                shadow: shadow@,
            },
        }
    }
}

/// One argument after pointer remapping: an argument the forwarding
/// statement names as pointer-like is cast to a raw pointer for the
/// pointer-taking underlying function; every other argument is untouched.
pub open spec fn spec_remap_arg(a: Seq<char>, ptrs: Seq<Seq<char>>) -> Seq<char> {
    if ptrs.contains(a) {
        a + " as *const _"@
    } else {
        a
    }
}

/// The argument list after pointer remapping.
pub open spec fn spec_remap_args(args: Seq<Seq<char>>, ptrs: Seq<Seq<char>>) -> Seq<Seq<char>> {
    args.map_values(|a: Seq<char>| spec_remap_arg(a, ptrs))
}

/// Whether one of the strings holds exactly the characters of `s`.
fn contains_string(v: &Vec<String>, s: &str) -> (r: bool)
    ensures
        r == string_views(v@).contains(s@),
{
    let mut i: usize = 0;
    while i < v.len()
        invariant
            i <= v.len(),
            forall|j: int| 0 <= j < i ==> string_views(v@)[j] != s@,
        decreases v.len() - i,
    {
        if str_eq(v[i].as_str(), s) {
            proof {
                assert(string_views(v@)[i as int] == s@);
            }
            return true;
        }
        proof {
            assert(string_views(v@)[i as int] == v@[i as int]@);
        }
        i = i + 1;
    }
    false
}

/// Applies the pointer remapping of a forwarding statement to an argument
/// list.
fn remap_args(args: &Vec<String>, ptrs: &Vec<String>) -> (r: Vec<String>)
    ensures
        string_views(r@) == spec_remap_args(string_views(args@), string_views(ptrs@)),
{
    let mut out: Vec<String> = Vec::new();
    let mut i: usize = 0;
    while i < args.len()
        invariant
            i <= args.len(),
            out@.len() == i,
            forall|j: int|
                0 <= j < i ==> out@[j]@ == spec_remap_arg(
                    string_views(args@)[j],
                    string_views(ptrs@),
                ),
        decreases args.len() - i,
    {
        if contains_string(ptrs, args[i].as_str()) {
            let mut cast = args[i].clone();
            cast.append(" as *const _");
            out.push(cast);
        } else {
            out.push(args[i].clone());
        }
        proof {
            assert(string_views(args@)[i as int] == args@[i as int]@);
        }
        i = i + 1;
    }
    proof {
        assert(string_views(out@) =~= spec_remap_args(string_views(args@), string_views(ptrs@)));
    }
    out
}

/// The callee after forwarding: the target module path, extended by the
/// original callee's final segment.
pub open spec fn spec_update_callee(callee: PathView, def: DefStatementView) -> PathView {
    if callee.segs.len() == 0 {
        callee
    } else {
        PathView {
            leading_colon: def.target.leading_colon,
            segs: def.target.segs.push(callee.segs.last()),
        }
    }
}

/// The rewritten call: marker argument appended; under a forwarding
/// statement the callee is redirected and the untouched original call is
/// kept as the dead branch.
pub open spec fn spec_rewrite_call(
    stripped: CallExprView,
    valid: Seq<PreconditionView>,
    def: Option<DefStatementView>,
    crate_name: Seq<char>,
) -> ProcessedCallView {
    let marker = spec_marker_arg(kinds_of(valid), crate_name);
    match def {
        None => ProcessedCallView::Plain(
            CallExprView { args: stripped.args.push(marker), ..stripped },
        ),
        Some(d) => ProcessedCallView::Guarded {
            live: CallExprView {
                callee: spec_update_callee(stripped.callee, d),
                args: spec_remap_args(stripped.args, d.ptrs).push(marker),
                ..stripped
            },
            shadow: stripped,
        },
    }
}

/// What processing one call yields: nothing when no `assert_pre` attribute
/// sits on it, else the rewritten call and the diagnostics.
pub open spec fn spec_process_call(call: CallExprView, crate_name: Seq<char>) -> (
    Option<ProcessedCallView>,
    Seq<Diagnostic>,
) {
    if !spec_has_assert_pre(call.attrs) {
        (None, Seq::empty())
    } else {
        let c = spec_collect_call(call.attrs, 0, None);
        let v = spec_validate(c.pres, 0);
        let stripped = CallExprView { attrs: c.kept, ..call };
        (Some(spec_rewrite_call(stripped, v.kept, c.def, crate_name)), c.diags + v.diags)
    }
}

/// Decides whether any `assert_pre` attribute sits on this node.
fn has_assert_pre_attr(attrs: &Vec<Attr>) -> (r: bool)
    ensures
        r == spec_has_assert_pre(attr_views(attrs@)),
{
    let mut i: usize = 0;
    while i < attrs.len()
        invariant
            i <= attrs.len(),
            forall|k: int|
                0 <= k < i ==> !(#[trigger] attr_views(attrs@)[k].path.segs.len() == 1
                    && attr_views(attrs@)[k].path.segs[0] == "assert_pre"@),
        decreases attrs.len() - i,
    {
        let a = &attrs[i];
        let hit = a.path.segs.len() == 1 && str_eq(a.path.segs[0].as_str(), "assert_pre");
        proof {
            assert(attr_views(attrs@)[i as int] == attrs@[i as int]@);
            assert(attrs@[i as int]@.path.segs =~= string_views(attrs@[i as int].path.segs@));
        }
        if hit {
            return true;
        }
        i = i + 1;
    }
    false
}

/// Renders the call, if necessary: when `assert_pre` attributes sit on it,
/// they are removed, parsed and validated, the marker argument is appended,
/// and a forwarding statement redirects the callee while the original call
/// shape is kept under a dead branch.
pub fn process_call(call: CallExpr, crate_name: &str) -> (r: (
    Option<ProcessedCall>,
    Vec<Diagnostic>,
))
    ensures
        ({
            let s = spec_process_call(call@, crate_name@);
            r.1@ == s.1 && (match r.0 {
                Some(p) => s.0 == Some(p@),
                None => s.0 is None,
            })
        }),
{
    if !has_assert_pre_attr(&call.attrs) {
        return (None, Vec::new());
    }
    let ghost call0 = call@;
    let (kept, pres, def, diags) = collect_call_attrs(&call.attrs, 0, None);
    let ghost c = spec_collect_call(call0.attrs, 0, None);
    let (valid, vdiags) = check_preconditions(&pres, 0);
    let ghost v = spec_validate(c.pres, 0);
    let mut all_diags = diags;
    let mut vdiags = vdiags;
    all_diags.append(&mut vdiags);
    let mut stripped = call;
    stripped.attrs = kept;
    let ghost stripped_view = stripped@;
    let ghost valid_kinds = kinds_of(v.kept);
    let marker = render_marker_arg(valid, crate_name);
    proof {
        assert(kinds_of(precondition_views(valid@)) =~= pre_kinds(valid@));
    }
    match def {
        None => {
            stripped.args.push(marker);
            proof {
                assert(string_views(stripped.args@) =~= stripped_view.args.push(
                    spec_marker_arg(kinds_of(v.kept), crate_name@),
                ));
            }
            (Some(ProcessedCall::Plain(stripped)), all_diags)
        },
        Some(d) => {
            let shadow = stripped.duplicate();
            let mut live = stripped;
            if live.callee.segs.len() > 0 {
                let last = live.callee.segs[live.callee.segs.len() - 1].clone();
                let mut new_segs = clone_strings(&d.target.segs);
                new_segs.push(last);
                live.callee = Path { leading_colon: d.target.leading_colon, segs: new_segs };
                proof {
                    assert(live.callee@.segs =~= spec_update_callee(
                        stripped_view.callee,
                        d@,
                    ).segs);
                }
            }
            let mut args = remap_args(&live.args, &d.ptrs);
            args.push(marker);
            live.args = args;
            proof {
                assert(string_views(live.args@) =~= spec_remap_args(
                    stripped_view.args,
                    d@.ptrs,
                ).push(spec_marker_arg(kinds_of(v.kept), crate_name@)));
            }
            (Some(ProcessedCall::Guarded { live, shadow }), all_diags)
        },
    }
}

/// Warnings never escalate and never suppress encoding: a declaration
/// whose diagnostics are all warnings is still rewritten.
pub proof fn lemma_warnings_never_block(
    f: FnDeclView,
    first_attr: Option<PreAttrView>,
    crate_name: Seq<char>,
)
    requires
        !spec_has_error(spec_render_function(f, first_attr, crate_name).1),
    ensures
        spec_render_function(f, first_attr, crate_name).0 is Some,
{
}

/// What processing the items of a compilation unit from position `i` on
/// yields: every function declaration goes through the declaration pass, a
/// blocked one stays as it was; other items pass through untouched.
pub open spec fn spec_process_items(items: Seq<ItemView>, crate_name: Seq<char>, i: int) -> (
    Seq<ItemView>,
    Seq<Diagnostic>,
)
    decreases items.len() - i,
{
    if i < 0 || i >= items.len() {
        (Seq::empty(), Seq::empty())
    } else {
        let rest = spec_process_items(items, crate_name, i + 1);
        match items[i] {
            ItemView::Fn(f) => {
                let s = spec_render_function(f, None, crate_name);
                let item = match s.0 {
                    Some(g) => ItemView::Fn(g),
                    None => ItemView::Fn(f),
                };
                (seq![item] + rest.0, s.1 + rest.1)
            },
            ItemView::Other(t) => (seq![ItemView::Other(t)] + rest.0, rest.1),
        }
    }
}

/// What processing one compilation unit yields.  When the unit holds
/// exactly one function declaration, the attribute that started the pass
/// applies to it directly; otherwise a precondition on the pass itself has
/// nothing to attach to and is reported as unused.
pub open spec fn spec_process_file(
    file: SourceFileView,
    first_attr: Option<PreAttrView>,
    crate_name: Seq<char>,
) -> (SourceFileView, Seq<Diagnostic>) {
    if file.items.len() == 1 && file.items[0] is Fn {
        let s = spec_render_function(file.items[0]->Fn_0, first_attr, crate_name);
        let item = match s.0 {
            Some(g) => ItemView::Fn(g),
            None => file.items[0],
        };
        (SourceFileView { items: seq![item] }, s.1)
    } else {
        let warn: Seq<Diagnostic> = match first_attr {
            Some(PreAttrView::Precondition(p)) => seq![
                spec_diag(DiagCode::UnusedTopLevelAnnotation, p.kind_span, None),
            ],
            _ => Seq::empty(),
        };
        let r = spec_process_items(file.items, crate_name, 0);
        (SourceFileView { items: r.0 }, warn + r.1)
    }
}

/// Processes the items of a compilation unit from position `i` on.
fn process_items(items: &Vec<Item>, crate_name: &str, i: usize) -> (r: (
    Vec<Item>,
    Vec<Diagnostic>,
))
    requires
        i <= items@.len(),
    ensures
        ({
            let s = spec_process_items(item_views(items@), crate_name@, i as int);
            item_views(r.0@) == s.0 && r.1@ == s.1
        }),
    decreases items@.len() - i,
{
    if i == items.len() {
        let r: (Vec<Item>, Vec<Diagnostic>) = (Vec::new(), Vec::new());
        proof {
            assert(item_views(r.0@) =~= Seq::<ItemView>::empty());
        }
        r
    } else {
        let (mut out, diags) = process_items(items, crate_name, i + 1);
        let ghost rest_items = item_views(out@);
        match &items[i] {
            Item::Fn(f) => {
                let copy = f.duplicate();
                let (rewritten, mut fdiags) = render_function(copy, None, crate_name);
                let item = match rewritten {
                    Some(g) => Item::Fn(g),
                    None => Item::Fn(f.duplicate()),
                };
                out.insert(0, item);
                let mut diags = diags;
                let ghost rest_diags = diags@;
                let ghost fd = fdiags@;
                let mut all = fdiags;
                all.append(&mut diags);
                proof {
                    assert(item_views(out@) =~= seq![
                        spec_process_items(item_views(items@), crate_name@, i as int).0[0],
                    ] + rest_items);
                    assert(all@ == fd + rest_diags);
                }
                (out, all)
            },
            Item::Other(t) => {
                out.insert(0, Item::Other(t.clone()));
                proof {
                    assert(item_views(out@) =~= seq![
                        spec_process_items(item_views(items@), crate_name@, i as int).0[0],
                    ] + rest_items);
                }
                (out, diags)
            },
        }
    }
}

/// Applies and removes all `pre` attributes of one compilation unit.
///
/// `first_attr` is the already-parsed content of the attribute that started
/// the pass.  When the unit holds exactly one function declaration, that
/// attribute applies to it; otherwise a precondition there has no effect
/// and is reported as unused.
pub fn process_file(file: SourceFile, first_attr: Option<PreAttr>, crate_name: &str) -> (r: (
    SourceFile,
    Vec<Diagnostic>,
))
    ensures
        ({
            let s = spec_process_file(
                file@,
                match first_attr {
                    Some(a) => Some(a@),
                    None => None,
                },
                crate_name@,
            );
            r.0@ == s.0 && r.1@ == s.1
        }),
{
    let single_fn = file.items.len() == 1 && matches!(&file.items[0], Item::Fn(_));
    if single_fn {
        let mut file = file;
        let item = file.items.remove(0);
        let f = match item {
            Item::Fn(f) => f,
            Item::Other(_) => {
                proof {
                    assert(false);
                }
                return (file, Vec::new());
            },
        };
        let (rewritten, diags) = render_function(f.duplicate(), first_attr, crate_name);
        let item = match rewritten {
            Some(g) => Item::Fn(g),
            None => Item::Fn(f),
        };
        file.items.push(item);
        proof {
            assert(item_views(file.items@) =~= seq![item_views(file.items@)[0]]);
        }
        (file, diags)
    } else {
        let mut diags: Vec<Diagnostic> = Vec::new();
        match &first_attr {
            Some(PreAttr::Precondition(p)) => {
                diags.push(
                    Diagnostic::new(DiagCode::UnusedTopLevelAnnotation, p.kind_span, None),
                );
            },
            _ => {},
        }
        let (items, mut idiags) = process_items(&file.items, crate_name, 0);
        diags.append(&mut idiags);
        (SourceFile { items }, diags)
    }
}

/// Forwarding dead-branch invariant: when a call carries a forwarding
/// statement, the output holds two call shapes — rewritten and original —
/// and the shadow one is the call exactly as it stood after the annotation
/// blocks were removed: same callee, same arguments, no marker.  The live
/// call is redirected, its pointer-like arguments remapped, and the marker
/// appended.
pub proof fn lemma_forwarding_dead_branch(call: CallExprView, crate_name: Seq<char>)
    requires
        spec_has_assert_pre(call.attrs),
        spec_collect_call(call.attrs, 0, None) matches CallCollect { def: Some(_), .. },
    ensures
        ({
            let c = spec_collect_call(call.attrs, 0, None);
            let d = c.def->Some_0;
            spec_process_call(call, crate_name).0 matches Some(ProcessedCallView::Guarded {
                live,
                shadow,
            })
                && shadow == (CallExprView { attrs: c.kept, ..call })
                && shadow.args == call.args
                && shadow.callee == call.callee
                && live.args == spec_remap_args(call.args, d.ptrs).push(
                spec_marker_arg(kinds_of(spec_validate(c.pres, 0).kept), crate_name),
            )
        }),
{
}

} // verus!
