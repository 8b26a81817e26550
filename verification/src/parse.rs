//! The annotation parser.
//!
//! Given the token content inside one annotation's parentheses, produces an
//! empty marker, a single precondition with an optional justification, or a
//! forwarding statement.  Malformed input yields a structured diagnostic
//! anchored at the offending token; the caller goes on with the sibling
//! annotations, so one bad annotation never suppresses diagnostics on
//! others.
//!
//! Grammar:
//!
//! ```text
//! pre-attr        := <empty> | precondition
//! assert-pre-attr := def-statement | precondition
//! precondition    := kind [ `,` `reason` `=` <string> ]
//! kind            := <string> | `valid_ptr` `(` <ident> `)`
//! def-statement   := `def` `(` path [ `,` `ptr` `(` <ident> (`,` <ident>)* `)` ] `)`
//! path            := [`::`] <ident> (`::` <ident>)*
//! ```

use vstd::prelude::*;
use vstd::string::StringExecFns;
use crate::diag::{spec_diag, spec_span_join, DiagCode, Diagnostic, Span};
use crate::precondition::{KindView, Precondition, PreconditionKind, PreconditionView, Reason, ReasonView};
use crate::syntax::{Path, PathView};
use crate::text::str_eq;
use crate::token::{ident_text, is_kw, lit_text, token_views, Tok, Token, TokView, TokenView};

verus! {

/// A `pre` attribute on a declaration: either an empty marker, used purely
/// to trigger processing of contained attributes, or one precondition.
pub enum PreAttr {
    Empty,
    Precondition(Precondition),
}

/// The mathematical shape of a `pre` attribute.
pub enum PreAttrView {
    Empty,
    Precondition(PreconditionView),
}

impl View for PreAttr {
    type V = PreAttrView;

    open spec fn view(&self) -> PreAttrView {
        match self {
            PreAttr::Empty => PreAttrView::Empty,
            PreAttr::Precondition(p) => PreAttrView::Precondition(p@),
        }
    }
}

/// A forwarding statement: names the module holding the real definition a
/// call should be redirected to, and optionally which textual parameters
/// are pointer-like, so their arguments can be remapped for the
/// pointer-taking underlying function.
pub struct DefStatement {
    /// The module path the call is forwarded to.
    pub target: Path,
    /// The textual parameters that are pointer-like.
    pub ptrs: Vec<String>,
    /// The span of the whole statement.
    pub span: Span,
}

/// The mathematical shape of a forwarding statement.
pub struct DefStatementView {
    pub target: PathView,
    pub ptrs: Seq<Seq<char>>,
    pub span: Span,
}

impl View for DefStatement {
    type V = DefStatementView;

    open spec fn view(&self) -> DefStatementView {
        DefStatementView {
            target: self.target@,
            ptrs: crate::syntax::string_views(self.ptrs@),
            span: self.span,
        }
    }
}

/// An `assert_pre` attribute on a call: a forwarding statement or a stated
/// precondition.
pub enum AssertPreAttr {
    Def(DefStatement),
    Precondition(Precondition),
}

/// The mathematical shape of an `assert_pre` attribute.
pub enum AssertPreAttrView {
    Def(DefStatementView),
    Precondition(PreconditionView),
}

impl View for AssertPreAttr {
    type V = AssertPreAttrView;

    open spec fn view(&self) -> AssertPreAttrView {
        match self {
            AssertPreAttr::Def(d) => AssertPreAttrView::Def(d@),
            AssertPreAttr::Precondition(p) => AssertPreAttrView::Precondition(p@),
        }
    }
}

/// Where a diagnostic about missing further tokens is anchored: right after
/// the last token, or at the whole annotation when it is empty.
pub open spec fn spec_end_anchor(ts: Seq<TokenView>, attr_span: Span) -> Span {
    if ts.len() == 0 {
        attr_span
    } else {
        Span { lo: ts[ts.len() - 1].span.hi, hi: ts[ts.len() - 1].span.hi }
    }
}

/// The anchor for a diagnostic at position `i`: the token there, or the end
/// anchor when the input ended early.
pub open spec fn spec_anchor(ts: Seq<TokenView>, i: int, attr_span: Span) -> Span {
    if 0 <= i < ts.len() {
        ts[i].span
    } else {
        spec_end_anchor(ts, attr_span)
    }
}

/// A malformed-annotation error at `span`.
pub open spec fn spec_malformed(span: Span) -> Diagnostic {
    spec_diag(DiagCode::MalformedAnnotation, span, None)
}

/// Parses a condition expression at the start of the input: a string
/// literal, or `valid_ptr(ident)`.  Returns the kind, its span, and how many
/// tokens it covered.
pub open spec fn spec_parse_kind(ts: Seq<TokenView>, attr_span: Span) -> Result<
    (KindView, Span, int),
    Diagnostic,
> {
    if ts.len() == 0 {
        Err(spec_malformed(attr_span))
    } else {
        match ts[0].tok {
            TokView::LitStr(s) => Ok((KindView::Custom(s), ts[0].span, 1)),
            TokView::Ident(name) => {
                if name == "valid_ptr"@ {
                    if !(1 < ts.len() && ts[1].tok is OpenParen) {
                        Err(spec_malformed(spec_anchor(ts, 1, attr_span)))
                    } else if !(2 < ts.len() && ts[2].tok is Ident) {
                        Err(spec_malformed(spec_anchor(ts, 2, attr_span)))
                    } else if !(3 < ts.len() && ts[3].tok is CloseParen) {
                        Err(spec_malformed(spec_anchor(ts, 3, attr_span)))
                    } else {
                        Ok(
                            (
                                KindView::ValidPtr(ident_text(ts[2].tok)),
                                spec_span_join(ts[0].span, ts[3].span),
                                4,
                            ),
                        )
                    }
                } else {
                    Err(spec_malformed(ts[0].span))
                }
            },
            _ => Err(spec_malformed(ts[0].span)),
        }
    }
}

/// Parses the optional `, reason = "<string>"` clause that must cover the
/// whole rest of the input, starting at position `n`.
pub open spec fn spec_parse_reason_tail(ts: Seq<TokenView>, n: int, attr_span: Span) -> Result<
    Option<ReasonView>,
    Diagnostic,
> {
    if n >= ts.len() {
        Ok(None)
    } else if !(ts[n].tok is Comma) {
        Err(spec_malformed(ts[n].span))
    } else if !(n + 1 < ts.len() && is_kw(ts[n + 1].tok, "reason"@)) {
        Err(spec_malformed(spec_anchor(ts, n + 1, attr_span)))
    } else if !(n + 2 < ts.len() && ts[n + 2].tok is Eq) {
        Err(spec_malformed(spec_anchor(ts, n + 2, attr_span)))
    } else if !(n + 3 < ts.len() && ts[n + 3].tok is LitStr) {
        Err(spec_malformed(spec_anchor(ts, n + 3, attr_span)))
    } else if n + 4 != ts.len() {
        Err(spec_malformed(ts[n + 4].span))
    } else {
        Ok(Some(ReasonView { text: lit_text(ts[n + 3].tok), span: ts[n + 3].span }))
    }
}

/// Parses one precondition with its optional justification, covering the
/// whole input.
pub open spec fn spec_parse_precondition(ts: Seq<TokenView>, attr_span: Span) -> Result<
    PreconditionView,
    Diagnostic,
> {
    match spec_parse_kind(ts, attr_span) {
        Err(d) => Err(d),
        Ok((kind, kind_span, n)) => match spec_parse_reason_tail(ts, n, attr_span) {
            Err(d) => Err(d),
            Ok(reason) => Ok(
                PreconditionView {
                    kind,
                    kind_span,
                    reason,
                    end_span: Span { lo: kind_span.hi, hi: kind_span.hi },
                },
            ),
        },
    }
}

/// Parses the content of a `pre` attribute: empty, or one precondition.
pub open spec fn spec_parse_pre_attr(ts: Seq<TokenView>, attr_span: Span) -> Result<
    PreAttrView,
    Diagnostic,
> {
    if ts.len() == 0 {
        Ok(PreAttrView::Empty)
    } else {
        match spec_parse_precondition(ts, attr_span) {
            Err(d) => Err(d),
            Ok(p) => Ok(PreAttrView::Precondition(p)),
        }
    }
}

/// Parses `ident (:: ident)*` greedily from position `i`, returning the
/// segments and the position of the first token after the path.
pub open spec fn spec_parse_segs(ts: Seq<TokenView>, i: int, attr_span: Span) -> Result<
    (Seq<Seq<char>>, int),
    Diagnostic,
>
    decreases ts.len() - i,
{
    if !(0 <= i < ts.len() && ts[i].tok is Ident) {
        Err(spec_malformed(spec_anchor(ts, i, attr_span)))
    } else if i + 1 < ts.len() && ts[i + 1].tok is PathSep {
        match spec_parse_segs(ts, i + 2, attr_span) {
            Err(d) => Err(d),
            Ok(rest) => Ok((seq![ident_text(ts[i].tok)] + rest.0, rest.1)),
        }
    } else {
        Ok((seq![ident_text(ts[i].tok)], i + 1))
    }
}

/// Parses `ident (, ident)*` greedily from position `i`, returning the
/// names and the position of the first token after the list.
pub open spec fn spec_parse_ptr_names(ts: Seq<TokenView>, i: int, attr_span: Span) -> Result<
    (Seq<Seq<char>>, int),
    Diagnostic,
>
    decreases ts.len() - i,
{
    if !(0 <= i < ts.len() && ts[i].tok is Ident) {
        Err(spec_malformed(spec_anchor(ts, i, attr_span)))
    } else if i + 1 < ts.len() && ts[i + 1].tok is Comma {
        match spec_parse_ptr_names(ts, i + 2, attr_span) {
            Err(d) => Err(d),
            Ok(rest) => Ok((seq![ident_text(ts[i].tok)] + rest.0, rest.1)),
        }
    } else {
        Ok((seq![ident_text(ts[i].tok)], i + 1))
    }
}

/// Parses a forwarding statement `def(path)` or `def(path, ptr(a, b))`
/// covering the whole input.  The first token is already known to be the
/// `def` keyword.
pub open spec fn spec_parse_def(ts: Seq<TokenView>, attr_span: Span) -> Result<
    DefStatementView,
    Diagnostic,
> {
    if !(1 < ts.len() && ts[1].tok is OpenParen) {
        Err(spec_malformed(spec_anchor(ts, 1, attr_span)))
    } else if !(ts[ts.len() - 1].tok is CloseParen && ts.len() >= 4) {
        Err(spec_malformed(spec_end_anchor(ts, attr_span)))
    } else {
        let lead = ts[2].tok is PathSep;
        let start: int = if lead {
            3
        } else {
            2
        };
        match spec_parse_segs(ts, start, attr_span) {
            Err(d) => Err(d),
            Ok(segs) => {
                let target = PathView { leading_colon: lead, segs: segs.0 };
                let span = spec_span_join(ts[0].span, ts[ts.len() - 1].span);
                let n = segs.1;
                if n == ts.len() - 1 {
                    Ok(DefStatementView { target, ptrs: Seq::empty(), span })
                } else if !(n < ts.len() && ts[n].tok is Comma) {
                    Err(spec_malformed(spec_anchor(ts, n, attr_span)))
                } else if !(n + 1 < ts.len() && is_kw(ts[n + 1].tok, "ptr"@)) {
                    Err(spec_malformed(spec_anchor(ts, n + 1, attr_span)))
                } else if !(n + 2 < ts.len() && ts[n + 2].tok is OpenParen) {
                    Err(spec_malformed(spec_anchor(ts, n + 2, attr_span)))
                } else {
                    match spec_parse_ptr_names(ts, n + 3, attr_span) {
                        Err(d) => Err(d),
                        Ok(names) => {
                            if !(names.1 == ts.len() - 2 && ts[names.1].tok is CloseParen) {
                                Err(spec_malformed(spec_anchor(ts, names.1, attr_span)))
                            } else {
                                Ok(DefStatementView { target, ptrs: names.0, span })
                            }
                        },
                    }
                }
            },
        }
    }
}

/// Parses the content of an `assert_pre` attribute: a forwarding statement
/// when it opens with the `def` keyword, else one precondition.
pub open spec fn spec_parse_assert_pre_attr(ts: Seq<TokenView>, attr_span: Span) -> Result<
    AssertPreAttrView,
    Diagnostic,
> {
    if ts.len() > 0 && is_kw(ts[0].tok, "def"@) {
        match spec_parse_def(ts, attr_span) {
            Err(d) => Err(d),
            Ok(d) => Ok(AssertPreAttrView::Def(d)),
        }
    } else {
        match spec_parse_precondition(ts, attr_span) {
            Err(d) => Err(d),
            Ok(p) => Ok(AssertPreAttrView::Precondition(p)),
        }
    }
}

/// The end anchor, executable.
fn end_anchor(toks: &Vec<Token>, attr_span: Span) -> (r: Span)
    ensures
        r == spec_end_anchor(token_views(toks@), attr_span),
{
    if toks.len() == 0 {
        attr_span
    } else {
        let sp = toks[toks.len() - 1].span;
        Span { lo: sp.hi, hi: sp.hi }
    }
}

/// The anchor at position `i`, executable.
fn anchor(toks: &Vec<Token>, i: usize, attr_span: Span) -> (r: Span)
    ensures
        r == spec_anchor(token_views(toks@), i as int, attr_span),
{
    if i < toks.len() {
        toks[i].span
    } else {
        end_anchor(toks, attr_span)
    }
}

fn malformed(span: Span) -> (r: Diagnostic)
    ensures
        r == spec_malformed(span),
{
    Diagnostic::new(DiagCode::MalformedAnnotation, span, None)
}

/// Parses a condition expression at the start of the input.
fn parse_kind(toks: &Vec<Token>, attr_span: Span) -> (r: Result<
    (PreconditionKind, Span, usize),
    Diagnostic,
>)
    ensures
        ({
            let s = spec_parse_kind(token_views(toks@), attr_span);
            match r {
                Ok(k) => s == Ok::<_, Diagnostic>((k.0@, k.1, k.2 as int)) && k.2 <= toks@.len(),
                Err(d) => s == Err::<(KindView, Span, int), _>(d),
            }
        }),
{
    if toks.len() == 0 {
        return Err(malformed(attr_span));
    }
    match &toks[0].tok {
        Tok::LitStr(s) => Ok((PreconditionKind::Custom(s.clone()), toks[0].span, 1)),
        Tok::Ident(name) => {
            if str_eq(name.as_str(), "valid_ptr") {
                if !(1 < toks.len() && matches!(toks[1].tok, Tok::OpenParen)) {
                    return Err(malformed(anchor(toks, 1, attr_span)));
                }
                if !(2 < toks.len() && matches!(toks[2].tok, Tok::Ident(_))) {
                    return Err(malformed(anchor(toks, 2, attr_span)));
                }
                if !(3 < toks.len() && matches!(toks[3].tok, Tok::CloseParen)) {
                    return Err(malformed(anchor(toks, 3, attr_span)));
                }
                let ptr_name = match &toks[2].tok {
                    Tok::Ident(n) => n.clone(),
                    _ => {
                        proof {
                            assert(false);
                        }
                        String::new()
                    },
                };
                Ok((PreconditionKind::ValidPtr(ptr_name), toks[0].span.join(&toks[3].span), 4))
            } else {
                Err(malformed(toks[0].span))
            }
        },
        _ => Err(malformed(toks[0].span)),
    }
}

/// Parses the optional `, reason = "<string>"` clause starting at `n`.
fn parse_reason_tail(toks: &Vec<Token>, n: usize, attr_span: Span) -> (r: Result<
    Option<Reason>,
    Diagnostic,
>)
    ensures
        ({
            let s = spec_parse_reason_tail(token_views(toks@), n as int, attr_span);
            match r {
                Ok(Some(re)) => s == Ok::<_, Diagnostic>(Some(re@)),
                Ok(None) => s == Ok::<Option<ReasonView>, Diagnostic>(None),
                Err(d) => s == Err::<Option<ReasonView>, _>(d),
            }
        }),
{
    if n >= toks.len() {
        return Ok(None);
    }
    if !matches!(toks[n].tok, Tok::Comma) {
        return Err(malformed(toks[n].span));
    }
    let reason_kw_ok = n + 1 < toks.len() && match &toks[n + 1].tok {
        Tok::Ident(name) => str_eq(name.as_str(), "reason"),
        _ => false,
    };
    if !reason_kw_ok {
        return Err(malformed(anchor(toks, n + 1, attr_span)));
    }
    if !(n + 2 < toks.len() && matches!(toks[n + 2].tok, Tok::Eq)) {
        return Err(malformed(anchor(toks, n + 2, attr_span)));
    }
    if !(n + 3 < toks.len() && matches!(toks[n + 3].tok, Tok::LitStr(_))) {
        return Err(malformed(anchor(toks, n + 3, attr_span)));
    }
    if n + 4 != toks.len() {
        return Err(malformed(toks[n + 4].span));
    }
    let text = match &toks[n + 3].tok {
        Tok::LitStr(t) => t.clone(),
        _ => {
            proof {
                assert(false);
            }
            String::new()
        },
    };
    Ok(Some(Reason { text, span: toks[n + 3].span }))
}

/// Parses one precondition with its optional justification, covering the
/// whole input.
pub fn parse_precondition(toks: &Vec<Token>, attr_span: Span) -> (r: Result<
    Precondition,
    Diagnostic,
>)
    ensures
        ({
            let s = spec_parse_precondition(token_views(toks@), attr_span);
            match r {
                Ok(p) => s == Ok::<_, Diagnostic>(p@),
                Err(d) => s == Err::<PreconditionView, _>(d),
            }
        }),
{
    let (kind, kind_span, n) = match parse_kind(toks, attr_span) {
        Ok(k) => k,
        Err(d) => {
            return Err(d);
        },
    };
    let reason = match parse_reason_tail(toks, n, attr_span) {
        Ok(re) => re,
        Err(d) => {
            return Err(d);
        },
    };
    Ok(
        Precondition {
            kind,
            kind_span,
            reason,
            end_span: Span { lo: kind_span.hi, hi: kind_span.hi },
        },
    )
}

/// Parses the content of a `pre` attribute.
pub fn parse_pre_attr(toks: &Vec<Token>, attr_span: Span) -> (r: Result<PreAttr, Diagnostic>)
    ensures
        ({
            let s = spec_parse_pre_attr(token_views(toks@), attr_span);
            match r {
                Ok(a) => s == Ok::<_, Diagnostic>(a@),
                Err(d) => s == Err::<PreAttrView, _>(d),
            }
        }),
{
    if toks.len() == 0 {
        return Ok(PreAttr::Empty);
    }
    match parse_precondition(toks, attr_span) {
        Ok(p) => Ok(PreAttr::Precondition(p)),
        Err(d) => Err(d),
    }
}

/// Parses `ident (:: ident)*` greedily from position `i`.
fn parse_segs(toks: &Vec<Token>, i: usize, attr_span: Span) -> (r: Result<
    (Vec<String>, usize),
    Diagnostic,
>)
    ensures
        ({
            let s = spec_parse_segs(token_views(toks@), i as int, attr_span);
            match r {
                Ok(p) => s == Ok::<_, Diagnostic>((crate::syntax::string_views(p.0@), p.1 as int))
                    && p.1 <= toks@.len(),
                Err(d) => s == Err::<(Seq<Seq<char>>, int), _>(d),
            }
        }),
    decreases toks@.len() - i,
{
    if !(i < toks.len() && matches!(toks[i].tok, Tok::Ident(_))) {
        return Err(malformed(anchor(toks, i, attr_span)));
    }
    let seg = match &toks[i].tok {
        Tok::Ident(name) => name.clone(),
        _ => {
            proof {
                assert(false);
            }
            String::new()
        },
    };
    if i + 1 < toks.len() && matches!(toks[i + 1].tok, Tok::PathSep) {
        match parse_segs(toks, i + 2, attr_span) {
            Ok((rest, n)) => {
                let ghost rest_views = crate::syntax::string_views(rest@);
                let mut segs = rest;
                segs.insert(0, seg);
                proof {
                    assert(crate::syntax::string_views(segs@) =~= seq![
                        ident_text(token_views(toks@)[i as int].tok),
                    ] + rest_views);
                }
                Ok((segs, n))
            },
            Err(d) => Err(d),
        }
    } else {
        let mut segs: Vec<String> = Vec::new();
        segs.push(seg);
        proof {
            assert(crate::syntax::string_views(segs@) =~= seq![
                ident_text(token_views(toks@)[i as int].tok),
            ]);
        }
        Ok((segs, i + 1))
    }
}

/// Parses `ident (, ident)*` greedily from position `i`.
fn parse_ptr_names(toks: &Vec<Token>, i: usize, attr_span: Span) -> (r: Result<
    (Vec<String>, usize),
    Diagnostic,
>)
    ensures
        ({
            let s = spec_parse_ptr_names(token_views(toks@), i as int, attr_span);
            match r {
                Ok(p) => s == Ok::<_, Diagnostic>((crate::syntax::string_views(p.0@), p.1 as int))
                    && p.1 <= toks@.len(),
                Err(d) => s == Err::<(Seq<Seq<char>>, int), _>(d),
            }
        }),
    decreases toks@.len() - i,
{
    if !(i < toks.len() && matches!(toks[i].tok, Tok::Ident(_))) {
        return Err(malformed(anchor(toks, i, attr_span)));
    }
    let name = match &toks[i].tok {
        Tok::Ident(n) => n.clone(),
        _ => {
            proof {
                assert(false);
            }
            String::new()
        },
    };
    if i + 1 < toks.len() && matches!(toks[i + 1].tok, Tok::Comma) {
        match parse_ptr_names(toks, i + 2, attr_span) {
            Ok((rest, n)) => {
                let ghost rest_views = crate::syntax::string_views(rest@);
                let mut names = rest;
                names.insert(0, name);
                proof {
                    assert(crate::syntax::string_views(names@) =~= seq![
                        ident_text(token_views(toks@)[i as int].tok),
                    ] + rest_views);
                }
                Ok((names, n))
            },
            Err(d) => Err(d),
        }
    } else {
        let mut names: Vec<String> = Vec::new();
        names.push(name);
        proof {
            assert(crate::syntax::string_views(names@) =~= seq![
                ident_text(token_views(toks@)[i as int].tok),
            ]);
        }
        Ok((names, i + 1))
    }
}

/// Parses a forwarding statement `def(path)` or `def(path, ptr(a, b))`
/// covering the whole input; the caller has already seen the leading `def`
/// keyword.
pub fn parse_def_statement(toks: &Vec<Token>, attr_span: Span) -> (r: Result<
    DefStatement,
    Diagnostic,
>)
    ensures
        ({
            let s = spec_parse_def(token_views(toks@), attr_span);
            match r {
                Ok(d) => s == Ok::<_, Diagnostic>(d@),
                Err(d) => s == Err::<DefStatementView, _>(d),
            }
        }),
{
    if !(1 < toks.len() && matches!(toks[1].tok, Tok::OpenParen)) {
        return Err(malformed(anchor(toks, 1, attr_span)));
    }
    if !(matches!(toks[toks.len() - 1].tok, Tok::CloseParen) && toks.len() >= 4) {
        return Err(malformed(end_anchor(toks, attr_span)));
    }
    let leading = matches!(toks[2].tok, Tok::PathSep);
    let start: usize = if leading {
        3
    } else {
        2
    };
    let (segs, n) = match parse_segs(toks, start, attr_span) {
        Ok(p) => p,
        Err(d) => {
            return Err(d);
        },
    };
    let target = Path { leading_colon: leading, segs };
    let span = toks[0].span.join(&toks[toks.len() - 1].span);
    if n == toks.len() - 1 {
        let ptrs: Vec<String> = Vec::new();
        proof {
            assert(crate::syntax::string_views(ptrs@) =~= Seq::<Seq<char>>::empty());
        }
        return Ok(DefStatement { target, ptrs, span });
    }
    if !(n < toks.len() && matches!(toks[n].tok, Tok::Comma)) {
        return Err(malformed(anchor(toks, n, attr_span)));
    }
    let ptr_kw_ok = n + 1 < toks.len() && match &toks[n + 1].tok {
        Tok::Ident(kw) => str_eq(kw.as_str(), "ptr"),
        _ => false,
    };
    if !ptr_kw_ok {
        return Err(malformed(anchor(toks, n + 1, attr_span)));
    }
    if !(n + 2 < toks.len() && matches!(toks[n + 2].tok, Tok::OpenParen)) {
        return Err(malformed(anchor(toks, n + 2, attr_span)));
    }
    match parse_ptr_names(toks, n + 3, attr_span) {
        Ok((names, m)) => {
            if !(m == toks.len() - 2 && matches!(toks[m].tok, Tok::CloseParen)) {
                return Err(malformed(anchor(toks, m, attr_span)));
            }
            Ok(DefStatement { target, ptrs: names, span })
        },
        Err(d) => Err(d),
    }
}

/// Parses the content of an `assert_pre` attribute.
pub fn parse_assert_pre_attr(toks: &Vec<Token>, attr_span: Span) -> (r: Result<
    AssertPreAttr,
    Diagnostic,
>)
    ensures
        ({
            let s = spec_parse_assert_pre_attr(token_views(toks@), attr_span);
            match r {
                Ok(a) => s == Ok::<_, Diagnostic>(a@),
                Err(d) => s == Err::<AssertPreAttrView, _>(d),
            }
        }),
{
    let is_def = toks.len() > 0 && match &toks[0].tok {
        Tok::Ident(name) => str_eq(name.as_str(), "def"),
        _ => false,
    };
    if is_def {
        match parse_def_statement(toks, attr_span) {
            Ok(d) => Ok(AssertPreAttr::Def(d)),
            Err(d) => Err(d),
        }
    } else {
        match parse_precondition(toks, attr_span) {
            Ok(p) => Ok(AssertPreAttr::Precondition(p)),
            Err(d) => Err(d),
        }
    }
}

} // verus!
