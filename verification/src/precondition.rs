//! The precondition model: kinds, justifications, and the total order that
//! the canonicalizer sorts by.

use vstd::prelude::*;
use vstd::relations::total_ordering;
use crate::diag::Span;
use crate::text::{
    is_placeholder, is_placeholder_exec, lex_le, lex_le_exec, lemma_lex_le_antisym,
    lemma_lex_le_refl, lemma_lex_le_total, lemma_lex_le_trans,
};

verus! {

/// The different kinds of preconditions.
#[derive(Clone, PartialEq, Eq, Debug)]
pub enum PreconditionKind {
    /// A custom precondition that is spelled out in a string.
    Custom(String),
    /// Requires that the named identifier refers to a valid pointer-like
    /// value.
    ValidPtr(String),
}

/// The mathematical shape of a precondition kind.
pub enum KindView {
    Custom(Seq<char>),
    ValidPtr(Seq<char>),
}

impl View for PreconditionKind {
    type V = KindView;

    open spec fn view(&self) -> KindView {
        match self {
            PreconditionKind::Custom(s) => KindView::Custom(s@),
            PreconditionKind::ValidPtr(s) => KindView::ValidPtr(s@),
        }
    }
}

/// A stated justification: why a precondition holds at this site.
#[derive(Clone, PartialEq, Eq, Debug)]
pub struct Reason {
    /// The justification text.
    pub text: String,
    /// Where the text stands in the source.
    pub span: Span,
}

/// The mathematical shape of a justification.
pub struct ReasonView {
    pub text: Seq<char>,
    pub span: Span,
}

impl View for Reason {
    type V = ReasonView;

    open spec fn view(&self) -> ReasonView {
        ReasonView { text: self.text@, span: self.span }
    }
}

/// One contract obligation, as parsed from one annotation block.
///
/// A precondition without a justification is parseable but invalid; the
/// validator, not the parser, reports it.
#[derive(Clone, PartialEq, Eq, Debug)]
pub struct Precondition {
    /// What is required.
    pub kind: PreconditionKind,
    /// The span of the condition expression.
    pub kind_span: Span,
    /// The justification, when one was written.
    pub reason: Option<Reason>,
    /// The zero-width position right after the condition, where a missing
    /// `reason` clause belongs.
    pub end_span: Span,
}

/// The mathematical shape of a precondition.
pub struct PreconditionView {
    pub kind: KindView,
    pub kind_span: Span,
    pub reason: Option<ReasonView>,
    pub end_span: Span,
}

impl View for Precondition {
    type V = PreconditionView;

    open spec fn view(&self) -> PreconditionView {
        PreconditionView {
            kind: self.kind@,
            kind_span: self.kind_span,
            reason: match self.reason {
                Some(r) => Some(r@),
                None => None,
            },
            end_span: self.end_span,
        }
    }
}

/// The views of a sequence of preconditions.
pub open spec fn precondition_views(s: Seq<Precondition>) -> Seq<PreconditionView> {
    s.map_values(|p: Precondition| p@)
}

/// The kinds of a sequence of precondition views.
pub open spec fn kinds_of(s: Seq<PreconditionView>) -> Seq<KindView> {
    s.map_values(|p: PreconditionView| p.kind)
}

/// The total order on precondition kinds: first by variant tag (`Custom`
/// before `ValidPtr`), then lexicographically by payload.  It is independent
/// of declaration order, which makes the canonical encoding deterministic.
pub open spec fn kind_le(a: KindView, b: KindView) -> bool {
    match (a, b) {
        (KindView::Custom(x), KindView::Custom(y)) => lex_le(x, y),
        (KindView::Custom(x), KindView::ValidPtr(y)) => true,
        (KindView::ValidPtr(x), KindView::Custom(y)) => false,
        (KindView::ValidPtr(x), KindView::ValidPtr(y)) => lex_le(x, y),
    }
}

/// The order on kinds as a first-class function, for vstd's sorting
/// machinery.
pub open spec fn kind_le_ff() -> spec_fn(KindView, KindView) -> bool {
    |a: KindView, b: KindView| kind_le(a, b)
}

/// The order on kinds is a total order.
pub proof fn lemma_kind_le_total_ordering()
    ensures
        total_ordering(kind_le_ff()),
{
    let leq = kind_le_ff();
    assert forall|a: KindView| #[trigger] leq(a, a) by {
        match a {
            KindView::Custom(x) => lemma_lex_le_refl(x),
            KindView::ValidPtr(x) => lemma_lex_le_refl(x),
        }
    }
    assert forall|a: KindView, b: KindView| #[trigger] leq(a, b) && #[trigger] leq(b, a)
        implies a == b by {
        match (a, b) {
            (KindView::Custom(x), KindView::Custom(y)) => lemma_lex_le_antisym(x, y),
            (KindView::ValidPtr(x), KindView::ValidPtr(y)) => lemma_lex_le_antisym(x, y),
            _ => {},
        }
    }
    assert forall|a: KindView, b: KindView, c: KindView|
        #[trigger] leq(a, b) && #[trigger] leq(b, c) implies #[trigger] leq(a, c) by {
        match (a, b, c) {
            (KindView::Custom(x), KindView::Custom(y), KindView::Custom(z)) => {
                lemma_lex_le_trans(x, y, z)
            },
            (KindView::ValidPtr(x), KindView::ValidPtr(y), KindView::ValidPtr(z)) => {
                lemma_lex_le_trans(x, y, z)
            },
            _ => {},
        }
    }
    assert forall|a: KindView, b: KindView| #[trigger] leq(a, b) || #[trigger] leq(b, a) by {
        match (a, b) {
            (KindView::Custom(x), KindView::Custom(y)) => lemma_lex_le_total(x, y),
            (KindView::ValidPtr(x), KindView::ValidPtr(y)) => lemma_lex_le_total(x, y),
            _ => {},
        }
    }
}

/// The order on kinds is transitive.
pub proof fn lemma_kind_le_trans(a: KindView, b: KindView, c: KindView)
    requires
        kind_le(a, b),
        kind_le(b, c),
    ensures
        kind_le(a, c),
{
    match (a, b, c) {
        (KindView::Custom(x), KindView::Custom(y), KindView::Custom(z)) => {
            lemma_lex_le_trans(x, y, z)
        },
        (KindView::ValidPtr(x), KindView::ValidPtr(y), KindView::ValidPtr(z)) => {
            lemma_lex_le_trans(x, y, z)
        },
        _ => {},
    }
}

/// Any two kinds are comparable.
pub proof fn lemma_kind_le_connected(a: KindView, b: KindView)
    ensures
        kind_le(a, b) || kind_le(b, a),
{
    match (a, b) {
        (KindView::Custom(x), KindView::Custom(y)) => lemma_lex_le_total(x, y),
        (KindView::ValidPtr(x), KindView::ValidPtr(y)) => lemma_lex_le_total(x, y),
        _ => {},
    }
}

/// Decides the order on two precondition kinds.
pub fn kind_le_exec(a: &PreconditionKind, b: &PreconditionKind) -> (r: bool)
    ensures
        r == kind_le(a@, b@),
{
    match (a, b) {
        (PreconditionKind::Custom(x), PreconditionKind::Custom(y)) => {
            lex_le_exec(x.as_str(), y.as_str())
        },
        (PreconditionKind::Custom(_), PreconditionKind::ValidPtr(_)) => true,
        (PreconditionKind::ValidPtr(_), PreconditionKind::Custom(_)) => false,
        (PreconditionKind::ValidPtr(x), PreconditionKind::ValidPtr(y)) => {
            lex_le_exec(x.as_str(), y.as_str())
        },
    }
}

impl PreconditionKind {
    /// Copies a kind, preserving its view.
    pub fn duplicate(&self) -> (r: PreconditionKind)
        ensures
            r@ == self@,
    {
        match self {
            PreconditionKind::Custom(s) => PreconditionKind::Custom(s.clone()),
            PreconditionKind::ValidPtr(s) => PreconditionKind::ValidPtr(s.clone()),
        }
    }
}

impl Precondition {
    /// Copies a precondition, preserving its view.
    pub fn duplicate(&self) -> (r: Precondition)
        ensures
            r@ == self@,
    {
        Precondition {
            kind: self.kind.duplicate(),
            kind_span: self.kind_span,
            reason: match &self.reason {
                Some(re) => Some(Reason { text: re.text.clone(), span: re.span }),
                None => None,
            },
            end_span: self.end_span,
        }
    }
}

/// Decides whether two kinds are the same logical condition.
pub fn kind_eq_exec(a: &PreconditionKind, b: &PreconditionKind) -> (r: bool)
    ensures
        r == (a@ == b@),
{
    match (a, b) {
        (PreconditionKind::Custom(x), PreconditionKind::Custom(y)) => {
            crate::text::str_eq(x.as_str(), y.as_str())
        },
        (PreconditionKind::ValidPtr(x), PreconditionKind::ValidPtr(y)) => {
            crate::text::str_eq(x.as_str(), y.as_str())
        },
        _ => false,
    }
}

/// Whether a precondition carries a placeholder justification.
pub open spec fn spec_has_unfinished_reason(p: PreconditionView) -> bool {
    match p.reason {
        Some(r) => is_placeholder(r.text),
        None => false,
    }
}

/// Checks if a warning about an unfinished reason should be given.
pub fn has_unfinished_reason(precondition: &Precondition) -> (r: bool)
    ensures
        r == spec_has_unfinished_reason(precondition@),
{
    match &precondition.reason {
        Some(reason) => is_placeholder_exec(reason.text.as_str()),
        None => false,
    }
}

/// Returns the span of an unfinished reason declaration if the justification
/// is a placeholder.
pub fn unfinished_reason(reason: &Reason) -> (r: Option<Span>)
    ensures
        r == if is_placeholder(reason.text@) {
            Some(reason.span)
        } else {
            None::<Span>
        },
{
    if is_placeholder_exec(reason.text.as_str()) {
        Some(reason.span)
    } else {
        None
    }
}

} // verus!
