//! Structured diagnostics.
//!
//! The pipeline never aborts on malformed user input: every problem is
//! reported as a [`Diagnostic`] value carrying a severity, a stable code, the
//! source span it is anchored at and an optional help span.  The host is
//! expected to surface these through its own diagnostics channel.

use vstd::prelude::*;

verus! {

/// A source position, used only to anchor diagnostics.
#[derive(Clone, Copy, PartialEq, Eq, Structural, Debug)]
pub struct Span {
    /// Offset of the first character covered.
    pub lo: usize,
    /// Offset one past the last character covered.
    pub hi: usize,
}

impl Span {
    /// The smallest span covering both `self` and `other`.
    pub fn join(&self, other: &Span) -> (r: Span)
        ensures
            r == spec_span_join(*self, *other),
    {
        Span {
            lo: if self.lo <= other.lo {
                self.lo
            } else {
                other.lo
            },
            hi: if self.hi >= other.hi {
                self.hi
            } else {
                other.hi
            },
        }
    }
}

/// The smallest span covering both arguments.
pub open spec fn spec_span_join(a: Span, b: Span) -> Span {
    Span {
        lo: if a.lo <= b.lo {
            a.lo
        } else {
            b.lo
        },
        hi: if a.hi >= b.hi {
            a.hi
        } else {
            b.hi
        },
    }
}

/// How serious a diagnostic is.
///
/// Errors block the build; warnings never do.
#[derive(Clone, Copy, PartialEq, Eq, Structural, Debug)]
pub enum Severity {
    Error,
    Warning,
}

/// The closed set of diagnostics the pipeline can emit.
#[derive(Clone, Copy, PartialEq, Eq, Structural, Debug)]
pub enum DiagCode {
    /// Annotation content does not match the annotation grammar.
    MalformedAnnotation,
    /// A stated precondition carries no `reason` clause.
    MissingJustification,
    /// A justification equals one of the known placeholder strings.
    PlaceholderJustification,
    /// The same logical condition is stated by two separate annotation blocks.
    DuplicateAnnotation,
    /// More than one forwarding statement is attached to one call.
    DuplicateForwardingStatement,
    /// An annotation is attached to a node where it has no effect.
    UnusedTopLevelAnnotation,
}

/// The severity that belongs to each diagnostic code.
pub open spec fn spec_severity(code: DiagCode) -> Severity {
    match code {
        DiagCode::MalformedAnnotation => Severity::Error,
        DiagCode::MissingJustification => Severity::Error,
        DiagCode::PlaceholderJustification => Severity::Warning,
        DiagCode::DuplicateAnnotation => Severity::Error,
        DiagCode::DuplicateForwardingStatement => Severity::Error,
        DiagCode::UnusedTopLevelAnnotation => Severity::Warning,
    }
}

/// One structured diagnostic.
#[derive(Clone, Copy, PartialEq, Eq, Debug)]
pub struct Diagnostic {
    /// Whether this blocks the build.
    pub severity: Severity,
    /// Which diagnostic this is.
    pub code: DiagCode,
    /// Where the problem sits.
    pub span: Span,
    /// Where the help note points, when there is one: the insertion point of a
    /// missing `reason` clause, or the earlier occurrence of a duplicate.
    pub help_span: Option<Span>,
}

/// The diagnostic value for a code anchored at a span.
pub open spec fn spec_diag(code: DiagCode, span: Span, help_span: Option<Span>) -> Diagnostic {
    Diagnostic { severity: spec_severity(code), code, span, help_span }
}

/// Whether a sequence of diagnostics contains one that blocks the build.
pub open spec fn spec_has_error(diags: Seq<Diagnostic>) -> bool {
    exists|i: int| 0 <= i < diags.len() && diags[i].severity == Severity::Error
}

impl Diagnostic {
    /// Builds a diagnostic; the severity is determined by the code.
    pub fn new(code: DiagCode, span: Span, help_span: Option<Span>) -> (r: Diagnostic)
        ensures
            r == spec_diag(code, span, help_span),
    {
        let severity = match code {
            DiagCode::MalformedAnnotation => Severity::Error,
            DiagCode::MissingJustification => Severity::Error,
            DiagCode::PlaceholderJustification => Severity::Warning,
            DiagCode::DuplicateAnnotation => Severity::Error,
            DiagCode::DuplicateForwardingStatement => Severity::Error,
            DiagCode::UnusedTopLevelAnnotation => Severity::Warning,
        };
        Diagnostic { severity, code, span, help_span }
    }

    /// The primary message for this diagnostic.
    pub fn message(&self) -> (r: String)
        ensures
            r@ == spec_message(self.code),
    {
        match self.code {
            DiagCode::MalformedAnnotation => "malformed annotation".to_owned(),
            DiagCode::MissingJustification => {
                "you need to specify a reason why this precondition holds".to_owned()
            },
            DiagCode::PlaceholderJustification => {
                "you should specify a more meaningful reason here".to_owned()
            },
            DiagCode::DuplicateAnnotation => "duplicate annotation".to_owned(),
            DiagCode::DuplicateForwardingStatement => "duplicate `def(...)` statement".to_owned(),
            DiagCode::UnusedTopLevelAnnotation => "this does not do anything".to_owned(),
        }
    }

    /// The help note for this diagnostic, when one exists.
    pub fn help_message(&self) -> (r: Option<String>)
        ensures
            r matches Some(h) ==> spec_help_message(self.code) matches Some(m) && h@ == m,
            r is None <==> spec_help_message(self.code) is None,
    {
        match self.code {
            DiagCode::MalformedAnnotation => None,
            DiagCode::MissingJustification => {
                Some("add `, reason = \"why does this hold?\"`".to_owned())
            },
            DiagCode::PlaceholderJustification => {
                Some(
                    "specifying a meaningful reason here will help you and others understand why this is ok in the future".to_owned(),
                )
            },
            DiagCode::DuplicateAnnotation => {
                Some("combine the list of conditions into one attribute".to_owned())
            },
            DiagCode::DuplicateForwardingStatement => {
                Some("there can be just one definition site, try removing the wrong one".to_owned())
            },
            DiagCode::UnusedTopLevelAnnotation => None,
        }
    }
}

/// The primary message that belongs to each code.
pub open spec fn spec_message(code: DiagCode) -> Seq<char> {
    match code {
        DiagCode::MalformedAnnotation => "malformed annotation"@,
        DiagCode::MissingJustification => {
            "you need to specify a reason why this precondition holds"@
        },
        DiagCode::PlaceholderJustification => "you should specify a more meaningful reason here"@,
        DiagCode::DuplicateAnnotation => "duplicate annotation"@,
        DiagCode::DuplicateForwardingStatement => "duplicate `def(...)` statement"@,
        DiagCode::UnusedTopLevelAnnotation => "this does not do anything"@,
    }
}

/// The help note that belongs to each code.
pub open spec fn spec_help_message(code: DiagCode) -> Option<Seq<char>> {
    match code {
        DiagCode::MalformedAnnotation => None,
        DiagCode::MissingJustification => Some("add `, reason = \"why does this hold?\"`"@),
        DiagCode::PlaceholderJustification => {
            Some(
                "specifying a meaningful reason here will help you and others understand why this is ok in the future"@,
            )
        },
        DiagCode::DuplicateAnnotation => Some("combine the list of conditions into one attribute"@),
        DiagCode::DuplicateForwardingStatement => {
            Some("there can be just one definition site, try removing the wrong one"@)
        },
        DiagCode::UnusedTopLevelAnnotation => None,
    }
}

/// Whether any error-severity diagnostic sits in `diags`.
pub fn has_error(diags: &Vec<Diagnostic>) -> (r: bool)
    ensures
        r == spec_has_error(diags@),
{
    let mut i: usize = 0;
    while i < diags.len()
        invariant
            i <= diags.len(),
            forall|j: int| 0 <= j < i ==> diags@[j].severity != Severity::Error,
        decreases diags.len() - i,
    {
        if matches!(diags[i].severity, Severity::Error) {
            return true;
        }
        i = i + 1;
    }
    false
}

} // verus!
