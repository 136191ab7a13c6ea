//! Errors of name resolution.

use crate::span::Span;
use codespan_reporting::diagnostic::Diagnostic;
use codespan_reporting::diagnostic::Label;
use codespan_reporting::diagnostic::LabelStyle;
use codespan_reporting::diagnostic::Severity;
use vstd::prelude::*;

verus! {

/// Why a definition was refused.
#[derive(Debug, PartialEq, Eq)]
pub enum NameResolutionError {
    /// The name is already taken. Holds the name and a diagnostic that points
    /// at the refused definition.
    IdentifierClash(String, Diagnostic<usize>),
}

/// `label` is the primary label "Identifier is already in use" on the bytes
/// that `span` covers in its source text.
pub open spec fn is_clash_label(label: Label<usize>, span: Span) -> bool {
    &&& label.style == LabelStyle::Primary
    &&& label.file_id == span.code_source_index
    &&& label.range.start == span.start.byte
    &&& label.range.end == span.end.byte
    &&& label.message@ == "Identifier is already in use"@
}

/// `diagnostic` is the error "identifier clash in definition", without code
/// or notes, whose one label is the clash label for `span`.
pub open spec fn is_clash_diagnostic(diagnostic: Diagnostic<usize>, span: Span) -> bool {
    &&& diagnostic.severity == Severity::Error
    &&& diagnostic.code is None
    &&& diagnostic.message@ == "identifier clash in definition"@
    &&& diagnostic.labels@.len() == 1
    &&& is_clash_label(diagnostic.labels@[0], span)
    &&& diagnostic.notes@.len() == 0
}

impl NameResolutionError {
    /// This error reports a clash on `name` for the definition at `span`.
    pub open spec fn is_clash(self, name: Seq<char>, span: Span) -> bool {
        match self {
            NameResolutionError::IdentifierClash(clashing, diagnostic) => {
                &&& clashing@ == name
                &&& is_clash_diagnostic(diagnostic, span)
            },
        }
    }
}

} // verus!
