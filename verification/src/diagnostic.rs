//! Diagnostics, as the `codespan_reporting` crate defines them.
//!
//! The data types are declared with their fields, which are all public, so
//! contracts speak of a diagnostic's contents directly. The crate's
//! constructors are called through the functions below; their contracts say
//! what the constructors do and are taken on trust.

use codespan_reporting::diagnostic::Diagnostic;
use codespan_reporting::diagnostic::Label;
use codespan_reporting::diagnostic::LabelStyle;
use codespan_reporting::diagnostic::Severity;
use vstd::prelude::*;

verus! {

/// Declares `codespan_reporting::diagnostic::Severity`, with its variants.
#[verifier::external_type_specification]
pub struct ExSeverity(codespan_reporting::diagnostic::Severity);

/// Declares `codespan_reporting::diagnostic::LabelStyle`, with its variants.
#[verifier::external_type_specification]
pub struct ExLabelStyle(codespan_reporting::diagnostic::LabelStyle);

/// Declares `codespan_reporting::diagnostic::Label`, with its fields: the
/// style, the file, the range of bytes and the message.
#[verifier::external_type_specification]
#[verifier::reject_recursive_types(FileId)]
pub struct ExLabel<FileId>(codespan_reporting::diagnostic::Label<FileId>);

/// Declares `codespan_reporting::diagnostic::Diagnostic`, with its fields:
/// the severity, the code, the message, the labels and the notes.
#[verifier::external_type_specification]
#[verifier::reject_recursive_types(FileId)]
pub struct ExDiagnostic<FileId>(codespan_reporting::diagnostic::Diagnostic<FileId>);

/// Calls `Diagnostic::error`. Trusted: the result has severity `Error`, no
/// code, an empty message, no labels and no notes.
#[verifier::external_body]
pub(crate) fn error_diagnostic() -> (diagnostic: Diagnostic<usize>)
    ensures
        diagnostic.severity == Severity::Error,
        diagnostic.code is None,
        diagnostic.message@ == Seq::<char>::empty(),
        diagnostic.labels@ == Seq::<Label<usize>>::empty(),
        diagnostic.notes@ == Seq::<String>::empty(),
{
    Diagnostic::error()
}

/// Calls `Diagnostic::with_message`. Trusted: the result is `diagnostic` with
/// its message replaced by `message`; every other field is kept.
#[verifier::external_body]
pub(crate) fn diagnostic_with_message(diagnostic: Diagnostic<usize>, message: &str) -> (result:
    Diagnostic<usize>)
    ensures
        result.message@ == message@,
        result.severity == diagnostic.severity,
        result.code == diagnostic.code,
        result.labels == diagnostic.labels,
        result.notes == diagnostic.notes,
{
    diagnostic.with_message(message)
}

/// Calls `Diagnostic::with_labels`. Trusted: the result is `diagnostic` with
/// `labels` appended, in their order, to the labels it had; every other field
/// is kept.
#[verifier::external_body]
pub(crate) fn diagnostic_with_labels(
    diagnostic: Diagnostic<usize>,
    labels: Vec<Label<usize>>,
) -> (result: Diagnostic<usize>)
    ensures
        result.labels@ == diagnostic.labels@ + labels@,
        result.severity == diagnostic.severity,
        result.code == diagnostic.code,
        result.message == diagnostic.message,
        result.notes == diagnostic.notes,
{
    diagnostic.with_labels(labels)
}

/// Calls `Label::primary`. Trusted: the result is a label of style `Primary`
/// on the bytes `start..end` of the file `file_id`, with an empty message.
#[verifier::external_body]
pub(crate) fn primary_label(file_id: usize, start: usize, end: usize) -> (label: Label<usize>)
    ensures
        label.style == LabelStyle::Primary,
        label.file_id == file_id,
        label.range.start == start,
        label.range.end == end,
        label.message@ == Seq::<char>::empty(),
{
    Label::primary(file_id, start..end)
}

/// Calls `Label::with_message`. Trusted: the result is `label` with its
/// message replaced by `message`; every other field is kept.
#[verifier::external_body]
pub(crate) fn label_with_message(label: Label<usize>, message: &str) -> (result: Label<usize>)
    ensures
        result.message@ == message@,
        result.style == label.style,
        result.file_id == label.file_id,
        result.range == label.range,
{
    label.with_message(message)
}

} // verus!
