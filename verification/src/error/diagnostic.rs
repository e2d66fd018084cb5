use codespan_reporting::diagnostic::Diagnostic;
use codespan_reporting::files::SimpleFile;
use codespan_reporting::term::termcolor::Buffer;
use codespan_reporting::term::Config;
use vstd::prelude::*;

verus! {

/// What went wrong: a character that may not stand where it was found, or
/// input that stopped in the middle of a construct.
#[derive(Debug, Clone, Copy, PartialEq, Eq, Structural)]
pub enum ErrorForm {
    SyntaxError,
    EOFError,
}

/// A named source buffer, against which diagnostics are rendered.
#[derive(Debug, Clone)]
pub struct SourceFile {
    pub name: String,
    pub source: String,
}

/// The name and the text of a [`SourceFile`] as character sequences.
pub struct SourceFileView {
    pub name: Seq<char>,
    pub source: Seq<char>,
}

impl View for SourceFile {
    type V = SourceFileView;

    open spec fn view(&self) -> SourceFileView {
        SourceFileView { name: self.name@, source: self.source@ }
    }
}

impl SourceFile {
    pub fn new(name: String, source: String) -> (file: SourceFile)
        ensures
            file@ == (SourceFileView { name: name@, source: source@ }),
    {
        SourceFile { name, source }
    }
}

/// The primary mark of a diagnostic: the byte range `start..end` of the
/// source that it underlines, and a text shown beside it (empty for none).
#[derive(Debug, Clone)]
pub struct Label {
    pub start: usize,
    pub end: usize,
    pub message: String,
}

/// A [`Label`] with its text as a character sequence.
pub struct LabelView {
    pub start: usize,
    pub end: usize,
    pub message: Seq<char>,
}

impl View for Label {
    type V = LabelView;

    open spec fn view(&self) -> LabelView {
        LabelView { start: self.start, end: self.end, message: self.message@ }
    }
}

impl DeepView for Label {
    type V = LabelView;

    open spec fn deep_view(&self) -> LabelView {
        self@
    }
}

impl Label {
    /// A label over `start..end` without text.
    pub fn primary(start: usize, end: usize) -> (label: Label)
        ensures
            label@ == (LabelView { start, end, message: Seq::empty() }),
    {
        Label { start, end, message: String::new() }
    }

    /// The same label with `message` as its text.
    pub fn with_message(self, message: String) -> (label: Label)
        ensures
            label@ == (LabelView { start: self.start, end: self.end, message: message@ }),
    {
        Label { start: self.start, end: self.end, message }
    }
}

/// One diagnostic: its kind, the message, the marked ranges and free notes.
#[derive(Debug, Clone)]
pub struct Error {
    pub kind: ErrorForm,
    pub message: String,
    pub labels: Vec<Label>,
    pub notes: Vec<String>,
}

/// An [`Error`] with its texts as character sequences.
pub struct ErrorView {
    pub kind: ErrorForm,
    pub message: Seq<char>,
    pub labels: Seq<LabelView>,
    pub notes: Seq<Seq<char>>,
}

impl View for Error {
    type V = ErrorView;

    open spec fn view(&self) -> ErrorView {
        ErrorView {
            kind: self.kind,
            message: self.message@,
            labels: self.labels.deep_view(),
            notes: self.notes.deep_view(),
        }
    }
}

impl DeepView for Error {
    type V = ErrorView;

    open spec fn deep_view(&self) -> ErrorView {
        self@
    }
}

#[verifier::external_type_specification]
#[verifier::external_body]
#[verifier::reject_recursive_types(FileId)]
pub struct ExDiagnostic<FileId>(Diagnostic<FileId>);

/// The report that the renderer writes for a diagnostic with the given
/// message, labels and notes against the given file, colour codes included;
/// `None` where the renderer gives up.
pub uninterp spec fn rendered_report(
    file: SourceFileView,
    message: Seq<char>,
    labels: Seq<LabelView>,
    notes: Seq<Seq<char>>,
) -> Option<Seq<char>>;

/// Whether the renderer can be handed these labels: it adds one to the
/// start of a label, so no start may be the largest `usize`.
pub open spec fn renderable(labels: Seq<LabelView>) -> bool {
    forall|i: int| 0 <= i < labels.len() ==> (#[trigger] labels[i]).start < usize::MAX
}

impl Error {
    pub fn new(kind: ErrorForm, message: String, labels: Vec<Label>, notes: Vec<String>) -> (error:
        Error)
        ensures
            error.kind == kind,
            error.message == message,
            error.labels == labels,
            error.notes == notes,
    {
        Error { kind, message, labels, notes }
    }

    /// Calls `Diagnostic::error` of codespan_reporting and its builders
    /// `with_message`, `with_labels` and `with_notes`, with one
    /// `Label::primary` per label. The result is opaque here, so nothing is
    /// claimed of it.
    #[verifier::external_body]
    pub fn as_diagnostic(&self) -> Diagnostic<()> {
        let labels = self.labels.iter().map(
            |label|
                codespan_reporting::diagnostic::Label::primary((), label.start..label.end)
                    .with_message(label.message.clone()),
        ).collect();
        Diagnostic::error().with_message(self.message.clone()).with_labels(labels).with_notes(
            self.notes.clone(),
        )
    }

    /// Whether every label can be handed to the renderer.
    pub fn is_renderable(&self) -> (ok: bool)
        ensures
            ok == renderable(self@.labels),
    {
        let mut i: usize = 0;
        while i < self.labels.len()
            invariant
                i <= self.labels.len(),
                forall|j: int| 0 <= j < i ==> (#[trigger] self.labels[j]).start < usize::MAX,
            decreases self.labels.len() - i,
        {
            if self.labels[i].start == usize::MAX {
                assert(self@.labels[i as int] == self.labels[i as int]@);
                return false;
            }
            i = i + 1;
        }
        assert forall|j: int| 0 <= j < self@.labels.len() implies (#[trigger] self@.labels[j]).start
            < usize::MAX by {
            assert(self@.labels[j] == self.labels[j]@);
        }
        true
    }
}

/// Calls `term::emit` of codespan_reporting with a `SimpleFile` made of the
/// file's name and text, the default `Config`, the error as `as_diagnostic`
/// gives it, and an in-memory `Buffer::ansi` as the writer. The call
/// computes from these alone and writes nowhere else, so its outcome has the
/// name [`rendered_report`]: the buffer's content as text where `emit`
/// returned `Ok` and wrote valid UTF-8, `None` otherwise.
#[verifier::external_body]
fn render_report(file: &SourceFile, error: &Error) -> (report: Option<String>)
    requires
        renderable(error@.labels),
    ensures
        match report {
            Some(text) => rendered_report(file@, error@.message, error@.labels, error@.notes)
                == Some(text@),
            None => rendered_report(file@, error@.message, error@.labels, error@.notes) is None,
        },
{
    let files = SimpleFile::new(file.name.as_str(), file.source.as_str());
    let mut buffer = Buffer::ansi();
    match codespan_reporting::term::emit(
        &mut buffer,
        &Config::default(),
        &files,
        &error.as_diagnostic(),
    ) {
        Ok(()) => String::from_utf8(buffer.into_inner()).ok(),
        Err(_) => None,
    }
}

/// What rendering one diagnostic gives: nothing where its labels cannot be
/// handed to the renderer, else what the renderer returns.
pub open spec fn report_of(file: SourceFileView, error: ErrorView) -> Option<Seq<char>> {
    if renderable(error.labels) {
        rendered_report(file, error.message, error.labels, error.notes)
    } else {
        None
    }
}

/// The report of each diagnostic of `errors`, in order.
pub open spec fn reports_of(file: SourceFileView, errors: Seq<ErrorView>) -> Seq<
    Option<Seq<char>>,
> {
    Seq::new(errors.len(), |i: int| report_of(file, errors[i]))
}

/// An optional report as a character sequence.
pub open spec fn report_view(report: Option<String>) -> Option<Seq<char>> {
    match report {
        Some(text) => Some(text@),
        None => None,
    }
}

/// A list of optional reports as character sequences.
pub open spec fn report_views(reports: Seq<Option<String>>) -> Seq<Option<Seq<char>>> {
    Seq::new(reports.len(), |i: int| report_view(reports[i]))
}

/// How a batch emission ended.
#[derive(Debug, Clone)]
pub enum EmitOutcome {
    /// Nothing was registered: the caller goes on.
    NoErrors,
    /// One report per diagnostic, in the order of registration, `None` for
    /// one that could not be rendered. The caller writes them to its error
    /// stream and ends with a failure status.
    Reports(Vec<Option<String>>),
}

/// The diagnostics collected so far, in the order of their registration.
#[derive(Debug, Clone)]
pub struct Errors {
    errors: Vec<Error>,
}

impl View for Errors {
    type V = Seq<ErrorView>;

    closed spec fn view(&self) -> Seq<ErrorView> {
        self.errors.deep_view()
    }
}

impl Errors {
    pub fn new() -> (errors: Errors)
        ensures
            errors@ == Seq::<ErrorView>::empty(),
    {
        let errors = Errors { errors: Vec::new() };
        assert(errors.errors.deep_view() =~= Seq::<ErrorView>::empty());
        errors
    }

    /// Appends `error`, whatever is registered already.
    pub fn register_error(&mut self, error: Error)
        ensures
            final(self)@ == old(self)@.push(error@),
    {
        self.errors.push(error);
        assert(self.errors.deep_view() =~= old(self).errors.deep_view().push(error@));
    }

    /// Moves every diagnostic of `errors` behind those registered, leaving
    /// `errors` empty.
    pub fn extend(&mut self, errors: &mut Vec<Error>)
        ensures
            final(self)@ == old(self)@ + old(errors).deep_view(),
            final(errors)@.len() == 0,
    {
        self.errors.append(errors);
        assert(self.errors.deep_view() =~= old(self).errors.deep_view() + old(
            errors,
        ).deep_view());
    }

    /// The number of diagnostics registered.
    pub fn len(&self) -> (n: usize)
        ensures
            n == self@.len(),
    {
        self.errors.len()
    }

    /// Whether nothing was registered.
    pub fn is_empty(&self) -> (empty: bool)
        ensures
            empty == (self@.len() == 0),
    {
        self.errors.len() == 0
    }

    /// The diagnostics registered, in order.
    pub fn records(&self) -> (records: &Vec<Error>)
        ensures
            records.deep_view() == self@,
    {
        &self.errors
    }

    /// Renders every diagnostic against `file`, in the order of
    /// registration, and leaves the collection as it is. With nothing
    /// registered nothing is rendered.
    pub fn emit_errors(&mut self, file: &SourceFile) -> (outcome: EmitOutcome)
        ensures
            final(self)@ == old(self)@,
            old(self)@.len() == 0 ==> outcome is NoErrors,
            old(self)@.len() > 0 ==> (outcome matches EmitOutcome::Reports(reports)
                && report_views(reports@) == reports_of(file@, old(self)@)),
    {
        if self.errors.len() == 0 {
            return EmitOutcome::NoErrors;
        }
        let mut reports: Vec<Option<String>> = Vec::new();
        let mut i: usize = 0;
        while i < self.errors.len()
            invariant
                i <= self.errors.len(),
                reports.len() == i,
                forall|j: int|
                    0 <= j < i ==> report_view(#[trigger] reports@[j]) == report_of(
                        file@,
                        self.errors[j]@,
                    ),
            decreases self.errors.len() - i,
        {
            let report = if self.errors[i].is_renderable() {
                render_report(file, &self.errors[i])
            } else {
                None
            };
            reports.push(report);
            i = i + 1;
        }
        assert(report_views(reports@) =~= reports_of(file@, self.errors.deep_view()));
        EmitOutcome::Reports(reports)
    }
}

} // verus!
