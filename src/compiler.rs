//! The calls into the Slice compiler, and the conversion of what it reports into
//! this library's diagnostics.
use vstd::prelude::*;
use slicec::compilation_state::CompilationState;
use slicec::diagnostics::{AnnotatedDiagnostic, AnnotatedNote, Snippet};
use crate::diagnostics::{Diagnostic, DiagnosticView, Note, NoteView, diagnostic_views, opt_span_view};
use crate::position::{SourceLocation, SourceSpan, SpanView};

verus! {

/// The compiler's state after a compilation (definitions and files), carried through
/// unopened.
#[verifier::external_type_specification]
#[verifier::external_body]
pub struct ExCompilationState(CompilationState);

// The compiler's plain data types below are declared with their public fields, which
// the conversions read.

#[verifier::external_type_specification]
pub struct ExLocation(slicec::slice_file::Location);

#[verifier::external_type_specification]
pub struct ExSpan(slicec::slice_file::Span);

#[verifier::external_type_specification]
pub struct ExDiagnosticLevel(slicec::diagnostics::DiagnosticLevel);

#[verifier::external_type_specification]
pub struct ExSnippet(Snippet);

#[verifier::external_type_specification]
pub struct ExAnnotatedNote(AnnotatedNote);

#[verifier::external_type_specification]
pub struct ExAnnotatedDiagnostic(AnnotatedDiagnostic);

/// Relies on `slicec::compile_from_options`: compiles the Slice files found under the
/// given reference paths, in that order. What it reports depends on the files on disk.
#[verifier::external_body]
pub(crate) fn compile_references(references: &Vec<String>) -> (r: CompilationState) {
    let options = slicec::slice_options::SliceOptions { references: references.clone(), ..Default::default() };
    slicec::compile_from_options(&options)
}

/// Relies on `CompilationState::get_annotated_diagnostics`: the diagnostics of a
/// compilation with their final levels, for the options it was compiled with.
#[verifier::external_body]
pub(crate) fn annotated_diagnostics(state: &CompilationState, references: &Vec<String>) -> (r: Vec<
    AnnotatedDiagnostic,
>) {
    let options = slicec::slice_options::SliceOptions { references: references.clone(), ..Default::default() };
    state.get_annotated_diagnostics(&options)
}

/// Relies on the `files` of a `CompilationState`: the path of each compiled file.
#[verifier::external_body]
pub(crate) fn compiled_file_paths(state: &CompilationState) -> (r: Vec<String>) {
    state.files.iter().map(|f| f.relative_path.clone()).collect()
}

/// What a compiler span denotes.
pub open spec fn compiler_span_view(s: slicec::slice_file::Span) -> SpanView {
    SpanView {
        start: SourceLocation { row: s.start.row, col: s.start.col },
        end: SourceLocation { row: s.end.row, col: s.end.col },
        file: s.file@,
    }
}

/// The span of a compiler snippet, if there is one.
pub open spec fn snippet_span_view(s: Option<Snippet>) -> Option<SpanView> {
    match s {
        Some(snippet) => Some(compiler_span_view(snippet.span)),
        None => None,
    }
}

/// Converts a compiler span.
pub fn convert_span(s: &slicec::slice_file::Span) -> (r: SourceSpan)
    ensures
        r@ == compiler_span_view(*s),
{
    SourceSpan {
        start: SourceLocation { row: s.start.row, col: s.start.col },
        end: SourceLocation { row: s.end.row, col: s.end.col },
        file: s.file.clone(),
    }
}

fn convert_snippet_span(s: &Option<Snippet>) -> (r: Option<SourceSpan>)
    ensures
        opt_span_view(r) == snippet_span_view(*s),
{
    match s {
        Some(snippet) => Some(convert_span(&snippet.span)),
        None => None,
    }
}

/// What a compiler note denotes; its span is that of its snippet.
pub open spec fn annotated_note_view(n: AnnotatedNote) -> NoteView {
    NoteView { message: n.message@, span: snippet_span_view(n.snippet) }
}

/// What a compiler diagnostic denotes; its span is that of its snippet.
pub open spec fn annotated_view(d: AnnotatedDiagnostic) -> DiagnosticView {
    DiagnosticView {
        level: d.level,
        span: snippet_span_view(d.snippet),
        code: d.code@,
        message: d.message@,
        notes: d.notes@.map_values(|n: AnnotatedNote| annotated_note_view(n)),
    }
}

/// Converts a compiler note.
pub fn convert_note(n: &AnnotatedNote) -> (r: Note)
    ensures
        r@ == annotated_note_view(*n),
{
    Note { message: n.message.clone(), span: convert_snippet_span(&n.snippet) }
}

/// Converts a compiler diagnostic, notes included.
pub fn convert_diagnostic(d: &AnnotatedDiagnostic) -> (r: Diagnostic)
    ensures
        r@ == annotated_view(*d),
{
    let mut notes: Vec<Note> = Vec::new();
    let mut i: usize = 0;
    while i < d.notes.len()
        invariant
            i <= d.notes@.len(),
            notes@.len() == i,
            forall|k: int| 0 <= k < i ==> (#[trigger] notes@[k])@ == annotated_note_view(d.notes@[k]),
        decreases d.notes@.len() - i,
    {
        notes.push(convert_note(&d.notes[i]));
        i = i + 1;
    }
    let r = Diagnostic {
        level: d.level,
        span: convert_snippet_span(&d.snippet),
        code: d.code.clone(),
        message: d.message.clone(),
        notes,
    };
    assert(r@.notes =~= d.notes@.map_values(|n: AnnotatedNote| annotated_note_view(n)));
    r
}

/// Converts each compiler diagnostic, in order.
pub fn convert_diagnostics(ds: &Vec<AnnotatedDiagnostic>) -> (r: Vec<Diagnostic>)
    ensures
        diagnostic_views(r@) == ds@.map_values(|d: AnnotatedDiagnostic| annotated_view(d)),
{
    let mut result: Vec<Diagnostic> = Vec::new();
    let mut i: usize = 0;
    while i < ds.len()
        invariant
            i <= ds@.len(),
            result@.len() == i,
            forall|k: int| 0 <= k < i ==> (#[trigger] result@[k])@ == annotated_view(ds@[k]),
        decreases ds@.len() - i,
    {
        result.push(convert_diagnostic(&ds[i]));
        i = i + 1;
    }
    assert(diagnostic_views(result@) =~= ds@.map_values(|d: AnnotatedDiagnostic| annotated_view(d)));
    result
}

} // verus!
