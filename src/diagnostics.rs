//! Diagnostics reported by the compiler, their editor form, and the grouping of a
//! compilation's diagnostics into per-file publications.
use vstd::prelude::*;
use slicec::diagnostics::DiagnosticLevel;
use crate::position::{Position, Range, SourceSpan, SpanView, range_of, span_to_range};

verus! {

/// The severity of a diagnostic as the editor shows it.
#[derive(Clone, Copy, Debug, PartialEq, Eq, Structural)]
pub enum Severity {
    Error,
    Warning,
    Information,
}

/// Additional information attached to a diagnostic.
#[derive(Clone, Debug)]
pub struct Note {
    pub message: String,
    pub span: Option<SourceSpan>,
}

/// A diagnostic reported by the compiler.
#[derive(Debug)]
pub struct Diagnostic {
    pub level: DiagnosticLevel,
    pub span: Option<SourceSpan>,
    pub code: String,
    pub message: String,
    pub notes: Vec<Note>,
}

/// A location in another place of the sources that a diagnostic refers to.
#[derive(Clone, Debug)]
pub struct RelatedInformation {
    pub file: String,
    pub range: Range,
    pub message: String,
}

/// A diagnostic in the editor's form: zero-based range, severity, code and message.
#[derive(Clone, Debug)]
pub struct LspDiagnostic {
    pub range: Range,
    pub severity: Option<Severity>,
    pub code: String,
    pub message: String,
    pub related_information: Vec<RelatedInformation>,
}

/// The diagnostics published for one file; an empty list clears the file.
#[derive(Clone, Debug)]
pub struct FileDiagnostics {
    pub file: String,
    pub diagnostics: Vec<LspDiagnostic>,
}

/// What is published after a compilation: one entry per file, and the diagnostics
/// that have no span, which are shown to the user by other means.
#[derive(Debug)]
pub struct PublishOutput {
    pub files: Vec<FileDiagnostics>,
    pub spanless: Vec<Diagnostic>,
}

/// What a note denotes.
pub struct NoteView {
    pub message: Seq<char>,
    pub span: Option<SpanView>,
}

/// What a diagnostic denotes.
pub struct DiagnosticView {
    pub level: DiagnosticLevel,
    pub span: Option<SpanView>,
    pub code: Seq<char>,
    pub message: Seq<char>,
    pub notes: Seq<NoteView>,
}

/// What a related location denotes.
pub struct RelatedView {
    pub file: Seq<char>,
    pub range: Range,
    pub message: Seq<char>,
}

/// What an editor diagnostic denotes.
pub struct LspDiagnosticView {
    pub range: Range,
    pub severity: Option<Severity>,
    pub code: Seq<char>,
    pub message: Seq<char>,
    pub related_information: Seq<RelatedView>,
}

/// What a file's publication denotes.
pub struct FileDiagnosticsView {
    pub file: Seq<char>,
    pub diagnostics: Seq<LspDiagnosticView>,
}

/// The view of an optional span.
pub open spec fn opt_span_view(s: Option<SourceSpan>) -> Option<SpanView> {
    match s {
        Some(span) => Some(span@),
        None => None,
    }
}

impl View for Note {
    type V = NoteView;

    open spec fn view(&self) -> NoteView {
        NoteView { message: self.message@, span: opt_span_view(self.span) }
    }
}

impl View for Diagnostic {
    type V = DiagnosticView;

    open spec fn view(&self) -> DiagnosticView {
        DiagnosticView {
            level: self.level,
            span: opt_span_view(self.span),
            code: self.code@,
            message: self.message@,
            notes: self.notes@.map_values(|n: Note| n@),
        }
    }
}

impl View for RelatedInformation {
    type V = RelatedView;

    open spec fn view(&self) -> RelatedView {
        RelatedView { file: self.file@, range: self.range, message: self.message@ }
    }
}

impl View for LspDiagnostic {
    type V = LspDiagnosticView;

    open spec fn view(&self) -> LspDiagnosticView {
        LspDiagnosticView {
            range: self.range,
            severity: self.severity,
            code: self.code@,
            message: self.message@,
            related_information: self.related_information@.map_values(|r: RelatedInformation| r@),
        }
    }
}

impl View for FileDiagnostics {
    type V = FileDiagnosticsView;

    open spec fn view(&self) -> FileDiagnosticsView {
        FileDiagnosticsView {
            file: self.file@,
            diagnostics: self.diagnostics@.map_values(|d: LspDiagnostic| d@),
        }
    }
}

/// The views of a sequence of diagnostics.
pub open spec fn diagnostic_views(s: Seq<Diagnostic>) -> Seq<DiagnosticView> {
    s.map_values(|d: Diagnostic| d@)
}

/// The views of a sequence of editor diagnostics.
pub open spec fn lsp_views(s: Seq<LspDiagnostic>) -> Seq<LspDiagnosticView> {
    s.map_values(|d: LspDiagnostic| d@)
}

/// The views of a sequence of file publications.
pub open spec fn file_views(s: Seq<FileDiagnostics>) -> Seq<FileDiagnosticsView> {
    s.map_values(|f: FileDiagnostics| f@)
}

/// The views of a sequence of paths.
pub open spec fn path_views(s: Seq<String>) -> Seq<Seq<char>> {
    s.map_values(|p: String| p@)
}

/// The editor severity of a level: an allowed diagnostic has none.
pub open spec fn severity_of(level: DiagnosticLevel) -> Option<Severity> {
    match level {
        DiagnosticLevel::Error => Some(Severity::Error),
        DiagnosticLevel::Warning => Some(Severity::Warning),
        DiagnosticLevel::Allowed => None,
        DiagnosticLevel::Info => Some(Severity::Information),
    }
}

/// The related information of a diagnostic: one entry per note that has a span.
pub open spec fn related_of(notes: Seq<NoteView>) -> Seq<RelatedView>
    decreases notes.len(),
{
    if notes.len() == 0 {
        Seq::empty()
    } else {
        let prior = related_of(notes.drop_last());
        match notes.last().span {
            Some(s) => prior.push(RelatedView { file: s.file, range: range_of(s), message: notes.last().message }),
            None => prior,
        }
    }
}

/// The editor form of a diagnostic that has a span.
pub open spec fn lsp_of(d: DiagnosticView) -> LspDiagnosticView {
    LspDiagnosticView {
        range: match d.span {
            Some(s) => range_of(s),
            None => Range { start: Position { line: 0, character: 0 }, end: Position { line: 0, character: 0 } },
        },
        severity: severity_of(d.level),
        code: d.code,
        message: d.message,
        related_information: related_of(d.notes),
    }
}

/// Two diagnostics are the same report when their spans and messages are equal.
pub open spec fn same_report(a: DiagnosticView, b: DiagnosticView) -> bool {
    a.span == b.span && a.message == b.message
}

/// Some diagnostic of `s` is the same report as `d`.
pub open spec fn has_report(s: Seq<DiagnosticView>, d: DiagnosticView) -> bool {
    exists|j: int| 0 <= j < s.len() && same_report(#[trigger] s[j], d)
}

/// `s` with each report kept at its first occurrence only.
pub open spec fn deduplicated(s: Seq<DiagnosticView>) -> Seq<DiagnosticView>
    decreases s.len(),
{
    if s.len() == 0 {
        Seq::empty()
    } else {
        let prior = deduplicated(s.drop_last());
        if has_report(prior, s.last()) {
            prior
        } else {
            prior.push(s.last())
        }
    }
}

/// No two diagnostics of `s` are the same report.
pub open spec fn distinct_reports(s: Seq<DiagnosticView>) -> bool {
    forall|i: int, j: int| 0 <= i < j < s.len() ==> !same_report(#[trigger] s[i], #[trigger] s[j])
}

/// `keys` with `f` added at the end unless it is there already.
pub open spec fn add_key(keys: Seq<Seq<char>>, f: Seq<char>) -> Seq<Seq<char>> {
    if keys.contains(f) {
        keys
    } else {
        keys.push(f)
    }
}

/// The distinct paths of `paths`, in order of first occurrence.
pub open spec fn distinct_paths(paths: Seq<Seq<char>>) -> Seq<Seq<char>>
    decreases paths.len(),
{
    if paths.len() == 0 {
        Seq::empty()
    } else {
        add_key(distinct_paths(paths.drop_last()), paths.last())
    }
}

/// The file that a diagnostic is attributed to.
pub open spec fn file_of(d: DiagnosticView) -> Seq<char> {
    match d.span {
        Some(s) => s.file,
        None => Seq::empty(),
    }
}

/// The files that receive a publication: the known files, then the file of each
/// diagnostic that has a span, each once, in order of first occurrence.
pub open spec fn publish_keys(known: Seq<Seq<char>>, d: Seq<DiagnosticView>) -> Seq<Seq<char>>
    decreases d.len(),
{
    if d.len() == 0 {
        distinct_paths(known)
    } else {
        let prior = publish_keys(known, d.drop_last());
        if d.last().span is Some {
            add_key(prior, file_of(d.last()))
        } else {
            prior
        }
    }
}

/// The editor form of the diagnostics of `d` attributed to file `f`, in order.
pub open spec fn diagnostics_for(d: Seq<DiagnosticView>, f: Seq<char>) -> Seq<LspDiagnosticView>
    decreases d.len(),
{
    if d.len() == 0 {
        Seq::empty()
    } else {
        let prior = diagnostics_for(d.drop_last(), f);
        if d.last().span is Some && file_of(d.last()) == f {
            prior.push(lsp_of(d.last()))
        } else {
            prior
        }
    }
}

/// The diagnostics of `d` that have no span, in order.
pub open spec fn spanless_of(d: Seq<DiagnosticView>) -> Seq<DiagnosticView>
    decreases d.len(),
{
    if d.len() == 0 {
        Seq::empty()
    } else {
        let prior = spanless_of(d.drop_last());
        if d.last().span is None {
            prior.push(d.last())
        } else {
            prior
        }
    }
}

/// The per-file publication of a compilation's diagnostics `ds` over the known files.
pub open spec fn publication(known: Seq<Seq<char>>, ds: Seq<DiagnosticView>) -> Seq<FileDiagnosticsView> {
    let d = deduplicated(ds);
    publish_keys(known, d).map_values(|f: Seq<char>| FileDiagnosticsView { file: f, diagnostics: diagnostics_for(d, f) })
}

/// The files of `previous` (each once) that are not among `current`.
pub open spec fn removed_paths(previous: Seq<Seq<char>>, current: Seq<Seq<char>>) -> Seq<Seq<char>> {
    paths_not_in(distinct_paths(previous), current)
}

/// The paths of `ps` that are not among `current`, in order.
pub open spec fn paths_not_in(ps: Seq<Seq<char>>, current: Seq<Seq<char>>) -> Seq<Seq<char>>
    decreases ps.len(),
{
    if ps.len() == 0 {
        Seq::empty()
    } else {
        let prior = paths_not_in(ps.drop_last(), current);
        if current.contains(ps.last()) {
            prior
        } else {
            prior.push(ps.last())
        }
    }
}

/// An empty publication, which clears the file's diagnostics.
pub open spec fn cleared(f: Seq<char>) -> FileDiagnosticsView {
    FileDiagnosticsView { file: f, diagnostics: Seq::empty() }
}


impl Note {
    /// A copy of this note.
    pub fn duplicate(&self) -> (r: Note)
        ensures
            r@ == self@,
    {
        let span = match &self.span {
            Some(s) => Some(s.duplicate()),
            None => None,
        };
        Note { message: self.message.clone(), span }
    }
}

impl Diagnostic {
    /// A copy of this diagnostic.
    pub fn duplicate(&self) -> (r: Diagnostic)
        ensures
            r@ == self@,
    {
        let span = match &self.span {
            Some(s) => Some(s.duplicate()),
            None => None,
        };
        let mut notes: Vec<Note> = Vec::new();
        let mut i: usize = 0;
        while i < self.notes.len()
            invariant
                i <= self.notes@.len(),
                notes@.len() == i,
                forall|k: int| 0 <= k < i ==> #[trigger] notes@[k]@ == self.notes@[k]@,
            decreases self.notes@.len() - i,
        {
            notes.push(self.notes[i].duplicate());
            i = i + 1;
        }
        assert(notes@.map_values(|n: Note| n@) =~= self.notes@.map_values(|n: Note| n@));
        Diagnostic { level: self.level, span, code: self.code.clone(), message: self.message.clone(), notes }
    }
}

fn severity_for(level: DiagnosticLevel) -> (r: Option<Severity>)
    ensures
        r == severity_of(level),
{
    match level {
        DiagnosticLevel::Error => Some(Severity::Error),
        DiagnosticLevel::Warning => Some(Severity::Warning),
        DiagnosticLevel::Allowed => None,
        DiagnosticLevel::Info => Some(Severity::Information),
    }
}

/// The related information of a note: present exactly when the note has a span.
pub fn try_into_lsp_diagnostic_related_information(note: &Note) -> (r: Option<RelatedInformation>)
    ensures
        match note@.span {
            Some(s) => r is Some && r->0@ == (RelatedView {
                file: s.file,
                range: range_of(s),
                message: note@.message,
            }),
            None => r is None,
        },
{
    match &note.span {
        Some(s) => Some(RelatedInformation { file: s.file.clone(), range: span_to_range(s), message: note.message.clone() }),
        None => None,
    }
}

/// The editor form of a diagnostic; `None` when the diagnostic has no span, since
/// it cannot then be attributed to a file.
pub fn try_into_lsp_diagnostic(diagnostic: &Diagnostic) -> (r: Option<LspDiagnostic>)
    ensures
        diagnostic@.span is Some ==> r is Some && r->0@ == lsp_of(diagnostic@),
        diagnostic@.span is None ==> r is None,
{
    let range = match &diagnostic.span {
        Some(s) => span_to_range(s),
        None => {
            return None;
        },
    };
    let ghost notes = diagnostic@.notes;
    let mut related: Vec<RelatedInformation> = Vec::new();
    let mut i: usize = 0;
    while i < diagnostic.notes.len()
        invariant
            i <= diagnostic.notes@.len(),
            notes == diagnostic.notes@.map_values(|n: Note| n@),
            related@.map_values(|x: RelatedInformation| x@) == related_of(notes.take(i as int)),
        decreases diagnostic.notes@.len() - i,
    {
        let info = try_into_lsp_diagnostic_related_information(&diagnostic.notes[i]);
        assert(notes.take(i + 1).drop_last() =~= notes.take(i as int));
        match info {
            Some(x) => {
                related.push(x);
            },
            None => {},
        }
        i = i + 1;
        assert(related@.map_values(|x: RelatedInformation| x@) =~= related_of(notes.take(i as int)));
    }
    assert(notes.take(notes.len() as int) =~= notes);
    Some(LspDiagnostic {
        range,
        severity: severity_for(diagnostic.level),
        code: diagnostic.code.clone(),
        message: diagnostic.message.clone(),
        related_information: related,
    })
}

fn same_span(a: &Option<SourceSpan>, b: &Option<SourceSpan>) -> (r: bool)
    ensures
        r == (opt_span_view(*a) == opt_span_view(*b)),
{
    match (a, b) {
        (Some(x), Some(y)) => x.start == y.start && x.end == y.end && x.file == y.file,
        (None, None) => true,
        _ => false,
    }
}

/// Whether two diagnostics are the same report: equal spans and equal messages.
pub fn is_same_report(a: &Diagnostic, b: &Diagnostic) -> (r: bool)
    ensures
        r == same_report(a@, b@),
{
    same_span(&a.span, &b.span) && a.message == b.message
}

fn contains_report(s: &Vec<Diagnostic>, d: &Diagnostic) -> (r: bool)
    ensures
        r == has_report(diagnostic_views(s@), d@),
{
    let mut i: usize = 0;
    while i < s.len()
        invariant
            i <= s@.len(),
            forall|k: int| 0 <= k < i ==> !same_report(#[trigger] diagnostic_views(s@)[k], d@),
        decreases s@.len() - i,
    {
        if is_same_report(&s[i], d) {
            assert(same_report(diagnostic_views(s@)[i as int], d@));
            return true;
        }
        i = i + 1;
    }
    false
}

/// The diagnostics with each report (span and message) kept at its first occurrence.
pub fn deduplicate_diagnostics(diagnostics: &Vec<Diagnostic>) -> (r: Vec<Diagnostic>)
    ensures
        diagnostic_views(r@) == deduplicated(diagnostic_views(diagnostics@)),
{
    let ghost ds = diagnostic_views(diagnostics@);
    let mut result: Vec<Diagnostic> = Vec::new();
    let mut i: usize = 0;
    while i < diagnostics.len()
        invariant
            i <= diagnostics@.len(),
            ds == diagnostic_views(diagnostics@),
            diagnostic_views(result@) == deduplicated(ds.take(i as int)),
        decreases diagnostics@.len() - i,
    {
        assert(ds.take(i + 1).drop_last() =~= ds.take(i as int));
        if !contains_report(&result, &diagnostics[i]) {
            result.push(diagnostics[i].duplicate());
            assert(diagnostic_views(result@) =~= deduplicated(ds.take(i + 1)));
        }
        i = i + 1;
    }
    assert(ds.take(ds.len() as int) =~= ds);
    result
}

/// Whether `f` is one of `paths`.
pub fn contains_path(paths: &Vec<String>, f: &String) -> (r: bool)
    ensures
        r == path_views(paths@).contains(f@),
{
    let mut i: usize = 0;
    while i < paths.len()
        invariant
            i <= paths@.len(),
            forall|k: int| 0 <= k < i ==> #[trigger] paths@[k]@ != f@,
        decreases paths@.len() - i,
    {
        if paths[i] == *f {
            assert(path_views(paths@)[i as int] == f@);
            return true;
        }
        i = i + 1;
    }
    assert(!path_views(paths@).contains(f@)) by {
        if path_views(paths@).contains(f@) {
            let k = choose|k: int| 0 <= k < path_views(paths@).len() && path_views(paths@)[k] == f@;
            assert(paths@[k]@ == f@);
        }
    }
    false
}

/// The distinct paths of `paths`, in order of first occurrence.
pub fn distinct_files(paths: &Vec<String>) -> (r: Vec<String>)
    ensures
        path_views(r@) == distinct_paths(path_views(paths@)),
{
    let ghost ps = path_views(paths@);
    let mut result: Vec<String> = Vec::new();
    let mut i: usize = 0;
    while i < paths.len()
        invariant
            i <= paths@.len(),
            ps == path_views(paths@),
            path_views(result@) == distinct_paths(ps.take(i as int)),
        decreases paths@.len() - i,
    {
        assert(ps.take(i + 1).drop_last() =~= ps.take(i as int));
        if !contains_path(&result, &paths[i]) {
            result.push(paths[i].clone());
            assert(path_views(result@) =~= distinct_paths(ps.take(i + 1)));
        }
        i = i + 1;
    }
    assert(ps.take(ps.len() as int) =~= ps);
    result
}

fn diagnostics_of_file(diagnostics: &Vec<Diagnostic>, f: &String) -> (r: Vec<LspDiagnostic>)
    ensures
        lsp_views(r@) == diagnostics_for(diagnostic_views(diagnostics@), f@),
{
    let ghost ds = diagnostic_views(diagnostics@);
    let mut result: Vec<LspDiagnostic> = Vec::new();
    let mut i: usize = 0;
    while i < diagnostics.len()
        invariant
            i <= diagnostics@.len(),
            ds == diagnostic_views(diagnostics@),
            lsp_views(result@) == diagnostics_for(ds.take(i as int), f@),
        decreases diagnostics@.len() - i,
    {
        assert(ds.take(i + 1).drop_last() =~= ds.take(i as int));
        let d = &diagnostics[i];
        match &d.span {
            Some(s) => {
                if s.file == *f {
                    match try_into_lsp_diagnostic(d) {
                        Some(x) => {
                            result.push(x);
                        },
                        None => {},
                    }
                }
            },
            None => {},
        }
        i = i + 1;
        assert(lsp_views(result@) =~= diagnostics_for(ds.take(i as int), f@));
    }
    assert(ds.take(ds.len() as int) =~= ds);
    result
}

/// Groups diagnostics by file: one entry for each known file and for each file that a
/// diagnostic is attributed to, and apart from them the diagnostics without a span.
pub fn process_diagnostics(diagnostics: &Vec<Diagnostic>, known_files: &Vec<String>) -> (r: PublishOutput)
    ensures
        file_views(r.files@) == publish_keys(path_views(known_files@), diagnostic_views(diagnostics@)).map_values(
            |f: Seq<char>| FileDiagnosticsView {
                file: f,
                diagnostics: diagnostics_for(diagnostic_views(diagnostics@), f),
            },
        ),
        diagnostic_views(r.spanless@) == spanless_of(diagnostic_views(diagnostics@)),
{
    let ghost ds = diagnostic_views(diagnostics@);
    let ghost known = path_views(known_files@);
    let mut keys = distinct_files(known_files);
    let mut spanless: Vec<Diagnostic> = Vec::new();
    let mut i: usize = 0;
    while i < diagnostics.len()
        invariant
            i <= diagnostics@.len(),
            ds == diagnostic_views(diagnostics@),
            known == path_views(known_files@),
            path_views(keys@) == publish_keys(known, ds.take(i as int)),
            diagnostic_views(spanless@) == spanless_of(ds.take(i as int)),
        decreases diagnostics@.len() - i,
    {
        assert(ds.take(i + 1).drop_last() =~= ds.take(i as int));
        match &diagnostics[i].span {
            Some(s) => {
                if !contains_path(&keys, &s.file) {
                    keys.push(s.file.clone());
                }
            },
            None => {
                spanless.push(diagnostics[i].duplicate());
            },
        }
        i = i + 1;
        assert(path_views(keys@) =~= publish_keys(known, ds.take(i as int)));
        assert(diagnostic_views(spanless@) =~= spanless_of(ds.take(i as int)));
    }
    assert(ds.take(ds.len() as int) =~= ds);
    let mut files: Vec<FileDiagnostics> = Vec::new();
    let mut k: usize = 0;
    while k < keys.len()
        invariant
            k <= keys@.len(),
            ds == diagnostic_views(diagnostics@),
            files@.len() == k,
            forall|j: int| 0 <= j < k ==> #[trigger] files@[j]@ == (FileDiagnosticsView {
                file: keys@[j]@,
                diagnostics: diagnostics_for(ds, keys@[j]@),
            }),
        decreases keys@.len() - k,
    {
        let entry = FileDiagnostics { file: keys[k].clone(), diagnostics: diagnostics_of_file(diagnostics, &keys[k]) };
        files.push(entry);
        k = k + 1;
    }
    assert(file_views(files@) =~= path_views(keys@).map_values(
        |f: Seq<char>| FileDiagnosticsView { file: f, diagnostics: diagnostics_for(ds, f) },
    ));
    PublishOutput { files, spanless }
}

/// Deduplicates the diagnostics and groups them by file, as `publication` states;
/// every known file gets an entry, empty when it has no diagnostic.
pub fn publish_diagnostics(diagnostics: &Vec<Diagnostic>, known_files: &Vec<String>) -> (r: PublishOutput)
    ensures
        file_views(r.files@) == publication(path_views(known_files@), diagnostic_views(diagnostics@)),
        diagnostic_views(r.spanless@) == spanless_of(deduplicated(diagnostic_views(diagnostics@))),
{
    let unique = deduplicate_diagnostics(diagnostics);
    process_diagnostics(&unique, known_files)
}


/// What is published after the known files changed from `previous_files` to
/// `current_files`: first an empty list for each previous file that receives no
/// publication now, then the publication of the new diagnostics.
pub fn clear_then_publish(
    previous_files: &Vec<String>,
    diagnostics: &Vec<Diagnostic>,
    current_files: &Vec<String>,
) -> (r: PublishOutput)
    ensures
        file_views(r.files@) == removed_paths(
            path_views(previous_files@),
            publish_keys(path_views(current_files@), deduplicated(diagnostic_views(diagnostics@))),
        ).map_values(|f: Seq<char>| cleared(f)) + publication(
            path_views(current_files@),
            diagnostic_views(diagnostics@),
        ),
        diagnostic_views(r.spanless@) == spanless_of(deduplicated(diagnostic_views(diagnostics@))),
{
    let fresh = publish_diagnostics(diagnostics, current_files);
    let ghost fresh_keys = publish_keys(path_views(current_files@), deduplicated(diagnostic_views(diagnostics@)));
    let mut fresh_names: Vec<String> = Vec::new();
    let mut k: usize = 0;
    while k < fresh.files.len()
        invariant
            k <= fresh.files@.len(),
            file_views(fresh.files@) == publication(path_views(current_files@), diagnostic_views(diagnostics@)),
            fresh_names@.len() == k,
            forall|j: int| 0 <= j < k ==> #[trigger] fresh_names@[j]@ == fresh.files@[j].file@,
        decreases fresh.files@.len() - k,
    {
        fresh_names.push(fresh.files[k].file.clone());
        k = k + 1;
    }
    assert(path_views(fresh_names@) =~= fresh_keys) by {
        let ghost pubs = publication(path_views(current_files@), diagnostic_views(diagnostics@));
        assert(pubs.len() == fresh_keys.len());
        assert forall|j: int| 0 <= j < fresh_names@.len() implies path_views(fresh_names@)[j] == fresh_keys[j] by {
            assert(file_views(fresh.files@)[j] == fresh.files@[j]@);
            assert(pubs[j].file == fresh_keys[j]);
        }
    }
    let previous = distinct_files(previous_files);
    let ghost prev = path_views(previous@);
    let mut files: Vec<FileDiagnostics> = Vec::new();
    let mut i: usize = 0;
    while i < previous.len()
        invariant
            i <= previous@.len(),
            prev == path_views(previous@),
            path_views(fresh_names@) == fresh_keys,
            file_views(files@) == paths_not_in(prev.take(i as int), fresh_keys).map_values(|f: Seq<char>| cleared(f)),
        decreases previous@.len() - i,
    {
        assert(prev.take(i + 1).drop_last() =~= prev.take(i as int));
        assert(prev.take(i + 1).last() == previous@[i as int]@);
        let ghost old_views = file_views(files@);
        let ghost step = paths_not_in(prev.take(i + 1), fresh_keys);
        if !contains_path(&fresh_names, &previous[i]) {
            let empty: Vec<LspDiagnostic> = Vec::new();
            let entry = FileDiagnostics { file: previous[i].clone(), diagnostics: empty };
            assert(entry@ == cleared(previous@[i as int]@)) by {
                assert(entry.diagnostics@.map_values(|d: LspDiagnostic| d@) =~= Seq::empty());
            }
            files.push(entry);
            assert(file_views(files@) =~= old_views.push(cleared(previous@[i as int]@)));
            assert(step == paths_not_in(prev.take(i as int), fresh_keys).push(previous@[i as int]@));
        } else {
            assert(step == paths_not_in(prev.take(i as int), fresh_keys));
        }
        i = i + 1;
        assert(file_views(files@) =~= paths_not_in(prev.take(i as int), fresh_keys).map_values(|f: Seq<char>| cleared(f)));
    }
    assert(prev.take(prev.len() as int) =~= prev);
    let mut out = files;
    let mut rest = fresh.files;
    let ghost before = file_views(out@);
    let ghost tail = file_views(rest@);
    out.append(&mut rest);
    assert(file_views(out@) =~= before + tail);
    PublishOutput { files: out, spanless: fresh.spanless }
}

/// A deduplicated list holds no two diagnostics with equal span and message.
pub proof fn lemma_deduplicated_distinct(s: Seq<DiagnosticView>)
    ensures
        distinct_reports(deduplicated(s)),
    decreases s.len(),
{
    if s.len() > 0 {
        lemma_deduplicated_distinct(s.drop_last());
    }
}

/// Deduplicating leaves a list whose reports are distinct as it is.
pub proof fn lemma_distinct_unchanged(s: Seq<DiagnosticView>)
    requires
        distinct_reports(s),
    ensures
        deduplicated(s) == s,
    decreases s.len(),
{
    if s.len() > 0 {
        let p = s.drop_last();
        assert(distinct_reports(p)) by {
            assert forall|i: int, j: int| 0 <= i < j < p.len() implies !same_report(#[trigger] p[i], #[trigger] p[j]) by {
                assert(p[i] == s[i] && p[j] == s[j]);
            }
        }
        lemma_distinct_unchanged(p);
        assert(!has_report(p, s.last())) by {
            if has_report(p, s.last()) {
                let j = choose|j: int| 0 <= j < p.len() && same_report(p[j], s.last());
                assert(p[j] == s[j]);
                assert(!same_report(s[j], s[s.len() - 1]));
            }
        }
        assert(p.push(s.last()) =~= s);
    }
}

/// Deduplication is idempotent, so publishing a deduplicated list, or the same list a
/// second time, gives the same per-file grouping.
pub proof fn lemma_publication_idempotent(known: Seq<Seq<char>>, ds: Seq<DiagnosticView>)
    ensures
        deduplicated(deduplicated(ds)) == deduplicated(ds),
        publication(known, deduplicated(ds)) == publication(known, ds),
{
    lemma_deduplicated_distinct(ds);
    lemma_distinct_unchanged(deduplicated(ds));
}


/// `distinct_paths` keeps exactly the paths of its input, each once.
pub proof fn lemma_distinct_paths(paths: Seq<Seq<char>>)
    ensures
        forall|f: Seq<char>| distinct_paths(paths).contains(f) <==> paths.contains(f),
        distinct_paths(paths).no_duplicates(),
    decreases paths.len(),
{
    if paths.len() > 0 {
        let p = paths.drop_last();
        lemma_distinct_paths(p);
        assert forall|f: Seq<char>| distinct_paths(paths).contains(f) <==> paths.contains(f) by {
            if paths.contains(f) && f != paths.last() {
                let k = choose|k: int| 0 <= k < paths.len() && paths[k] == f;
                assert(p[k] == f);
            }
            if p.contains(f) {
                let k = choose|k: int| 0 <= k < p.len() && p[k] == f;
                assert(paths[k] == f);
            }
            if distinct_paths(paths).contains(f) && !distinct_paths(p).contains(f) {
                assert(f == paths.last());
                assert(paths[paths.len() - 1] == f);
            }
            if !distinct_paths(p).contains(paths.last()) {
                assert(distinct_paths(paths).last() == paths.last());
            }
            if distinct_paths(p).contains(f) {
                let k = choose|k: int| 0 <= k < distinct_paths(p).len() && distinct_paths(p)[k] == f;
                assert(distinct_paths(paths)[k] == f);
            }
        }
    }
}

/// `paths_not_in` keeps exactly the paths of `ps` that are not among `current`, and
/// adds no duplicate.
pub proof fn lemma_paths_not_in(ps: Seq<Seq<char>>, current: Seq<Seq<char>>)
    ensures
        forall|f: Seq<char>| paths_not_in(ps, current).contains(f) <==> (ps.contains(f) && !current.contains(f)),
        ps.no_duplicates() ==> paths_not_in(ps, current).no_duplicates(),
    decreases ps.len(),
{
    if ps.len() > 0 {
        let p = ps.drop_last();
        lemma_paths_not_in(p, current);
        let r = paths_not_in(ps, current);
        let q = paths_not_in(p, current);
        assert forall|f: Seq<char>| r.contains(f) <==> (ps.contains(f) && !current.contains(f)) by {
            if ps.contains(f) && f != ps.last() {
                let k = choose|k: int| 0 <= k < ps.len() && ps[k] == f;
                assert(p[k] == f);
            }
            if p.contains(f) {
                let k = choose|k: int| 0 <= k < p.len() && p[k] == f;
                assert(ps[k] == f);
            }
            if q.contains(f) {
                let k = choose|k: int| 0 <= k < q.len() && q[k] == f;
                assert(r[k] == f);
            }
            if !current.contains(ps.last()) {
                assert(r.last() == ps.last());
                assert(r[r.len() - 1] == ps.last());
            }
            if r.contains(f) && !q.contains(f) {
                let k = choose|k: int| 0 <= k < r.len() && r[k] == f;
                if k < q.len() {
                    assert(q[k] == f);
                }
                assert(ps[ps.len() - 1] == f);
            }
        }
        if ps.no_duplicates() {
            assert(p.no_duplicates()) by {
                assert forall|i: int, j: int| 0 <= i < p.len() && 0 <= j < p.len() && i != j implies p[i] != p[j] by {
                    assert(p[i] == ps[i] && p[j] == ps[j]);
                }
            }
            if !current.contains(ps.last()) {
                assert(!p.contains(ps.last())) by {
                    if p.contains(ps.last()) {
                        let k = choose|k: int| 0 <= k < p.len() && p[k] == ps.last();
                        assert(ps[k] == ps[ps.len() - 1]);
                    }
                }
                assert(!q.contains(ps.last()));
                assert forall|i: int, j: int| 0 <= i < r.len() && 0 <= j < r.len() && i != j implies r[i] != r[j] by {
                    if i < q.len() && j < q.len() {
                        assert(r[i] == q[i] && r[j] == q[j]);
                    } else if i < q.len() {
                        assert(r[i] == q[i]);
                        assert(q.contains(r[i]));
                    } else if j < q.len() {
                        assert(r[j] == q[j]);
                        assert(q.contains(r[j]));
                    }
                }
            }
        }
    }
}

/// After a change of the known files, each previous file that receives no new
/// publication is cleared exactly once, and only such files are cleared.
pub proof fn lemma_removed_files_cleared(previous: Seq<Seq<char>>, current: Seq<Seq<char>>)
    ensures
        forall|f: Seq<char>| removed_paths(previous, current).contains(f) <==> (previous.contains(f) && !current.contains(f)),
        removed_paths(previous, current).no_duplicates(),
{
    lemma_distinct_paths(previous);
    lemma_paths_not_in(distinct_paths(previous), current);
}


/// A copy of each diagnostic, in order.
pub fn duplicate_all(ds: &Vec<Diagnostic>) -> (r: Vec<Diagnostic>)
    ensures
        diagnostic_views(r@) == diagnostic_views(ds@),
{
    let mut result: Vec<Diagnostic> = Vec::new();
    let mut i: usize = 0;
    while i < ds.len()
        invariant
            i <= ds@.len(),
            result@.len() == i,
            forall|k: int| 0 <= k < i ==> (#[trigger] result@[k])@ == ds@[k]@,
        decreases ds@.len() - i,
    {
        result.push(ds[i].duplicate());
        i = i + 1;
    }
    assert(diagnostic_views(result@) =~= diagnostic_views(ds@));
    result
}

} // verus!
