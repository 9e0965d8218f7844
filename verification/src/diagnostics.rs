//! The diagnostic and source model: locations, spans, error kinds, compiler
//! errors with notes and help, an append-only collector, and rendering of a
//! diagnostic against the source text it points into.

use vstd::prelude::*;
use vstd::string::StrSliceExecFns;
use vstd::string::StringExecFns;

use crate::strutil::nth_line;
use crate::strutil::push_repeat;
use crate::strutil::spec_decimal;
use crate::strutil::spec_nth_line;
use crate::strutil::spec_padded_decimal;
use crate::strutil::spec_repeat;
use crate::strutil::str_copy;
use crate::strutil::usize_to_padded_string;
use crate::strutil::usize_to_string;
use crate::table::assoc_get;
use crate::table::assoc_put;
use crate::table::spec_assoc;

verus! {

/// A place in source code: a file path with 1-based line and column.
#[derive(Clone, Debug)]
pub struct SourceLocation {
    pub file: String,
    pub line: usize,
    pub column: usize,
}

/// A source region from `start` up to (exclusive) `end`.
#[derive(Clone, Debug)]
pub struct Span {
    pub start: SourceLocation,
    pub end: SourceLocation,
}

/// Whether two locations name the same place.
pub open spec fn spec_loc_eq(a: SourceLocation, b: SourceLocation) -> bool {
    a.file@ == b.file@ && a.line == b.line && a.column == b.column
}

/// Whether two spans cover the same region.
pub open spec fn spec_span_eq(a: Span, b: Span) -> bool {
    spec_loc_eq(a.start, b.start) && spec_loc_eq(a.end, b.end)
}

impl SourceLocation {
    /// A fresh location naming the same place.
    pub fn duplicate(&self) -> (r: SourceLocation)
        ensures
            spec_loc_eq(r, *self),
    {
        SourceLocation { file: str_copy(self.file.as_str()), line: self.line, column: self.column }
    }
}

impl Span {
    /// A fresh span covering the same region.
    pub fn duplicate(&self) -> (r: Span)
        ensures
            spec_span_eq(r, *self),
    {
        Span { start: self.start.duplicate(), end: self.end.duplicate() }
    }
}

/// The taxonomy of diagnostics the compiler can report.
#[derive(Clone, Copy, Debug, PartialEq, Eq, Structural)]
pub enum ErrorKind {
    Syntax,
    Type,
    Name,
    Reference,
    Ownership,
    Safety,
    IO,
    Internal,
}

/// The heading under which a kind of diagnostic is rendered.
pub open spec fn spec_kind_label(kind: ErrorKind) -> Seq<char> {
    match kind {
        ErrorKind::Syntax => "Syntax error"@,
        ErrorKind::Type => "Type error"@,
        ErrorKind::Name => "Name error"@,
        ErrorKind::Reference => "Reference error"@,
        ErrorKind::Ownership => "Ownership error"@,
        ErrorKind::Safety => "Safety error"@,
        ErrorKind::IO => "I/O error"@,
        ErrorKind::Internal => "Internal compiler error"@,
    }
}

impl ErrorKind {
    /// Renders the kind as its diagnostic heading.
    pub fn label(&self) -> (r: String)
        ensures
            r@ == spec_kind_label(*self),
    {
        match self {
            ErrorKind::Syntax => str_copy("Syntax error"),
            ErrorKind::Type => str_copy("Type error"),
            ErrorKind::Name => str_copy("Name error"),
            ErrorKind::Reference => str_copy("Reference error"),
            ErrorKind::Ownership => str_copy("Ownership error"),
            ErrorKind::Safety => str_copy("Safety error"),
            ErrorKind::IO => str_copy("I/O error"),
            ErrorKind::Internal => str_copy("Internal compiler error"),
        }
    }
}

/// One diagnostic: a kind, a message, an optional source span, ordered notes,
/// and an optional help text.
#[derive(Clone, Debug)]
pub struct CompileError {
    pub kind: ErrorKind,
    pub message: String,
    pub span: Option<Span>,
    pub notes: Vec<String>,
    pub help: Option<String>,
}

impl CompileError {
    /// A fresh diagnostic with no span, no notes and no help.
    pub fn new(kind: ErrorKind, message: &str) -> (r: CompileError)
        ensures
            r.kind == kind,
            r.message@ == message@,
            r.span is None,
            r.notes@.len() == 0,
            r.help is None,
    {
        CompileError {
            kind,
            message: str_copy(message),
            span: None,
            notes: Vec::new(),
            help: None,
        }
    }

    /// The same diagnostic, now pointing at `span`.
    pub fn with_span(self, span: Span) -> (r: CompileError)
        ensures
            r.kind == self.kind,
            r.message == self.message,
            r.span == Some(span),
            r.notes == self.notes,
            r.help == self.help,
    {
        CompileError { span: Some(span), ..self }
    }

    /// The same diagnostic with one more note appended.
    pub fn with_note(self, note: &str) -> (r: CompileError)
        ensures
            r.kind == self.kind,
            r.message == self.message,
            r.span == self.span,
            r.notes@.len() == self.notes@.len() + 1,
            r.notes@ == self.notes@.push(r.notes@.last()),
            r.notes@.last()@ == note@,
            r.help == self.help,
    {
        let mut notes = self.notes;
        notes.push(str_copy(note));
        CompileError { notes, ..self }
    }

    /// The same diagnostic with its help text set.
    pub fn with_help(self, help: &str) -> (r: CompileError)
        ensures
            r.kind == self.kind,
            r.message == self.message,
            r.span == self.span,
            r.notes == self.notes,
            r.help matches Some(h) && h@ == help@,
    {
        CompileError { help: Some(str_copy(help)), ..self }
    }
}

/// Maps file paths to their source text; lookup is by exact path equality.
#[derive(Clone, Debug)]
pub struct SourceMap {
    sources: Vec<(String, String)>,
}

impl SourceMap {
    /// The registered entries, in order of first registration.
    pub closed spec fn entries(&self) -> Seq<(String, String)> {
        self.sources@
    }

    /// An empty source map.
    pub fn new() -> (r: SourceMap)
        ensures
            r.entries().len() == 0,
    {
        SourceMap { sources: Vec::new() }
    }

    /// Registers `source` under `path`; a later registration of the same path
    /// replaces the earlier text.
    pub fn add_source(&mut self, path: String, source: String)
        ensures
            spec_assoc(final(self).entries(), path@) == Some(source),
            forall|other: Seq<char>|
                other != path@ ==> spec_assoc(final(self).entries(), other) == spec_assoc(
                    old(self).entries(),
                    other,
                ),
    {
        assoc_put(&mut self.sources, path, source);
    }

    /// The source registered for `path`, if any; exact path equality, no
    /// normalization.
    pub fn get_source(&self, path: &str) -> (r: Option<&str>)
        ensures
            match r {
                Some(text) => spec_assoc(self.entries(), path@) matches Some(s) && s@ == text@,
                None => spec_assoc(self.entries(), path@) is None,
            },
    {
        match assoc_get(&self.sources, path) {
            Some(text) => Some(text.as_str()),
            None => None,
        }
    }
}

/// Append-only collection of error and warning diagnostics for one run.
#[derive(Debug)]
pub struct Diagnostics {
    errors: Vec<CompileError>,
    warnings: Vec<CompileError>,
}

impl Diagnostics {
    /// The errors reported so far, in order of arrival.
    pub closed spec fn spec_errors(&self) -> Seq<CompileError> {
        self.errors@
    }

    /// The warnings reported so far, in order of arrival.
    pub closed spec fn spec_warnings(&self) -> Seq<CompileError> {
        self.warnings@
    }

    /// An empty collection.
    pub fn new() -> (r: Diagnostics)
        ensures
            r.spec_errors().len() == 0,
            r.spec_warnings().len() == 0,
    {
        Diagnostics { errors: Vec::new(), warnings: Vec::new() }
    }

    /// Appends an error; nothing already collected changes.
    pub fn add_error(&mut self, error: CompileError)
        ensures
            final(self).spec_errors() == old(self).spec_errors().push(error),
            final(self).spec_warnings() == old(self).spec_warnings(),
    {
        self.errors.push(error);
    }

    /// Appends a warning; nothing already collected changes.
    pub fn add_warning(&mut self, warning: CompileError)
        ensures
            final(self).spec_errors() == old(self).spec_errors(),
            final(self).spec_warnings() == old(self).spec_warnings().push(warning),
    {
        self.warnings.push(warning);
    }

    /// Whether at least one error has been reported.
    pub fn has_errors(&self) -> (r: bool)
        ensures
            r == (self.spec_errors().len() > 0),
    {
        self.errors.len() > 0
    }

    /// How many errors have been reported.
    pub fn error_count(&self) -> (r: usize)
        ensures
            r == self.spec_errors().len(),
    {
        self.errors.len()
    }

    /// How many warnings have been reported.
    pub fn warning_count(&self) -> (r: usize)
        ensures
            r == self.spec_warnings().len(),
    {
        self.warnings.len()
    }

    /// Read access to the collected errors.
    pub fn errors(&self) -> (r: &Vec<CompileError>)
        ensures
            r@ == self.spec_errors(),
    {
        &self.errors
    }

    /// Read access to the collected warnings.
    pub fn warnings(&self) -> (r: &Vec<CompileError>)
        ensures
            r@ == self.spec_warnings(),
    {
        &self.warnings
    }
}


/// The caret count under a span: the spanned width on a single-line span,
/// never less than one; to the end of the line when the span crosses lines.
pub open spec fn spec_caret_count(span: Span, line: Seq<char>) -> nat {
    if span.end.line == span.start.line {
        if span.end.column - span.start.column >= 1 {
            (span.end.column - span.start.column) as nat
        } else {
            1
        }
    } else {
        (line.len() - (span.start.column - 1)) as nat
    }
}

/// The span pointer and source snippet rendered under a diagnostic's heading.
pub open spec fn spec_span_block(span: Span, source: Seq<char>) -> Seq<char> {
    let arrow = "  --> "@ + span.start.file@ + ":"@ + spec_decimal(span.start.line as nat) + ":"@
        + spec_decimal(span.start.column as nat) + "\n"@;
    match spec_nth_line(source, (span.start.line - 1) as nat) {
        None => arrow,
        Some(line) => arrow + "   |\n"@ + spec_padded_decimal(span.start.line as nat, 4) + " | "@
            + line + "\n"@ + "   | "@ + spec_repeat(' ', (span.start.column - 1) as nat)
            + spec_repeat('^', spec_caret_count(span, line)) + "\n"@,
    }
}

/// The notes of a diagnostic, one `note:` line each.
pub open spec fn spec_notes_block(notes: Seq<String>) -> Seq<char>
    decreases notes.len(),
{
    if notes.len() == 0 {
        Seq::empty()
    } else {
        spec_notes_block(notes.drop_last()) + "note: "@ + notes.last()@ + "\n"@
    }
}

/// The full rendering of a diagnostic against its source text.
pub open spec fn spec_format_with_source(e: CompileError, source: Seq<char>) -> Seq<char> {
    let header = spec_kind_label(e.kind) + ": "@ + e.message@ + "\n"@;
    let body = match e.span {
        None => header,
        Some(span) => header + spec_span_block(span, source),
    };
    let with_notes = body + spec_notes_block(e.notes@);
    match e.help {
        None => with_notes,
        Some(h) => with_notes + "help: "@ + h@ + "\n"@,
    }
}

/// Whether a span can be rendered against this source without leaving its
/// line: 1-based line and column, an end no earlier than the start on a
/// single-line span, and a start column inside (or one past) the line when
/// the span crosses lines.
pub open spec fn spec_span_renderable(span: Span, source: Seq<char>) -> bool {
    &&& span.start.line >= 1
    &&& span.start.column >= 1
    &&& (span.end.line == span.start.line ==> span.end.column >= span.start.column)
    &&& (match spec_nth_line(source, (span.start.line - 1) as nat) {
        Some(line) => span.end.line != span.start.line ==> span.start.column <= line.len() + 1,
        None => true,
    })
}

impl CompileError {
    /// Renders this diagnostic against the source text its span points into:
    /// the heading and message, the span pointer with a snippet and caret
    /// line when the spanned line exists, then the notes and the help text.
    #[verifier::rlimit(60)]
    pub fn format_with_source(&self, source_code: &str) -> (r: String)
        requires
            self.span matches Some(span) ==> spec_span_renderable(span, source_code@),
        ensures
            r@ == spec_format_with_source(*self, source_code@),
    {
        let mut result = self.kind.label();
        result.append(": ");
        result.append(self.message.as_str());
        result.append("\n");
        match &self.span {
            Some(span) => {
                push_span_block(&mut result, span, source_code);
            },
            None => {},
        }
        let ghost before_notes = result@;
        let mut i: usize = 0;
        while i < self.notes.len()
            invariant
                i <= self.notes@.len(),
                result@ == before_notes + spec_notes_block(self.notes@.subrange(0, i as int)),
            decreases self.notes@.len() - i,
        {
            let ghost prefix = self.notes@.subrange(0, i as int);
            result.append("note: ");
            result.append(self.notes[i].as_str());
            result.append("\n");
            proof {
                let next = self.notes@.subrange(0, i + 1);
                assert(next.drop_last() =~= prefix);
                assert(result@ =~= before_notes + spec_notes_block(next));
            }
            i = i + 1;
        }
        proof {
            assert(self.notes@.subrange(0, self.notes@.len() as int) =~= self.notes@);
        }
        match &self.help {
            Some(help) => {
                result.append("help: ");
                result.append(help.as_str());
                result.append("\n");
            },
            None => {},
        }
        result
    }

    /// The one-line summary of a diagnostic: the heading and message, with
    /// the span's start location when there is one.
    pub fn summary(&self) -> (r: String)
        ensures
            r@ == spec_summary(*self),
    {
        let mut out = self.kind.label();
        out.append(": ");
        out.append(self.message.as_str());
        match &self.span {
            Some(span) => {
                out.append(" at ");
                out.append(span.start.file.as_str());
                out.append(":");
                out.append(usize_to_string(span.start.line).as_str());
                out.append(":");
                out.append(usize_to_string(span.start.column).as_str());
            },
            None => {},
        }
        out
    }
}


/// Appends the span pointer and, when the spanned line exists, the source
/// snippet with its caret line.
#[verifier::rlimit(100)]
fn push_span_block(out: &mut String, span: &Span, source_code: &str)
    requires
        spec_span_renderable(*span, source_code@),
    ensures
        final(out)@ == old(out)@ + spec_span_block(*span, source_code@),
{
    out.append("  --> ");
    out.append(span.start.file.as_str());
    out.append(":");
    out.append(usize_to_string(span.start.line).as_str());
    out.append(":");
    out.append(usize_to_string(span.start.column).as_str());
    out.append("\n");
    match nth_line(source_code, span.start.line - 1) {
        Some(line) => {
            out.append("   |\n");
            out.append(usize_to_padded_string(span.start.line, 4).as_str());
            out.append(" | ");
            out.append(line.as_str());
            out.append("\n");
            out.append("   | ");
            push_repeat(out, ' ', span.start.column - 1);
            let carets: usize = if span.end.line == span.start.line {
                if span.end.column - span.start.column >= 1 {
                    span.end.column - span.start.column
                } else {
                    1
                }
            } else {
                line.unicode_len() - (span.start.column - 1)
            };
            assert(carets == spec_caret_count(*span, line@));
            push_repeat(out, '^', carets);
            out.append("\n");
        },
        None => {},
    }
}

/// The one-line summary of a diagnostic.
pub open spec fn spec_summary(e: CompileError) -> Seq<char> {
    let head = spec_kind_label(e.kind) + ": "@ + e.message@;
    match e.span {
        None => head,
        Some(span) => head + " at "@ + span.start.file@ + ":"@ + spec_decimal(
            span.start.line as nat,
        ) + ":"@ + spec_decimal(span.start.column as nat),
    }
}

/// How one diagnostic renders inside `format_all`: against its file's source
/// when the source map holds it, as a bare summary line otherwise; either way
/// a blank line follows.
pub open spec fn spec_format_one(e: CompileError, entries: Seq<(String, String)>) -> Seq<char> {
    match e.span {
        Some(span) => match spec_assoc(entries, span.start.file@) {
            Some(source) => spec_format_with_source(e, source@) + "\n"@,
            None => spec_summary(e) + "\n"@ + "\n"@,
        },
        None => spec_summary(e) + "\n"@ + "\n"@,
    }
}

/// The concatenated renderings of a sequence of diagnostics.
pub open spec fn spec_format_seq(
    diags: Seq<CompileError>,
    entries: Seq<(String, String)>,
) -> Seq<char>
    decreases diags.len(),
{
    if diags.len() == 0 {
        Seq::empty()
    } else {
        spec_format_seq(diags.drop_last(), entries) + spec_format_one(diags.last(), entries)
    }
}

/// Whether a diagnostic can be rendered against the sources in the map.
pub open spec fn spec_diag_renderable(e: CompileError, entries: Seq<(String, String)>) -> bool {
    match e.span {
        Some(span) => match spec_assoc(entries, span.start.file@) {
            Some(source) => spec_span_renderable(span, source@),
            None => true,
        },
        None => true,
    }
}

impl Diagnostics {
    /// Renders every error, then every warning, in arrival order: against its
    /// file's source where the map holds it (by exact path equality), as a
    /// bare summary otherwise.
    #[verifier::loop_isolation(false)]
    pub fn format_all(&self, source_map: &SourceMap) -> (r: String)
        requires
            forall|i: int|
                0 <= i < self.spec_errors().len() ==> spec_diag_renderable(
                    #[trigger] self.spec_errors()[i],
                    source_map.entries(),
                ),
            forall|i: int|
                0 <= i < self.spec_warnings().len() ==> spec_diag_renderable(
                    #[trigger] self.spec_warnings()[i],
                    source_map.entries(),
                ),
        ensures
            r@ == spec_format_seq(self.spec_errors(), source_map.entries()) + spec_format_seq(
                self.spec_warnings(),
                source_map.entries(),
            ),
    {
        let mut result = String::new();
        let mut i: usize = 0;
        while i < self.errors.len()
            invariant
                i <= self.errors@.len(),
                result@ == spec_format_seq(
                    self.errors@.subrange(0, i as int),
                    source_map.entries(),
                ),
            decreases self.errors@.len() - i,
        {
            let ghost prefix = self.errors@.subrange(0, i as int);
            proof {
                assert(spec_diag_renderable(self.spec_errors()[i as int], source_map.entries()));
            }
            format_one_into(&mut result, &self.errors[i], source_map);
            proof {
                let next = self.errors@.subrange(0, i + 1);
                assert(next.drop_last() =~= prefix);
            }
            i = i + 1;
        }
        proof {
            assert(self.errors@.subrange(0, self.errors@.len() as int) =~= self.errors@);
        }
        let ghost with_errors = result@;
        let mut k: usize = 0;
        while k < self.warnings.len()
            invariant
                k <= self.warnings@.len(),
                result@ == with_errors + spec_format_seq(
                    self.warnings@.subrange(0, k as int),
                    source_map.entries(),
                ),
            decreases self.warnings@.len() - k,
        {
            let ghost prefix = self.warnings@.subrange(0, k as int);
            proof {
                assert(spec_diag_renderable(self.spec_warnings()[k as int], source_map.entries()));
            }
            format_one_into(&mut result, &self.warnings[k], source_map);
            proof {
                let next = self.warnings@.subrange(0, k + 1);
                assert(next.drop_last() =~= prefix);
            }
            k = k + 1;
        }
        proof {
            assert(self.warnings@.subrange(0, self.warnings@.len() as int) =~= self.warnings@);
        }
        result
    }
}

/// Appends one diagnostic's rendering and its trailing blank line.
fn format_one_into(out: &mut String, e: &CompileError, source_map: &SourceMap)
    requires
        spec_diag_renderable(*e, source_map.entries()),
    ensures
        final(out)@ == old(out)@ + spec_format_one(*e, source_map.entries()),
{
    let mut rendered_with_source = false;
    match &e.span {
        Some(span) => {
            match source_map.get_source(span.start.file.as_str()) {
                Some(source) => {
                    out.append(e.format_with_source(source).as_str());
                    out.append("\n");
                    rendered_with_source = true;
                },
                None => {},
            }
        },
        None => {},
    }
    if !rendered_with_source {
        out.append(e.summary().as_str());
        out.append("\n");
        out.append("\n");
    }
}

} // verus!
