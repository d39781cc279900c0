//! Diagnostic records: what an editor is told about one place in a source file.

use vstd::prelude::*;

verus! {

/// The column that stands for "up to the end of the line", whatever the
/// line's length.
pub const REST_OF_LINE: u32 = u32::MAX;

/// The origin that every diagnostic of this library names.
pub const SOURCE: &'static str = "norminette";

/// A place in a text: zero-based line and zero-based column.
#[derive(Clone, Copy, Debug, PartialEq, Eq)]
pub struct Position {
    pub line: u32,
    pub character: u32,
}

impl Position {
    /// Positions are ordered by line, and within a line by column.
    pub open spec fn at_or_before(self, other: Position) -> bool {
        self.line < other.line || (self.line == other.line && self.character <= other.character)
    }
}

/// A half-open stretch of text, from `start` up to but without `end`.
#[derive(Clone, Copy, Debug, PartialEq, Eq)]
pub struct Range {
    pub start: Position,
    pub end: Position,
}

impl Range {
    /// A range never ends before it starts.
    pub open spec fn wf(self) -> bool {
        self.start.at_or_before(self.end)
    }
}

/// How serious a diagnostic is.
#[derive(Clone, Copy, Debug, PartialEq, Eq)]
pub enum Severity {
    Error,
    Information,
}

/// One finding of the linter, addressed to a range of the checked file.
#[derive(Clone, Debug, PartialEq, Eq)]
pub struct Diagnostic {
    pub range: Range,
    pub severity: Severity,
    pub code: Option<String>,
    pub source: String,
    pub message: String,
}

/// A diagnostic as a mathematical value: its strings are character sequences.
pub struct DiagnosticView {
    pub range: Range,
    pub severity: Severity,
    pub code: Option<Seq<char>>,
    pub source: Seq<char>,
    pub message: Seq<char>,
}

impl View for Diagnostic {
    type V = DiagnosticView;

    open spec fn view(&self) -> DiagnosticView {
        DiagnosticView {
            range: self.range,
            severity: self.severity,
            code: match self.code {
                Some(code) => Some(code@),
                None => None,
            },
            source: self.source@,
            message: self.message@,
        }
    }
}

/// The views of a sequence of diagnostics, in the same order.
pub open spec fn diagnostic_views(diagnostics: Seq<Diagnostic>) -> Seq<DiagnosticView> {
    diagnostics.map_values(|d: Diagnostic| d@)
}

} // verus!
