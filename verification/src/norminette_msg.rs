//! The messages of a linter report, and how each becomes a diagnostic.

use vstd::prelude::*;
use vstd::string::StringExecFns;
use crate::diagnostic::{Diagnostic, DiagnosticView, Position, Range, Severity, REST_OF_LINE, SOURCE};

verus! {

/// One message of a linter report.
///
/// Lines and columns are kept as the linter reports them: lines count from
/// one, columns from zero. Only [`NorminetteMsg::find_range`] turns them into
/// zero-based positions.
#[derive(Clone, Debug, PartialEq, Eq)]
#[allow(inconsistent_fields)]
pub enum NorminetteMsg {
    /// The linter found nothing to report.
    Clean,
    /// A warning about the file's header, printed before the summary line. It
    /// has no column and may have no line.
    HeaderWarning { line: Option<i32>, text: String },
    /// A violation with a known place.
    LocatedIssue { code: String, line: i32, column: i32, text: String },
    /// An issue line that could not be read as a located issue: the line as it
    /// stood.
    UnlocatedIssue { text: String },
}

/// A message as a mathematical value.
#[allow(inconsistent_fields)]
pub enum MsgView {
    Clean,
    HeaderWarning { line: Option<int>, text: Seq<char> },
    LocatedIssue { code: Seq<char>, line: int, column: int, text: Seq<char> },
    UnlocatedIssue { text: Seq<char> },
}

impl MsgView {
    /// Lines are at least 1 and columns at least 0, within what the linter's
    /// 32-bit numbers can hold.
    pub open spec fn wf(self) -> bool {
        match self {
            MsgView::Clean => true,
            MsgView::HeaderWarning { line: Some(l), .. } => 1 <= l <= i32::MAX,
            MsgView::HeaderWarning { line: None, .. } => true,
            MsgView::LocatedIssue { line, column, .. } => 1 <= line <= i32::MAX && 0 <= column
                <= i32::MAX,
            MsgView::UnlocatedIssue { .. } => true,
        }
    }

    /// The range that a diagnostic for this message covers.
    ///
    /// * A located issue covers three columns from its column on, on its own
    ///   line; the end column never passes [`REST_OF_LINE`].
    /// * A header warning with a line covers that whole line: from its first
    ///   column to the first column of the line below.
    /// * A header warning without a line, and an unlocated issue, have no
    ///   place of their own: they cover the start of the file, from its
    ///   first character up to [`REST_OF_LINE`] on its second line.
    /// * A clean report has no range.
    pub open spec fn range(self) -> Option<Range> {
        match self {
            MsgView::Clean => None,
            MsgView::HeaderWarning { line: Some(l), .. } => Some(
                Range {
                    start: Position { line: (l - 1) as u32, character: 0 },
                    end: Position { line: l as u32, character: 0 },
                },
            ),
            MsgView::HeaderWarning { line: None, .. } | MsgView::UnlocatedIssue { .. } => Some(
                Range {
                    start: Position { line: 0, character: 0 },
                    end: Position { line: 1, character: REST_OF_LINE },
                },
            ),
            MsgView::LocatedIssue { line, column, .. } => Some(
                Range {
                    start: Position { line: (line - 1) as u32, character: column as u32 },
                    end: Position {
                        line: (line - 1) as u32,
                        character: if column + 3 > REST_OF_LINE {
                            REST_OF_LINE
                        } else {
                            (column + 3) as u32
                        },
                    },
                },
            ),
        }
    }

    /// The diagnostic that stands for this message, if it gets one.
    ///
    /// A clean report gets none. A header warning informs; every issue is an
    /// error. Only a located issue has a code. The message text is taken over
    /// as it is.
    pub open spec fn diagnostic(self) -> Option<DiagnosticView> {
        match self {
            MsgView::Clean => None,
            MsgView::HeaderWarning { text, .. } => Some(
                DiagnosticView {
                    range: self.range()->0,
                    severity: Severity::Information,
                    code: None,
                    source: SOURCE@,
                    message: text,
                },
            ),
            MsgView::LocatedIssue { code, text, .. } => Some(
                DiagnosticView {
                    range: self.range()->0,
                    severity: Severity::Error,
                    code: Some(code),
                    source: SOURCE@,
                    message: text,
                },
            ),
            MsgView::UnlocatedIssue { text } => Some(
                DiagnosticView {
                    range: self.range()->0,
                    severity: Severity::Error,
                    code: None,
                    source: SOURCE@,
                    message: text,
                },
            ),
        }
    }
}

impl View for NorminetteMsg {
    type V = MsgView;

    open spec fn view(&self) -> MsgView {
        match self {
            NorminetteMsg::Clean => MsgView::Clean,
            NorminetteMsg::HeaderWarning { line, text } => MsgView::HeaderWarning {
                line: match line {
                    Some(l) => Some(*l as int),
                    None => None,
                },
                text: text@,
            },
            NorminetteMsg::LocatedIssue { code, line, column, text } => MsgView::LocatedIssue {
                code: code@,
                line: *line as int,
                column: *column as int,
                text: text@,
            },
            NorminetteMsg::UnlocatedIssue { text } => MsgView::UnlocatedIssue { text: text@ },
        }
    }
}

/// The views of a sequence of messages, in the same order.
pub open spec fn msg_views(msgs: Seq<NorminetteMsg>) -> Seq<MsgView> {
    msgs.map_values(|m: NorminetteMsg| m@)
}

impl NorminetteMsg {
    /// The message holds a line and a column that the linter can report.
    pub open spec fn wf(&self) -> bool {
        self@.wf()
    }

    /// Whether the message is well formed.
    pub fn is_wf(&self) -> (b: bool)
        ensures
            b == self.wf(),
    {
        match self {
            NorminetteMsg::Clean => true,
            NorminetteMsg::HeaderWarning { line: Some(l), .. } => *l >= 1,
            NorminetteMsg::HeaderWarning { line: None, .. } => true,
            NorminetteMsg::LocatedIssue { line, column, .. } => *line >= 1 && *column >= 0,
            NorminetteMsg::UnlocatedIssue { .. } => true,
        }
    }

    /// The range in the checked file that this message speaks of, in
    /// zero-based coordinates; `None` for a clean report.
    pub fn find_range(&self) -> (range: Option<Range>)
        requires
            self.wf(),
        ensures
            range == self@.range(),
            range matches Some(r) ==> r.wf(),
    {
        match self {
            NorminetteMsg::Clean => None,
            NorminetteMsg::HeaderWarning { line: Some(l), .. } => Some(
                Range {
                    start: Position { line: (*l - 1) as u32, character: 0 },
                    end: Position { line: *l as u32, character: 0 },
                },
            ),
            NorminetteMsg::HeaderWarning { line: None, .. } | NorminetteMsg::UnlocatedIssue {
                ..
            } => Some(
                Range {
                    start: Position { line: 0, character: 0 },
                    end: Position { line: 1, character: REST_OF_LINE },
                },
            ),
            NorminetteMsg::LocatedIssue { line, column, .. } => {
                let row: u32 = (*line - 1) as u32;
                let col: u32 = *column as u32;
                Some(
                    Range {
                        start: Position { line: row, character: col },
                        end: Position { line: row, character: col.saturating_add(3) },
                    },
                )
            },
        }
    }

    /// The diagnostic for this message; `None` for a clean report, which has
    /// nothing to show.
    pub fn to_diagnostic(self) -> (diagnostic: Option<Diagnostic>)
        requires
            self.wf(),
        ensures
            match diagnostic {
                Some(d) => self@.diagnostic() == Some(d@) && d.range.wf(),
                None => self@.diagnostic() is None,
            },
    {
        let range = self.find_range()?;
        match self {
            NorminetteMsg::Clean => None,
            NorminetteMsg::HeaderWarning { text, .. } => Some(
                Diagnostic {
                    range,
                    severity: Severity::Information,
                    code: None,
                    source: String::from_str(SOURCE),
                    message: text,
                },
            ),
            NorminetteMsg::LocatedIssue { code, text, .. } => Some(
                Diagnostic {
                    range,
                    severity: Severity::Error,
                    code: Some(code),
                    source: String::from_str(SOURCE),
                    message: text,
                },
            ),
            NorminetteMsg::UnlocatedIssue { text } => Some(
                Diagnostic {
                    range,
                    severity: Severity::Error,
                    code: None,
                    source: String::from_str(SOURCE),
                    message: text,
                },
            ),
        }
    }
}

} // verus!
