//! The grammar of a linter report, as functions from the report's characters
//! to what they mean.
//!
//! ```text
//! Report       := [HeaderBlock] SummaryLine Issue*
//! HeaderBlock  := "Missing or invalid header" RestOfLine NEWLINE
//! SummaryLine  := FileName ":" SPACE ("OK" | "Error") "!" NEWLINE
//! Issue        := LocatedIssue | FallbackIssue
//! LocatedIssue := "Error:" SPACE+ Code SPACE+
//!                 "(line:" SPACE* NUMBER "," SPACE* "col:" SPACE* NUMBER "):" SPACE*
//!                 RestOfLine (NEWLINE | end of text)
//! FallbackIssue := NonBlank RestOfLine (NEWLINE | end of text)
//! ```
//!
//! `SPACE` is a space or a tab, `NEWLINE` is a line feed, `FileName` is one
//! character or more other than a colon and a newline, `Code` is one ASCII
//! letter or underscore or more, `NUMBER` is an optional sign and decimal
//! digits, `NonBlank` is any character but a space, a tab and a newline, and
//! `RestOfLine` is everything up to the next newline.
//!
//! The choices that the grammar leaves open are made as follows.
//!
//! * A text that begins with the header's words is read with a header block
//!   where that makes it a report. Where it does not, the text is read from
//!   its start as a summary line, since a file name may begin with the same
//!   words. Where neither reading makes it a report, the mismatch is that of
//!   the reading with a header block.
//! * After an `OK` summary the text must end: a clean report has no issues.
//! * After an `Error` summary every line is an issue, up to the end of the
//!   text. The last line needs no newline: the end of the text ends it too.
//! * A line is a located issue if all of it up to the message fits, the line
//!   number is at least 1 and the column at least 0. Any other line is kept
//!   whole as an unlocated issue, so that one bad line costs no other line.
//! * Only a line that is empty or begins with a space or a tab is no issue at
//!   all; there the report does not fit the grammar.
//! * The header block becomes a message only when issues follow it.

use vstd::prelude::*;
use crate::norminette_msg::MsgView;
use crate::scan::{has_token, lemma_run_end_bounds, number_at, run_end, CharClass};

verus! {

/// How a header block begins.
pub const HEADER_TAG: &'static str = "Missing or invalid header";

/// The summary of a file without issues.
pub const OK_TAG: &'static str = "OK";

/// The summary of a file with issues.
pub const ERROR_TAG: &'static str = "Error";

/// How a located issue begins.
pub const ISSUE_TAG: &'static str = "Error:";

/// What stands before the line number of a located issue.
pub const LINE_TAG: &'static str = "(line:";

/// What stands before the column of a located issue.
pub const COLUMN_TAG: &'static str = "col:";

/// What stands after the column of a located issue.
pub const PLACE_END_TAG: &'static str = "):";

/// What a report should have held where it stopped fitting the grammar.
#[derive(Clone, Copy, Debug, PartialEq, Eq)]
pub enum Expected {
    /// The file name that begins the summary line.
    FileName,
    /// The colon after the file name.
    Colon,
    /// The space between the colon and the verdict.
    Space,
    /// `OK` or `Error`.
    Verdict,
    /// The exclamation mark after the verdict.
    Bang,
    /// The newline that ends the header block or the summary line.
    Newline,
    /// A line that begins with something other than a space, a tab or a
    /// newline.
    IssueLine,
    /// Nothing more: the text goes on after a clean summary.
    EndOfInput,
}

impl Expected {
    /// What was expected, in words.
    pub open spec fn words(self) -> Seq<char> {
        match self {
            Expected::FileName => "a file name"@,
            Expected::Colon => "':' after the file name"@,
            Expected::Space => "a space after ':'"@,
            Expected::Verdict => "\"OK\" or \"Error\""@,
            Expected::Bang => "'!'"@,
            Expected::Newline => "a newline"@,
            Expected::IssueLine => "an issue line"@,
            Expected::EndOfInput => "the end of the report"@,
        }
    }

    /// What was expected, in words.
    pub fn description(self) -> (words: &'static str)
        ensures
            words@ == self.words(),
    {
        match self {
            Expected::FileName => "a file name",
            Expected::Colon => "':' after the file name",
            Expected::Space => "a space after ':'",
            Expected::Verdict => "\"OK\" or \"Error\"",
            Expected::Bang => "'!'",
            Expected::Newline => "a newline",
            Expected::IssueLine => "an issue line",
            Expected::EndOfInput => "the end of the report",
        }
    }
}

/// Where a text stops fitting the grammar, as an index into its characters,
/// and what should have stood there.
pub struct Mismatch {
    pub at: int,
    pub expected: Expected,
}

/// What the summary line says of the file.
#[derive(Clone, Copy, Debug, PartialEq, Eq)]
pub enum Verdict {
    Passed,
    Failed,
}

/// The word that a summary line writes for a verdict.
pub open spec fn verdict_tag(verdict: Verdict) -> Seq<char> {
    match verdict {
        Verdict::Passed => OK_TAG@,
        Verdict::Failed => ERROR_TAG@,
    }
}

/// A summary line: its verdict, and the index just after its newline.
pub struct Summary {
    pub verdict: Verdict,
    pub end: int,
}

/// Whether the character `c` stands in `text` at index `at`.
pub open spec fn has_char(text: Seq<char>, at: int, c: char) -> bool {
    0 <= at < text.len() && text[at] == c
}

/// Whether the text begins with the words of a header block.
pub open spec fn has_header(text: Seq<char>) -> bool {
    has_token(text, 0, HEADER_TAG@)
}

/// The index at which the first line of the text ends.
pub open spec fn first_line_end(text: Seq<char>) -> int {
    run_end(text, 0, CharClass::Line)
}

/// The index at which the summary line begins. Where the text is read with
/// a header block (`headed`), that is after the first line, which a newline
/// must end; else it is the start of the text.
pub open spec fn summary_start(text: Seq<char>, headed: bool) -> Result<int, Mismatch> {
    if !headed {
        Ok(0)
    } else if has_char(text, first_line_end(text), '\n') {
        Ok(first_line_end(text) + 1)
    } else {
        Err(Mismatch { at: first_line_end(text), expected: Expected::Newline })
    }
}

/// The end of a summary line whose verdict ends at index `bang`.
pub open spec fn summary_close(text: Seq<char>, verdict: Verdict, bang: int) -> Result<
    Summary,
    Mismatch,
> {
    if !has_char(text, bang, '!') {
        Err(Mismatch { at: bang, expected: Expected::Bang })
    } else if !has_char(text, bang + 1, '\n') {
        Err(Mismatch { at: bang + 1, expected: Expected::Newline })
    } else {
        Ok(Summary { verdict, end: bang + 2 })
    }
}

/// The summary line that begins at index `start`.
pub open spec fn summary_at(text: Seq<char>, start: int) -> Result<Summary, Mismatch> {
    let colon = run_end(text, start, CharClass::FileName);
    let verdict = colon + 2;
    if colon == start {
        Err(Mismatch { at: colon, expected: Expected::FileName })
    } else if !has_char(text, colon, ':') {
        Err(Mismatch { at: colon, expected: Expected::Colon })
    } else if !(colon + 1 < text.len() && CharClass::Space.contains(text[colon + 1])) {
        Err(Mismatch { at: colon + 1, expected: Expected::Space })
    } else if has_token(text, verdict, OK_TAG@) {
        summary_close(text, Verdict::Passed, verdict + OK_TAG@.len())
    } else if has_token(text, verdict, ERROR_TAG@) {
        summary_close(text, Verdict::Failed, verdict + ERROR_TAG@.len())
    } else {
        Err(Mismatch { at: verdict, expected: Expected::Verdict })
    }
}

/// The located issue that `line` holds, if all of it up to the message fits.
///
/// `line` is one line without its newline. The code is the run of code
/// characters after the first spaces; the two numbers are the line and the
/// column as the linter wrote them; the message is what follows the spaces
/// after `):`, up to the end of the line.
pub open spec fn located_issue(line: Seq<char>) -> Option<MsgView> {
    let code_start = run_end(line, ISSUE_TAG@.len() as int, CharClass::Space);
    let code_end = run_end(line, code_start, CharClass::Code);
    let place = run_end(line, code_end, CharClass::Space);
    let row_start = run_end(line, place + LINE_TAG@.len(), CharClass::Space);
    match number_at(line, row_start) {
        None => None,
        Some(row) => {
            let column_tag = run_end(line, row.end + 1, CharClass::Space);
            let column_start = run_end(line, column_tag + COLUMN_TAG@.len(), CharClass::Space);
            match number_at(line, column_start) {
                None => None,
                Some(column) => {
                    let message = run_end(
                        line,
                        column.end + PLACE_END_TAG@.len(),
                        CharClass::Space,
                    );
                    if has_token(line, 0, ISSUE_TAG@) && ISSUE_TAG@.len() < code_start < code_end
                        < place && has_token(line, place, LINE_TAG@) && has_char(
                        line,
                        row.end,
                        ',',
                    ) && has_token(line, column_tag, COLUMN_TAG@) && has_token(
                        line,
                        column.end,
                        PLACE_END_TAG@,
                    ) && row.value >= 1 && column.value >= 0 {
                        Some(
                            MsgView::LocatedIssue {
                                code: line.subrange(code_start, code_end),
                                line: row.value,
                                column: column.value,
                                text: line.subrange(message, line.len() as int),
                            },
                        )
                    } else {
                        None
                    }
                },
            }
        },
    }
}

/// The message that an issue line stands for: the located issue that it
/// holds, or else the line itself as an unlocated issue.
pub open spec fn issue_of(line: Seq<char>) -> MsgView {
    match located_issue(line) {
        Some(issue) => issue,
        None => MsgView::UnlocatedIssue { text: line },
    }
}

/// Whether an issue line can begin with `c`.
pub open spec fn starts_issue(c: char) -> bool {
    CharClass::Line.contains(c) && !CharClass::Space.contains(c)
}

/// The index at which the line that begins at `at` ends.
pub open spec fn line_end(text: Seq<char>, at: int) -> int {
    run_end(text, at, CharClass::Line)
}

/// The index at which the line after the one that begins at `at` begins, or
/// the length of the text if that line is the last.
pub open spec fn next_line(text: Seq<char>, at: int) -> int {
    if line_end(text, at) < text.len() {
        line_end(text, at) + 1
    } else {
        line_end(text, at)
    }
}

/// The issues that the lines from index `at` to the end of the text stand
/// for, in the order of the lines.
pub open spec fn issues_at(text: Seq<char>, at: int) -> Result<Seq<MsgView>, Mismatch>
    decreases text.len() - at,
    via issues_at_decreases
{
    if at < 0 || at >= text.len() {
        Ok(Seq::empty())
    } else if !starts_issue(text[at]) {
        Err(Mismatch { at, expected: Expected::IssueLine })
    } else {
        match issues_at(text, next_line(text, at)) {
            Ok(rest) => Ok(seq![issue_of(text.subrange(at, line_end(text, at)))] + rest),
            Err(mismatch) => Err(mismatch),
        }
    }
}

#[via_fn]
proof fn issues_at_decreases(text: Seq<char>, at: int) {
    if 0 <= at < text.len() && starts_issue(text[at]) {
        lemma_run_end_bounds(text, at + 1, CharClass::Line);
    }
}

/// The message for the header block of `text`.
pub open spec fn header_warning(text: Seq<char>) -> MsgView {
    MsgView::HeaderWarning { line: None, text: text.subrange(0, first_line_end(text)) }
}

/// The messages of the report that follows a summary line, in a text that
/// is read with a header block (`headed`) or without one.
pub open spec fn body_of(text: Seq<char>, summary: Summary, headed: bool) -> Result<
    Seq<MsgView>,
    Mismatch,
> {
    match summary.verdict {
        Verdict::Passed => if summary.end == text.len() {
            Ok(seq![MsgView::Clean])
        } else {
            Err(Mismatch { at: summary.end, expected: Expected::EndOfInput })
        },
        Verdict::Failed => match issues_at(text, summary.end) {
            Ok(issues) => if headed && issues.len() > 0 {
                Ok(seq![header_warning(text)] + issues)
            } else {
                Ok(issues)
            },
            Err(mismatch) => Err(mismatch),
        },
    }
}

/// The summary line of a text that is read with a header block (`headed`) or
/// without one.
pub open spec fn summary_in(text: Seq<char>, headed: bool) -> Result<Summary, Mismatch> {
    match summary_start(text, headed) {
        Ok(start) => summary_at(text, start),
        Err(mismatch) => Err(mismatch),
    }
}

/// What a text holds when it is read with a header block (`headed`) or
/// without one: its messages, or the first place where it does not fit.
pub open spec fn reading(text: Seq<char>, headed: bool) -> Result<Seq<MsgView>, Mismatch> {
    match summary_in(text, headed) {
        Ok(summary) => body_of(text, summary, headed),
        Err(mismatch) => Err(mismatch),
    }
}

/// Whether the first line of the text is read as a header block: the text
/// begins with the header's words, and either it is a report when read so, or
/// it is no report when read from its start as a summary line either.
pub open spec fn reads_header(text: Seq<char>) -> bool {
    has_header(text) && (reading(text, true) is Ok || reading(text, false) is Err)
}

/// The summary line of a report.
pub open spec fn summary_of(text: Seq<char>) -> Result<Summary, Mismatch> {
    summary_in(text, reads_header(text))
}

/// The messages of a report, in the order in which the report gives them, or
/// the first place where the text does not fit the grammar.
pub open spec fn report(text: Seq<char>) -> Result<Seq<MsgView>, Mismatch> {
    reading(text, reads_header(text))
}

} // verus!
