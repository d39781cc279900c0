//! What holds of every report, proved from the grammar.

use vstd::prelude::*;
use crate::diagnostic::{diagnostic_views, Diagnostic, DiagnosticView, Severity, SOURCE};
use crate::grammar::{
    header_warning, issue_of, issues_at,
    line_end, located_issue, next_line, reading, reads_header, report, starts_issue, summary_in,
    summary_of, verdict_tag, Mismatch, Summary, Verdict,
};
use crate::norminette_msg::{msg_views, MsgView, NorminetteMsg};
use crate::parser::{parses_to, GrammarMismatch};
use crate::report::{diagnoses_to, diagnostics_of, report_diagnostics};
use crate::scan::{lemma_run_end_bounds, lemma_run_end_is, CharClass};

verus! {

/// The range of a well-formed message never ends before it starts, and every
/// message but a clean report's has a range and a diagnostic over that range.
pub proof fn lemma_range_is_wf(msg: MsgView)
    requires
        msg.wf(),
    ensures
        msg.range() matches Some(range) ==> range.wf(),
        msg is Clean <==> msg.range() is None,
        msg is Clean <==> msg.diagnostic() is None,
        msg.diagnostic() matches Some(d) ==> Some(d.range) == msg.range(),
{
}

/// Every issue line stands for a well-formed message.
pub proof fn lemma_issue_is_wf(line: Seq<char>)
    ensures
        issue_of(line).wf(),
        issue_of(line) is LocatedIssue || issue_of(line) is UnlocatedIssue,
{
}

/// Every message of the lines from `at` on is well formed, and an issue.
pub proof fn lemma_issues_are_wf(text: Seq<char>, at: int)
    ensures
        issues_at(text, at) matches Ok(issues) ==> forall|i: int|
            0 <= i < issues.len() ==> (#[trigger] issues[i]).wf() && (issues[i] is LocatedIssue
                || issues[i] is UnlocatedIssue),
    decreases text.len() - at,
{
    if 0 <= at < text.len() && starts_issue(text[at]) {
        lemma_run_end_bounds(text, at + 1, CharClass::Line);
        lemma_issues_are_wf(text, next_line(text, at));
        lemma_issue_is_wf(text.subrange(at, line_end(text, at)));
    }
}

/// Every message of a report is well formed.
pub proof fn lemma_report_is_wf(text: Seq<char>)
    ensures
        report(text) matches Ok(msgs) ==> forall|i: int|
            0 <= i < msgs.len() ==> (#[trigger] msgs[i]).wf(),
{
    if let Ok(summary) = summary_of(text) {
        lemma_issues_are_wf(text, summary.end);
    }
}

/// A report whose summary line says `OK` is exactly a clean report, and asks
/// for no diagnostic. It is a report only if the text ends with that line.
pub proof fn lemma_clean_report(text: Seq<char>)
    requires
        summary_of(text) matches Ok(summary) && summary.verdict == Verdict::Passed,
    ensures
        report(text) is Ok <==> summary_of(text)->Ok_0.end == text.len(),
        report(text) is Ok ==> report(text) == Ok::<Seq<MsgView>, Mismatch>(seq![MsgView::Clean]),
        report(text) is Ok ==> report_diagnostics(text) == Ok::<Seq<DiagnosticView>, Mismatch>(
            Seq::empty(),
        ),
{
    reveal_with_fuel(Seq::filter_map, 2);
}

/// A report whose summary line says `Error` and whose text ends with that
/// line has no message, and asks for no diagnostic.
pub proof fn lemma_failed_report_without_issues(text: Seq<char>)
    requires
        summary_of(text) matches Ok(summary) && summary.verdict == Verdict::Failed && summary.end
            == text.len(),
    ensures
        report(text) == Ok::<Seq<MsgView>, Mismatch>(Seq::empty()),
        report_diagnostics(text) == Ok::<Seq<DiagnosticView>, Mismatch>(Seq::empty()),
{
}

/// A line that is a located issue with line number `l` and column `c` gives
/// an error diagnostic that starts at line `l - 1`, column `c`, and ends
/// three columns further on the same line. The diagnostic carries the
/// issue's code and its message.
pub proof fn lemma_located_issue_diagnostic(line: Seq<char>)
    requires
        located_issue(line) is Some,
    ensures
        issue_of(line) == located_issue(line)->0,
        issue_of(line) matches MsgView::LocatedIssue { code, line: l, column: c, text }
            && issue_of(line).diagnostic() matches Some(d) && d.range.start.line == l - 1
            && d.range.start.character == c && d.range.end.line == l - 1 && d.range.end.character
            == c + 3 && d.severity == Severity::Error && d.code == Some(code) && d.message == text
            && d.source == SOURCE@,
{
}

/// Reading is a function of the text: two outcomes of reading one text hold
/// the same messages, or the same mismatch.
pub proof fn lemma_parse_is_deterministic(
    text: Seq<char>,
    first: Result<Vec<NorminetteMsg>, GrammarMismatch>,
    second: Result<Vec<NorminetteMsg>, GrammarMismatch>,
)
    requires
        parses_to(text, first),
        parses_to(text, second),
    ensures
        match (first, second) {
            (Ok(a), Ok(b)) => msg_views(a@) == msg_views(b@),
            (Err(a), Err(b)) => a == b,
            _ => false,
        },
{
}

/// Two outcomes of diagnosing one text hold the same diagnostics in the same
/// order, or the same mismatch.
pub proof fn lemma_diagnose_is_deterministic(
    text: Seq<char>,
    first: Result<Vec<Diagnostic>, GrammarMismatch>,
    second: Result<Vec<Diagnostic>, GrammarMismatch>,
)
    requires
        diagnoses_to(text, first),
        diagnoses_to(text, second),
    ensures
        match (first, second) {
            (Ok(a), Ok(b)) => diagnostic_views(a@) == diagnostic_views(b@),
            (Err(a), Err(b)) => a == b,
            _ => false,
        },
{
}

/// Whether `line` can stand in a report as an issue line: it is not empty,
/// begins with no space, tab or newline, and holds no newline.
pub open spec fn is_issue_line(line: Seq<char>) -> bool {
    line.len() > 0 && starts_issue(line[0]) && forall|i: int|
        0 <= i < line.len() ==> #[trigger] line[i] != '\n'
}

/// The text that holds `lines` one after the other, a newline after each.
pub open spec fn joined(lines: Seq<Seq<char>>) -> Seq<char>
    decreases lines.len(),
{
    if lines.len() == 0 {
        Seq::empty()
    } else {
        lines.first() + seq!['\n'] + joined(lines.drop_first())
    }
}

/// The text that holds `lines` one after the other with a newline between
/// them, and after the last only if `terminated`.
pub open spec fn lines_text(lines: Seq<Seq<char>>, terminated: bool) -> Seq<char> {
    if terminated || lines.len() == 0 {
        joined(lines)
    } else {
        joined(lines).drop_last()
    }
}

/// The message that each of `lines` stands for.
pub open spec fn issues_of(lines: Seq<Seq<char>>) -> Seq<MsgView> {
    lines.map_values(|line: Seq<char>| issue_of(line))
}

/// Lines that are joined hold a newline at their end.
proof fn lemma_joined_ends_with_newline(lines: Seq<Seq<char>>)
    requires
        lines.len() > 0,
    ensures
        joined(lines).len() > 0,
        joined(lines).last() == '\n',
    decreases lines.len(),
{
    if lines.len() > 1 {
        lemma_joined_ends_with_newline(lines.drop_first());
    } else {
        assert(joined(lines.drop_first()).len() == 0);
    }
}

/// Where issue lines stand from index `at` to the end of a text, each line
/// gives its own message, whatever the other lines hold: a line that is no
/// located issue becomes an unlocated one and costs no other line its
/// message. The messages stand in the order of the lines.
pub proof fn lemma_issue_lines(text: Seq<char>, at: int, lines: Seq<Seq<char>>, terminated: bool)
    requires
        0 <= at <= text.len(),
        text.skip(at) == lines_text(lines, terminated),
        forall|i: int| 0 <= i < lines.len() ==> is_issue_line(#[trigger] lines[i]),
    ensures
        issues_at(text, at) == Ok::<Seq<MsgView>, Mismatch>(issues_of(lines)),
    decreases lines.len(),
{
    let rest_text = text.skip(at);
    if lines.len() == 0 {
        assert(issues_of(lines) =~= Seq::<MsgView>::empty());
    } else {
        let line = lines.first();
        let rest = lines.drop_first();
        let end = at + line.len();
        if rest.len() > 0 {
            lemma_joined_ends_with_newline(rest);
        }
        // What follows `at` is the first line alone, or the first line, a
        // newline and the text of the other lines.
        let tail = lines_text(rest, terminated);
        let last_open = !terminated && rest.len() == 0;
        assert(rest_text =~= if last_open {
            line
        } else {
            line + seq!['\n'] + tail
        });
        // So the first line ends at `end`, and is read as `line`.
        assert forall|i: int| at <= i < end implies CharClass::Line.contains(
            #[trigger] text[i],
        ) by {
            assert(text[i] == rest_text[i - at]);
        }
        if !last_open {
            assert(text[end] == rest_text[line.len() as int]);
        }
        lemma_run_end_is(text, at, end, CharClass::Line);
        assert(text.subrange(at, end) =~= line);
        // The other lines stand from the next line on.
        let next = next_line(text, at);
        if !last_open {
            assert forall|j: int| 0 <= j < tail.len() implies text.skip(next)[j] == tail[j] by {
                assert(text[next + j] == rest_text[next + j - at]);
            }
        }
        assert(text.skip(next) =~= tail);
        assert forall|i: int| 0 <= i < rest.len() implies is_issue_line(#[trigger] rest[i]) by {
            assert(rest[i] == lines[i + 1]);
        }
        lemma_issue_lines(text, next, rest, terminated);
        assert(seq![issue_of(line)] + issues_of(rest) =~= issues_of(lines));
    }
}

/// Where every message gets a diagnostic, the diagnostics are those of the
/// messages one by one.
proof fn lemma_diagnostics_of_issues(msgs: Seq<MsgView>)
    requires
        forall|i: int| 0 <= i < msgs.len() ==> (#[trigger] msgs[i]).diagnostic() is Some,
    ensures
        diagnostics_of(msgs) == msgs.map_values(|m: MsgView| m.diagnostic()->0),
    decreases msgs.len(),
{
    if msgs.len() > 0 {
        lemma_diagnostics_of_issues(msgs.drop_last());
    }
}

/// How many messages the header block of `text` gives when issues follow it:
/// one where the first line is read as a header block, else none.
pub open spec fn header_messages(text: Seq<char>) -> int {
    if reads_header(text) {
        1
    } else {
        0
    }
}

/// A report with an `Error` summary, followed by issue lines up to the end of
/// the text, has one message for each line, in the order of the lines, and
/// before them one for the header block if its first line is read as one.
/// Each message gives one diagnostic, in the same order: the header's
/// informs, and the line at index `i` gives an error that is the diagnostic
/// of that line alone.
pub proof fn lemma_report_of_issue_lines(
    text: Seq<char>,
    lines: Seq<Seq<char>>,
    terminated: bool,
)
    requires
        summary_of(text) matches Ok(summary) && summary.verdict == Verdict::Failed
            && text.skip(summary.end) == lines_text(
            lines,
            terminated,
        ),
        lines.len() > 0,
        forall|i: int| 0 <= i < lines.len() ==> is_issue_line(#[trigger] lines[i]),
    ensures
        report(text) == Ok::<Seq<MsgView>, Mismatch>(
            if reads_header(text) {
                seq![header_warning(text)] + issues_of(lines)
            } else {
                issues_of(lines)
            },
        ),
        report_diagnostics(text) matches Ok(diagnostics) && ({
            &&& diagnostics.len() == lines.len() + header_messages(text)
            &&& reads_header(text) ==> Some(diagnostics[0]) == header_warning(text).diagnostic()
                && diagnostics[0].severity == Severity::Information
            &&& forall|i: int|
                0 <= i < lines.len() ==> Some(diagnostics[i + header_messages(text)])
                    == (#[trigger] issue_of(lines[i])).diagnostic() && diagnostics[i
                    + header_messages(text)].severity == Severity::Error
        }),
{
    let summary = summary_of(text)->Ok_0;
    lemma_issue_lines(text, summary.end, lines, terminated);
    let headed = reads_header(text);
    let msgs = report(text)->Ok_0;
    assert(msgs == if headed {
        seq![header_warning(text)] + issues_of(lines)
    } else {
        issues_of(lines)
    });
    assert forall|i: int| 0 <= i < msgs.len() implies (#[trigger] msgs[i]).diagnostic() is Some by {
        if headed && i > 0 {
            lemma_issue_is_wf(lines[i - 1]);
        } else if !headed {
            lemma_issue_is_wf(lines[i]);
        }
    }
    lemma_diagnostics_of_issues(msgs);
    let diagnostics = report_diagnostics(text)->Ok_0;
    let shift = header_messages(text);
    assert forall|i: int| 0 <= i < lines.len() implies Some(diagnostics[i + shift]) == (
    #[trigger] issue_of(lines[i])).diagnostic() && diagnostics[i + shift].severity
        == Severity::Error by {
        lemma_issue_is_wf(lines[i]);
        assert(msgs[i + shift] == issue_of(lines[i]));
    }
}

/// In a report with an `Error` summary and issue lines up to the end of the
/// text, a line that is a located issue with line number `l` and column `c`
/// gives the diagnostic at its own place in the list, and that diagnostic is
/// an error that starts at line `l - 1`, column `c`.
pub proof fn lemma_located_line_in_report(
    text: Seq<char>,
    lines: Seq<Seq<char>>,
    terminated: bool,
    i: int,
)
    requires
        summary_of(text) matches Ok(summary) && summary.verdict == Verdict::Failed
            && text.skip(summary.end) == lines_text(
            lines,
            terminated,
        ),
        forall|k: int| 0 <= k < lines.len() ==> is_issue_line(#[trigger] lines[k]),
        0 <= i < lines.len(),
        located_issue(lines[i]) is Some,
    ensures
        report_diagnostics(text) matches Ok(diagnostics) && located_issue(
            lines[i],
        ) matches Some(MsgView::LocatedIssue { line: l, column: c, .. }) && ({
            let d = diagnostics[i + header_messages(text)];
            &&& d.severity == Severity::Error
            &&& d.range.start.line == l - 1
            &&& d.range.start.character == c
        }),
{
    lemma_report_of_issue_lines(text, lines, terminated);
    lemma_located_issue_diagnostic(lines[i]);
}

/// A report whose first line is not read as a header block and whose issue
/// lines are a located issue, a line that is none, and a located issue again
/// has three messages in that order, and gives three error diagnostics in
/// that order: the first and the
/// last with their codes, the middle one without a code and with the whole
/// line as its message.
pub proof fn lemma_bad_line_between_good_lines(
    text: Seq<char>,
    first: Seq<char>,
    middle: Seq<char>,
    last: Seq<char>,
    terminated: bool,
)
    requires
        !reads_header(text),
        summary_of(text) matches Ok(summary) && summary.verdict == Verdict::Failed
            && text.skip(summary.end) == lines_text(
            seq![first, middle, last],
            terminated,
        ),
        is_issue_line(first),
        is_issue_line(middle),
        is_issue_line(last),
        located_issue(first) is Some,
        located_issue(middle) is None,
        located_issue(last) is Some,
    ensures
        report(text) == Ok::<Seq<MsgView>, Mismatch>(
            seq![
                located_issue(first)->0,
                MsgView::UnlocatedIssue { text: middle },
                located_issue(last)->0,
            ],
        ),
        report_diagnostics(text) matches Ok(diagnostics) && ({
            &&& diagnostics.len() == 3
            &&& Some(diagnostics[0]) == located_issue(first)->0.diagnostic()
            &&& diagnostics[0].severity == Severity::Error && diagnostics[0].code is Some
            &&& diagnostics[1].severity == Severity::Error && diagnostics[1].code is None
                && diagnostics[1].message == middle
            &&& Some(diagnostics[2]) == located_issue(last)->0.diagnostic()
            &&& diagnostics[2].severity == Severity::Error && diagnostics[2].code is Some
        }),
{
    let lines = seq![first, middle, last];
    lemma_report_of_issue_lines(text, lines, terminated);
    assert(issues_of(lines) =~= seq![issue_of(first), issue_of(middle), issue_of(last)]);
    lemma_located_issue_diagnostic(first);
    lemma_located_issue_diagnostic(last);
}

/// Whether `name` can stand in a summary line as a file name: it is not
/// empty and holds no colon and no newline.
pub open spec fn is_file_name(name: Seq<char>) -> bool {
    name.len() > 0 && forall|i: int|
        0 <= i < name.len() ==> CharClass::FileName.contains(#[trigger] name[i])
}

/// The summary line that gives the file `name` the verdict `verdict`, with
/// its newline.
pub open spec fn summary_line(name: Seq<char>, verdict: Verdict) -> Seq<char> {
    name + seq![':', ' '] + verdict_tag(verdict) + seq!['!', '\n']
}

/// A text that begins with a summary line is read so from its start,
/// whatever the file's name is and whatever follows the line.
pub proof fn lemma_summary_line_is_read(name: Seq<char>, verdict: Verdict, rest: Seq<char>)
    requires
        is_file_name(name),
    ensures
        summary_in(summary_line(name, verdict) + rest, false) == Ok::<Summary, Mismatch>(
            Summary { verdict, end: summary_line(name, verdict).len() as int },
        ),
{
    reveal_strlit("OK");
    reveal_strlit("Error");
    let tag = verdict_tag(verdict);
    let text = summary_line(name, verdict) + rest;
    let colon = name.len() as int;
    assert forall|i: int| 0 <= i < colon implies CharClass::FileName.contains(
        #[trigger] text[i],
    ) by {
        assert(text[i] == name[i]);
    }
    assert(text[colon] == ':');
    lemma_run_end_is(text, 0, colon, CharClass::FileName);
    assert(text[colon + 1] == ' ');
    assert(text.subrange(colon + 2, colon + 2 + tag.len()) =~= tag);
    assert(text[colon + 2] == tag[0]);
    assert(text[colon + 2 + tag.len()] == '!');
    assert(text[colon + 3 + tag.len()] == '\n');
}

/// A text whose only newline, if it has one, is its last character is no
/// report when its first line is read as a header block: no summary line
/// follows.
proof fn lemma_one_line_has_no_header_block(text: Seq<char>)
    requires
        forall|i: int| 0 <= i < text.len() - 1 ==> CharClass::Line.contains(#[trigger] text[i]),
    ensures
        reading(text, true) is Err,
{
    if text.len() > 0 {
        let last = text.len() - 1;
        if CharClass::Line.contains(text[last]) {
            lemma_run_end_is(text, 0, text.len() as int, CharClass::Line);
        } else {
            lemma_run_end_is(text, 0, last, CharClass::Line);
        }
    }
}

/// A summary line holds one newline, and holds it at its end.
proof fn lemma_summary_line_is_one_line(name: Seq<char>, verdict: Verdict)
    requires
        is_file_name(name),
    ensures
        forall|i: int|
            0 <= i < summary_line(name, verdict).len() - 1 ==> CharClass::Line.contains(
                #[trigger] summary_line(name, verdict)[i],
            ),
{
    reveal_strlit("OK");
    reveal_strlit("Error");
    let text = summary_line(name, verdict);
    assert forall|i: int| 0 <= i < text.len() - 1 implies CharClass::Line.contains(
        #[trigger] text[i],
    ) by {
        if i < name.len() {
            assert(text[i] == name[i]);
        }
    }
}

/// A summary line alone is a report, whatever the file's name is, even one
/// that begins with the words of a header block: with `OK` it is exactly a
/// clean report, with `Error` a report without messages. Either way it asks
/// for no diagnostic.
pub proof fn lemma_summary_line_alone(name: Seq<char>, verdict: Verdict)
    requires
        is_file_name(name),
    ensures
        !reads_header(summary_line(name, verdict)),
        summary_of(summary_line(name, verdict)) == Ok::<Summary, Mismatch>(
            Summary { verdict, end: summary_line(name, verdict).len() as int },
        ),
        report(summary_line(name, verdict)) == Ok::<Seq<MsgView>, Mismatch>(
            match verdict {
                Verdict::Passed => seq![MsgView::Clean],
                Verdict::Failed => Seq::empty(),
            },
        ),
        report_diagnostics(summary_line(name, verdict)) == Ok::<Seq<DiagnosticView>, Mismatch>(
            Seq::empty(),
        ),
{
    let text = summary_line(name, verdict);
    lemma_summary_line_is_read(name, verdict, Seq::empty());
    assert(text + Seq::<char>::empty() =~= text);
    lemma_summary_line_is_one_line(name, verdict);
    lemma_one_line_has_no_header_block(text);
    if verdict == Verdict::Passed {
        lemma_clean_report(text);
    } else {
        lemma_failed_report_without_issues(text);
    }
}

/// A summary line that says `Error`, followed by issue lines up to the end of
/// the text, is a report with one message for each line, in the order of the
/// lines, unless its first line is read as a header block: no line makes it
/// a mismatch, and none costs another line its message.
pub proof fn lemma_summary_line_and_issue_lines(
    name: Seq<char>,
    lines: Seq<Seq<char>>,
    terminated: bool,
)
    requires
        is_file_name(name),
        forall|i: int| 0 <= i < lines.len() ==> is_issue_line(#[trigger] lines[i]),
        !reads_header(summary_line(name, Verdict::Failed) + lines_text(lines, terminated)),
    ensures
        report(summary_line(name, Verdict::Failed) + lines_text(lines, terminated)) == Ok::<
            Seq<MsgView>,
            Mismatch,
        >(issues_of(lines)),
{
    let line = summary_line(name, Verdict::Failed);
    let text = line + lines_text(lines, terminated);
    lemma_summary_line_is_read(name, Verdict::Failed, lines_text(lines, terminated));
    assert(text.skip(line.len() as int) =~= lines_text(lines, terminated));
    lemma_issue_lines(text, line.len() as int, lines, terminated);
}

} // verus!
