//! The parser: reads a report by the grammar.

use vstd::prelude::*;
use vstd::slice::slice_subrange;
use vstd::string::StrSliceExecFns;
use vstd::utf8::encode_utf8;
use crate::grammar::{
    issue_of, issues_at, located_issue, next_line, reading, report, summary_at, Expected,
    Mismatch, Summary, Verdict, COLUMN_TAG, ERROR_TAG, HEADER_TAG, ISSUE_TAG, LINE_TAG, OK_TAG,
    PLACE_END_TAG,
};
use crate::norminette_msg::{msg_views, MsgView, NorminetteMsg};
use crate::scan::{lemma_run_end_holds, read_number, scan_run, token_at, CharClass};
use crate::text::string_of;

verus! {

/// A report that does not fit the grammar: the offset in bytes at which it
/// stops fitting, and what should have stood there.
#[derive(Clone, Copy, Debug, PartialEq, Eq)]
pub struct GrammarMismatch {
    pub offset: usize,
    pub expected: Expected,
}

/// The number of bytes that the first `at` characters of `text` take in
/// UTF-8.
pub open spec fn byte_offset(text: Seq<char>, at: int) -> nat {
    encode_utf8(text.take(at)).len()
}

impl GrammarMismatch {
    /// Whether this is the mismatch `mismatch` of the text `text`, with the
    /// place counted in bytes.
    pub open spec fn describes(self, text: Seq<char>, mismatch: Mismatch) -> bool {
        self.expected == mismatch.expected && self.offset == byte_offset(text, mismatch.at)
    }
}

/// Whether `outcome` is what reading the text `text` as a report gives: the
/// report's messages, or the place of its mismatch counted in bytes.
pub open spec fn parses_to(
    text: Seq<char>,
    outcome: Result<Vec<NorminetteMsg>, GrammarMismatch>,
) -> bool {
    match outcome {
        Ok(msgs) => report(text) == Ok::<Seq<MsgView>, Mismatch>(msg_views(msgs@)),
        Err(mismatch) => report(text) is Err && mismatch.describes(text, report(text)->Err_0),
    }
}

/// The characters of `s`, in order.
fn chars_of(s: &str) -> (chars: Vec<char>)
    ensures
        chars@ == s@,
{
    let mut chars: Vec<char> = Vec::new();
    for c in it: s.chars()
        invariant
            chars@ == it.seq().take(it.index() as int),
    {
        chars.push(c);
    }
    chars
}

/// The located issue that `line` holds, if it holds one. `line` is one line
/// of a report, without its newline.
pub fn parse_located(line: &[char]) -> (msg: Option<NorminetteMsg>)
    ensures
        match msg {
            Some(m) => located_issue(line@) == Some(m@) && m.wf(),
            None => located_issue(line@) is None,
        },
{
    let tag_end = token_at(line, 0, ISSUE_TAG)?;
    let code_start = scan_run(line, tag_end, CharClass::Space);
    let code_end = scan_run(line, code_start, CharClass::Code);
    let place = scan_run(line, code_end, CharClass::Space);
    if code_start == tag_end || code_end == code_start || place == code_end {
        return None;
    }
    let place_end = token_at(line, place, LINE_TAG)?;
    let row_start = scan_run(line, place_end, CharClass::Space);
    let (row, row_end) = read_number(line, row_start)?;
    if row_end >= line.len() || line[row_end] != ',' {
        return None;
    }
    let column_tag = scan_run(line, row_end + 1, CharClass::Space);
    let column_tag_end = token_at(line, column_tag, COLUMN_TAG)?;
    let column_start = scan_run(line, column_tag_end, CharClass::Space);
    let (column, column_end) = read_number(line, column_start)?;
    let close_end = token_at(line, column_end, PLACE_END_TAG)?;
    let message = scan_run(line, close_end, CharClass::Space);
    if row < 1 || column < 0 {
        return None;
    }
    Some(
        NorminetteMsg::LocatedIssue {
            code: string_of(line, code_start, code_end),
            line: row,
            column,
            text: string_of(line, message, line.len()),
        },
    )
}

/// The message that the issue line `line` stands for: the located issue that
/// it holds, or else the whole line as an unlocated issue.
pub fn parse_issue(line: &[char]) -> (msg: NorminetteMsg)
    ensures
        msg@ == issue_of(line@),
        msg.wf(),
{
    match parse_located(line) {
        Some(issue) => issue,
        None => {
            assert(line@.subrange(0, line@.len() as int) =~= line@);
            NorminetteMsg::UnlocatedIssue { text: string_of(line, 0, line.len()) }
        },
    }
}

/// The summary line that begins at index `start`.
fn parse_summary(text: &[char], start: usize) -> (summary: Result<
    (Verdict, usize),
    (usize, Expected),
>)
    requires
        start <= text.len(),
    ensures
        match summary {
            Ok((verdict, end)) => summary_at(text@, start as int) == Ok::<Summary, Mismatch>(
                Summary { verdict, end: end as int },
            ) && end <= text.len(),
            Err((at, expected)) => summary_at(text@, start as int) == Err::<Summary, Mismatch>(
                Mismatch { at: at as int, expected },
            ) && at <= text.len(),
        },
{
    let colon = scan_run(text, start, CharClass::FileName);
    if colon == start {
        return Err((colon, Expected::FileName));
    }
    if colon >= text.len() || text[colon] != ':' {
        return Err((colon, Expected::Colon));
    }
    if colon + 1 >= text.len() || !CharClass::Space.has(text[colon + 1]) {
        return Err((colon + 1, Expected::Space));
    }
    let (verdict, bang) = match token_at(text, colon + 2, OK_TAG) {
        Some(end) => (Verdict::Passed, end),
        None => match token_at(text, colon + 2, ERROR_TAG) {
            Some(end) => (Verdict::Failed, end),
            None => {
                return Err((colon + 2, Expected::Verdict));
            },
        },
    };
    if bang >= text.len() || text[bang] != '!' {
        return Err((bang, Expected::Bang));
    }
    if bang + 1 >= text.len() || text[bang + 1] != '\n' {
        return Err((bang + 1, Expected::Newline));
    }
    Ok((verdict, bang + 2))
}

/// What [`issues_at`] gives for a text whose first lines stand for `done` and
/// whose other lines give `rest`.
spec fn after(done: Seq<MsgView>, rest: Result<Seq<MsgView>, Mismatch>) -> Result<
    Seq<MsgView>,
    Mismatch,
> {
    match rest {
        Ok(issues) => Ok(done + issues),
        Err(mismatch) => Err(mismatch),
    }
}

/// The issues that the lines of `text` from index `from` on stand for.
fn parse_issues(text: &[char], from: usize) -> (issues: Result<
    Vec<NorminetteMsg>,
    (usize, Expected),
>)
    requires
        from <= text.len(),
    ensures
        match issues {
            Ok(msgs) => issues_at(text@, from as int) == Ok::<Seq<MsgView>, Mismatch>(
                msg_views(msgs@),
            ) && forall|i: int| 0 <= i < msgs.len() ==> (#[trigger] msgs[i]).wf(),
            Err((at, expected)) => issues_at(text@, from as int) == Err::<Seq<MsgView>, Mismatch>(
                Mismatch { at: at as int, expected },
            ) && at <= text.len(),
        },
{
    let mut msgs: Vec<NorminetteMsg> = Vec::new();
    let mut at: usize = from;
    while at < text.len()
        invariant
            from <= at <= text.len(),
            issues_at(text@, from as int) == after(msg_views(msgs@), issues_at(text@, at as int)),
            forall|i: int| 0 <= i < msgs.len() ==> (#[trigger] msgs[i]).wf(),
        decreases text.len() - at,
    {
        if !CharClass::Line.has(text[at]) || CharClass::Space.has(text[at]) {
            return Err((at, Expected::IssueLine));
        }
        let end = scan_run(text, at, CharClass::Line);
        let msg = parse_issue(slice_subrange(text, at, end));
        proof {
            let rest = issues_at(text@, next_line(text@, at as int));
            let done = msg_views(msgs@);
            assert(msg_views(msgs@.push(msg)) =~= done.push(msg@));
            if let Ok(issues) = rest {
                assert(done + (seq![msg@] + issues) =~= done.push(msg@) + issues);
            }
        }
        msgs.push(msg);
        at = if end < text.len() {
            end + 1
        } else {
            end
        };
    }
    Ok(msgs)
}

/// The messages of the text `text`, read with a header block (`headed`) or
/// without one.
fn parse_reading(text: &[char], headed: bool) -> (msgs: Result<
    Vec<NorminetteMsg>,
    (usize, Expected),
>)
    ensures
        match msgs {
            Ok(msgs) => reading(text@, headed) == Ok::<Seq<MsgView>, Mismatch>(msg_views(msgs@))
                && forall|i: int| 0 <= i < msgs.len() ==> (#[trigger] msgs[i]).wf(),
            Err((at, expected)) => reading(text@, headed) == Err::<Seq<MsgView>, Mismatch>(
                Mismatch { at: at as int, expected },
            ) && at <= text.len(),
        },
{
    let header_end = scan_run(text, 0, CharClass::Line);
    proof {
        lemma_run_end_holds(text@, 0, CharClass::Line);
    }
    let start: usize = if !headed {
        0
    } else if header_end < text.len() {
        header_end + 1
    } else {
        return Err((header_end, Expected::Newline));
    };
    let (verdict, body) = match parse_summary(text, start) {
        Ok(summary) => summary,
        Err(mismatch) => {
            return Err(mismatch);
        },
    };
    match verdict {
        Verdict::Passed => {
            if body == text.len() {
                let mut msgs: Vec<NorminetteMsg> = Vec::new();
                msgs.push(NorminetteMsg::Clean);
                assert(msg_views(msgs@) =~= seq![MsgView::Clean]);
                Ok(msgs)
            } else {
                Err((body, Expected::EndOfInput))
            }
        },
        Verdict::Failed => {
            let mut msgs = match parse_issues(text, body) {
                Ok(msgs) => msgs,
                Err(mismatch) => {
                    return Err(mismatch);
                },
            };
            if headed && msgs.len() > 0 {
                let warning = NorminetteMsg::HeaderWarning {
                    line: None,
                    text: string_of(text, 0, header_end),
                };
                assert(msg_views(msgs@.insert(0, warning)) =~= seq![warning@] + msg_views(msgs@));
                msgs.insert(0, warning);
            }
            Ok(msgs)
        },
    }
}

/// The messages of the report `text`.
fn parse_report(text: &[char]) -> (msgs: Result<Vec<NorminetteMsg>, (usize, Expected)>)
    ensures
        match msgs {
            Ok(msgs) => report(text@) == Ok::<Seq<MsgView>, Mismatch>(msg_views(msgs@))
                && forall|i: int| 0 <= i < msgs.len() ==> (#[trigger] msgs[i]).wf(),
            Err((at, expected)) => report(text@) == Err::<Seq<MsgView>, Mismatch>(
                Mismatch { at: at as int, expected },
            ) && at <= text.len(),
        },
{
    if token_at(text, 0, HEADER_TAG).is_none() {
        return parse_reading(text, false);
    }
    match parse_reading(text, true) {
        Ok(msgs) => Ok(msgs),
        Err(mismatch) => match parse_reading(text, false) {
            Ok(msgs) => Ok(msgs),
            Err(_) => Err(mismatch),
        },
    }
}

/// Reads the report that the linter printed for one file.
///
/// Gives the report's messages in the order of the report, each of them well
/// formed, exactly as the grammar's [`report`] says; or, for a text that does
/// not fit the grammar, the first place where it does not, counted in bytes
/// from the start of the text, and what should have stood there.
pub fn parse_norminette(s: &str) -> (msgs: Result<Vec<NorminetteMsg>, GrammarMismatch>)
    ensures
        parses_to(s@, msgs),
        msgs matches Ok(msgs) ==> forall|i: int|
            0 <= i < msgs.len() ==> (#[trigger] msgs[i]).wf(),
{
    let chars = chars_of(s);
    match parse_report(chars.as_slice()) {
        Ok(msgs) => Ok(msgs),
        Err((at, expected)) => {
            let offset = s.substring_char(0, at).as_bytes().len();
            Err(GrammarMismatch { offset, expected })
        },
    }
}

} // verus!
