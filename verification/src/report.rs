//! From a report to the diagnostics that it asks for.

use vstd::prelude::*;
use vstd::string::StringSliceAdditionalSpecFns;
use vstd::utf8::{decode_utf8, encode_utf8_decode_utf8, valid_utf8};
use crate::diagnostic::{diagnostic_views, Diagnostic, DiagnosticView};
use crate::grammar::{report, Mismatch};
use crate::norminette_msg::{msg_views, MsgView, NorminetteMsg};
use crate::parser::{parse_norminette, GrammarMismatch};

verus! {

/// Why the output of a linter run gave no diagnostics.
#[derive(Clone, Copy, Debug, PartialEq, Eq)]
pub enum ReportError {
    /// The output is not text: its bytes are not valid UTF-8.
    IoFailure,
    /// The output is text, but no report.
    GrammarMismatch(GrammarMismatch),
}

/// The diagnostics for a sequence of messages: one for each message that
/// gets one, in the order of the messages.
pub open spec fn diagnostics_of(msgs: Seq<MsgView>) -> Seq<DiagnosticView> {
    msgs.filter_map(|m: MsgView| m.diagnostic())
}

/// The diagnostics that the report `text` asks for, or where it stops being
/// a report.
pub open spec fn report_diagnostics(text: Seq<char>) -> Result<Seq<DiagnosticView>, Mismatch> {
    match report(text) {
        Ok(msgs) => Ok(diagnostics_of(msgs)),
        Err(mismatch) => Err(mismatch),
    }
}

/// Whether `outcome` is what reading the text `text` gives: the diagnostics
/// that the report asks for, or the place of its mismatch counted in bytes.
pub open spec fn diagnoses_to(
    text: Seq<char>,
    outcome: Result<Vec<Diagnostic>, GrammarMismatch>,
) -> bool {
    match outcome {
        Ok(diagnostics) => report_diagnostics(text) == Ok::<Seq<DiagnosticView>, Mismatch>(
            diagnostic_views(diagnostics@),
        ),
        Err(mismatch) => report_diagnostics(text) is Err && mismatch.describes(
            text,
            report_diagnostics(text)->Err_0,
        ),
    }
}

/// Turns messages into diagnostics.
///
/// Every message but a clean report's gives one diagnostic; the diagnostics
/// stand in the order of their messages.
pub fn to_diagnostics(msgs: Vec<NorminetteMsg>) -> (diagnostics: Vec<Diagnostic>)
    requires
        forall|i: int| 0 <= i < msgs.len() ==> (#[trigger] msgs[i]).wf(),
    ensures
        diagnostic_views(diagnostics@) == diagnostics_of(msg_views(msgs@)),
        forall|i: int| 0 <= i < diagnostics.len() ==> (#[trigger] diagnostics[i]).range.wf(),
{
    let ghost all = msg_views(msgs@);
    let mut diagnostics: Vec<Diagnostic> = Vec::new();
    for msg in it: msgs
        invariant
            it.seq() == msgs@,
            all == msg_views(msgs@),
            forall|i: int| 0 <= i < msgs.len() ==> (#[trigger] msgs[i]).wf(),
            diagnostic_views(diagnostics@) == diagnostics_of(all.take(it.index() as int)),
            forall|i: int| 0 <= i < diagnostics.len() ==> (#[trigger] diagnostics[i]).range.wf(),
    {
        proof {
            all.lemma_filter_map_take_succ(|m: MsgView| m.diagnostic(), it.index() as int);
        }
        if let Some(diagnostic) = msg.to_diagnostic() {
            diagnostics.push(diagnostic);
        }
    }
    assert(all.take(all.len() as int) =~= all);
    diagnostics
}

/// The diagnostics for the report that the linter printed for one file.
///
/// A text that does not fit the grammar gives no diagnostics at all, but the
/// place where it stops fitting.
pub fn diagnose(s: &str) -> (diagnostics: Result<Vec<Diagnostic>, GrammarMismatch>)
    ensures
        diagnoses_to(s@, diagnostics),
        diagnostics matches Ok(diagnostics) ==> forall|i: int|
            0 <= i < diagnostics.len() ==> (#[trigger] diagnostics[i]).range.wf(),
{
    match parse_norminette(s) {
        Ok(msgs) => Ok(to_diagnostics(msgs)),
        Err(mismatch) => Err(mismatch),
    }
}

/// `std::str::from_utf8` of the standard library: it accepts exactly the byte
/// sequences that are valid UTF-8, and the string slice that it gives is made
/// of the bytes that it was given.
#[verifier::external_body]
fn text_of(bytes: &[u8]) -> (text: Option<&str>)
    ensures
        text is Some <==> valid_utf8(bytes@),
        text matches Some(s) ==> s.spec_bytes() == bytes@,
{
    std::str::from_utf8(bytes).ok()
}

/// The diagnostics for what a linter run wrote to its standard output.
///
/// Output that is not valid UTF-8 is refused before any of it is read as a
/// report. Otherwise the output is read as the text that its bytes encode;
/// the offset of a mismatch is then an offset into `output`.
pub fn read_norminette(output: &[u8]) -> (diagnostics: Result<Vec<Diagnostic>, ReportError>)
    ensures
        match diagnostics {
            Ok(diagnostics) => valid_utf8(output@) && diagnoses_to(
                decode_utf8(output@),
                Ok(diagnostics),
            ),
            Err(ReportError::IoFailure) => !valid_utf8(output@),
            Err(ReportError::GrammarMismatch(mismatch)) => valid_utf8(output@) && diagnoses_to(
                decode_utf8(output@),
                Err(mismatch),
            ),
        },
        diagnostics matches Ok(diagnostics) ==> forall|i: int|
            0 <= i < diagnostics.len() ==> (#[trigger] diagnostics[i]).range.wf(),
{
    match text_of(output) {
        None => Err(ReportError::IoFailure),
        Some(text) => {
            proof {
                encode_utf8_decode_utf8(text@);
            }
            match diagnose(text) {
                Ok(diagnostics) => Ok(diagnostics),
                Err(mismatch) => Err(ReportError::GrammarMismatch(mismatch)),
            }
        },
    }
}

} // verus!
