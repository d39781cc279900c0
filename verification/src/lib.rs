//! Reads the report that the norminette linter prints for one source file and
//! turns it into diagnostics that an editor can place in that file.
//!
//! * [`grammar`] says what a report is: functions from a text to the messages
//!   that it holds, or to the place where it stops being a report.
//! * [`parse_norminette`] reads a text by that grammar into
//!   [`NorminetteMsg`]s.
//! * [`NorminetteMsg::find_range`] and [`NorminetteMsg::to_diagnostic`] say
//!   where and how a message is shown; [`to_diagnostics`] does so for a whole
//!   report.
//! * [`diagnose`] reads and shows in one step, and [`read_norminette`] starts
//!   from the bytes that a linter run wrote.
//! * [`theorems`] holds what is proved of every report.
//! * [`options`] holds what the editor configures, and how the tool that
//!   writes file headers is called with it.

pub mod diagnostic;
pub mod grammar;
pub mod norminette_msg;
pub mod options;
pub mod parser;
pub mod report;
pub mod scan;
mod text;
pub mod theorems;

pub use diagnostic::{Diagnostic, DiagnosticView, Position, Range, Severity, REST_OF_LINE, SOURCE};
pub use grammar::Expected;
pub use norminette_msg::{MsgView, NorminetteMsg};
pub use options::InitOptions;
pub use parser::{parse_norminette, GrammarMismatch};
pub use report::{diagnose, read_norminette, to_diagnostics, ReportError};
