use norminette_lsp::{Diagnostic, NorminetteMsg, Position, Range, Severity, REST_OF_LINE, SOURCE};

fn range(start: (u32, u32), end: (u32, u32)) -> Range {
    Range {
        start: Position { line: start.0, character: start.1 },
        end: Position { line: end.0, character: end.1 },
    }
}

#[test]
fn find_range_of_a_located_issue() {
    let msg = NorminetteMsg::LocatedIssue {
        code: "SPACE_BEFORE_FUNC".to_string(),
        line: 12,
        column: 3,
        text: "space before function".to_string(),
    };
    assert_eq!(msg.find_range(), Some(range((11, 3), (11, 6))));
}

#[test]
fn find_range_of_a_located_issue_at_the_limits() {
    let first = NorminetteMsg::LocatedIssue {
        code: "A".to_string(),
        line: 1,
        column: 0,
        text: String::new(),
    };
    assert_eq!(first.find_range(), Some(range((0, 0), (0, 3))));
    let last = NorminetteMsg::LocatedIssue {
        code: "A".to_string(),
        line: i32::MAX,
        column: i32::MAX,
        text: String::new(),
    };
    assert_eq!(
        last.find_range(),
        Some(range((2147483646, 2147483647), (2147483646, 2147483650)))
    );
}

#[test]
fn find_range_of_a_header_warning_with_a_line() {
    let msg = NorminetteMsg::HeaderWarning { line: Some(1), text: "header".to_string() };
    assert_eq!(msg.find_range(), Some(range((0, 0), (1, 0))));
    let msg = NorminetteMsg::HeaderWarning { line: Some(40), text: "header".to_string() };
    assert_eq!(msg.find_range(), Some(range((39, 0), (40, 0))));
}

#[test]
fn find_range_without_a_place() {
    let msg = NorminetteMsg::HeaderWarning { line: None, text: "header".to_string() };
    assert_eq!(msg.find_range(), Some(range((0, 0), (1, REST_OF_LINE))));
    let msg = NorminetteMsg::UnlocatedIssue { text: "whatever".to_string() };
    assert_eq!(msg.find_range(), Some(range((0, 0), (1, 4294967295))));
}

#[test]
fn find_range_of_a_clean_report() {
    assert_eq!(NorminetteMsg::Clean.find_range(), None);
}

#[test]
fn ranges_never_end_before_they_start() {
    let msgs = vec![
        NorminetteMsg::HeaderWarning { line: None, text: String::new() },
        NorminetteMsg::HeaderWarning { line: Some(1), text: String::new() },
        NorminetteMsg::HeaderWarning { line: Some(i32::MAX), text: String::new() },
        NorminetteMsg::UnlocatedIssue { text: String::new() },
        NorminetteMsg::LocatedIssue { code: String::new(), line: 1, column: 0, text: String::new() },
        NorminetteMsg::LocatedIssue { code: String::new(), line: 7, column: i32::MAX, text: String::new() },
    ];
    for msg in msgs {
        let range = msg.find_range().unwrap();
        assert!((range.start.line, range.start.character) <= (range.end.line, range.end.character));
    }
}

#[test]
fn to_diagnostic_of_each_kind_of_message() {
    assert_eq!(NorminetteMsg::Clean.to_diagnostic(), None);
    assert_eq!(
        NorminetteMsg::HeaderWarning { line: Some(2), text: "no header".to_string() }.to_diagnostic(),
        Some(Diagnostic {
            range: range((1, 0), (2, 0)),
            severity: Severity::Information,
            code: None,
            source: "norminette".to_string(),
            message: "no header".to_string(),
        })
    );
    assert_eq!(
        NorminetteMsg::LocatedIssue {
            code: "TOO_MANY_ARGS".to_string(),
            line: 4,
            column: 0,
            text: "too many arguments".to_string(),
        }
        .to_diagnostic(),
        Some(Diagnostic {
            range: range((3, 0), (3, 3)),
            severity: Severity::Error,
            code: Some("TOO_MANY_ARGS".to_string()),
            source: SOURCE.to_string(),
            message: "too many arguments".to_string(),
        })
    );
    assert_eq!(
        NorminetteMsg::UnlocatedIssue { text: "  odd line ".to_string() }.to_diagnostic(),
        Some(Diagnostic {
            range: range((0, 0), (1, u32::MAX)),
            severity: Severity::Error,
            code: None,
            source: "norminette".to_string(),
            message: "  odd line ".to_string(),
        })
    );
}

#[test]
fn well_formed_messages_hold_lines_from_one_and_columns_from_zero() {
    let issue = |line: i32, column: i32| NorminetteMsg::LocatedIssue {
        code: "A".to_string(),
        line,
        column,
        text: String::new(),
    };
    assert!(issue(1, 0).is_wf());
    assert!(issue(i32::MAX, i32::MAX).is_wf());
    assert!(!issue(0, 0).is_wf());
    assert!(!issue(-1, 0).is_wf());
    assert!(!issue(1, -1).is_wf());
    assert!(NorminetteMsg::Clean.is_wf());
    assert!(NorminetteMsg::UnlocatedIssue { text: String::new() }.is_wf());
    assert!(NorminetteMsg::HeaderWarning { line: None, text: String::new() }.is_wf());
    assert!(NorminetteMsg::HeaderWarning { line: Some(1), text: String::new() }.is_wf());
    assert!(!NorminetteMsg::HeaderWarning { line: Some(0), text: String::new() }.is_wf());
}
