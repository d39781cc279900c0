use norminette_lsp::parser::{parse_issue, parse_located};
use norminette_lsp::scan::{read_number, scan_run, token_at, CharClass};
use norminette_lsp::{parse_norminette, NorminetteMsg};

fn chars(s: &str) -> Vec<char> {
    s.chars().collect()
}

/// The one message of a report whose only issue line is `line`.
fn issue(line: &str) -> NorminetteMsg {
    let mut msgs = parse_norminette(&format!("f.c: Error!\n{line}\n")).unwrap();
    assert_eq!(msgs.len(), 1);
    msgs.remove(0)
}

fn located(code: &str, line: i32, column: i32, text: &str) -> NorminetteMsg {
    NorminetteMsg::LocatedIssue {
        code: code.to_string(),
        line,
        column,
        text: text.to_string(),
    }
}

fn unlocated(text: &str) -> NorminetteMsg {
    NorminetteMsg::UnlocatedIssue { text: text.to_string() }
}

#[test]
fn spaces_and_tabs_between_the_parts() {
    assert_eq!(issue("Error: A (line: 1, col: 2): m"), located("A", 1, 2, "m"));
    assert_eq!(issue("Error:\tA\t(line:1,col:2):m"), located("A", 1, 2, "m"));
    assert_eq!(
        issue("Error:  \t A_b \t (line: \t 10 , col:  20):  \t m n "),
        unlocated("Error:  \t A_b \t (line: \t 10 , col:  20):  \t m n ")
    );
    assert_eq!(
        issue("Error:  \t A_b \t (line: \t 10,  \tcol:  20):  \t m n "),
        located("A_b", 10, 20, "m n ")
    );
    assert_eq!(
        issue("Error: INVALID_HEADER       (line:   1, col:   1):\tMissing or invalid 42 header"),
        located("INVALID_HEADER", 1, 1, "Missing or invalid 42 header")
    );
}

#[test]
fn message_may_be_empty() {
    assert_eq!(issue("Error: A (line: 1, col: 2):"), located("A", 1, 2, ""));
    assert_eq!(issue("Error: A (line: 1, col: 2):  "), located("A", 1, 2, ""));
}

#[test]
fn missing_parts_make_an_unlocated_issue() {
    for line in [
        "Error",
        "Error:",
        "Error: ",
        "Error:A (line: 1, col: 2): m",
        "Error: (line: 1, col: 2): m",
        "Error: A(line: 1, col: 2): m",
        "Error: A1 (line: 1, col: 2): m",
        "Error: A-B (line: 1, col: 2): m",
        "Error: A (Line: 1, col: 2): m",
        "Error: A ( line: 1, col: 2): m",
        "Error: A (line: , col: 2): m",
        "Error: A (line: x, col: 2): m",
        "Error: A (line: 1 col: 2): m",
        "Error: A (line: 1; col: 2): m",
        "Error: A (line: 1, column: 2): m",
        "Error: A (line: 1, col: ): m",
        "Error: A (line: 1, col: 2) m",
        "Error: A (line: 1, col: 2 ): m",
        "Error: A (line: 1, col: 2)",
        "error: A (line: 1, col: 2): m",
        "Notice: A (line: 1, col: 2): m",
        "Warning!",
    ] {
        assert_eq!(issue(line), unlocated(line), "{line}");
    }
}

#[test]
fn numbers_out_of_range_make_an_unlocated_issue() {
    for line in [
        "Error: A (line: 0, col: 2): m",
        "Error: A (line: -1, col: 2): m",
        "Error: A (line: 1, col: -1): m",
        "Error: A (line: 2147483648, col: 2): m",
        "Error: A (line: 1, col: 2147483648): m",
        "Error: A (line: 99999999999999999999999999, col: 2): m",
        "Error: A (line: -2147483649, col: 2): m",
        "Error: A (line: +-1, col: 2): m",
        "Error: A (line: +, col: 2): m",
    ] {
        assert_eq!(issue(line), unlocated(line), "{line}");
    }
}

#[test]
fn numbers_may_have_a_sign_and_leading_zeros() {
    assert_eq!(issue("Error: A (line: +12, col: +3): m"), located("A", 12, 3, "m"));
    assert_eq!(issue("Error: A (line: 0012, col: 000): m"), located("A", 12, 0, "m"));
    assert_eq!(issue("Error: A (line: 1, col: -0): m"), located("A", 1, 0, "m"));
    assert_eq!(
        issue("Error: A (line: 2147483647, col: 2147483647): m"),
        located("A", 2147483647, 2147483647, "m")
    );
    assert_eq!(
        issue("Error: A (line: 00000000000000000002147483647, col: 0): m"),
        located("A", 2147483647, 0, "m")
    );
}

#[test]
fn scan_run_stops_at_the_first_character_outside_the_class() {
    let text = chars("  \t x_Yz9:\nrest");
    assert_eq!(scan_run(&text, 0, CharClass::Space), 4);
    assert_eq!(scan_run(&text, 4, CharClass::Space), 4);
    assert_eq!(scan_run(&text, 4, CharClass::Code), 8);
    assert_eq!(scan_run(&text, 8, CharClass::Digit), 9);
    assert_eq!(scan_run(&text, 0, CharClass::FileName), 9);
    assert_eq!(scan_run(&text, 0, CharClass::Line), 10);
    assert_eq!(scan_run(&text, 10, CharClass::Line), 10);
    assert_eq!(scan_run(&text, 11, CharClass::Line), 15);
    assert_eq!(scan_run(&text, 15, CharClass::Line), 15);
}

#[test]
fn character_classes() {
    for c in ['a', 'z', 'A', 'Z', 'm', '_'] {
        assert!(CharClass::Code.has(c));
    }
    for c in ['0', '-', ' ', 'é', '`', '{', '@', '['] {
        assert!(!CharClass::Code.has(c));
    }
    for c in ['0', '5', '9'] {
        assert!(CharClass::Digit.has(c));
    }
    for c in ['/', ':', 'a', '٣'] {
        assert!(!CharClass::Digit.has(c));
    }
    assert!(CharClass::Space.has(' ') && CharClass::Space.has('\t'));
    assert!(!CharClass::Space.has('\n') && !CharClass::Space.has('\r') && !CharClass::Space.has('x'));
    assert!(CharClass::FileName.has('/') && CharClass::FileName.has(' '));
    assert!(!CharClass::FileName.has(':') && !CharClass::FileName.has('\n'));
    assert!(CharClass::Line.has(':') && CharClass::Line.has('\r') && !CharClass::Line.has('\n'));
}

#[test]
fn token_at_finds_a_token_only_where_it_stands() {
    let text = chars("abc(line:x");
    assert_eq!(token_at(&text, 3, "(line:"), Some(9));
    assert_eq!(token_at(&text, 2, "(line:"), None);
    assert_eq!(token_at(&text, 4, "(line:"), None);
    assert_eq!(token_at(&text, 9, "x"), Some(10));
    assert_eq!(token_at(&text, 9, "xy"), None);
    assert_eq!(token_at(&text, 10, "x"), None);
    assert_eq!(token_at(&text, 10, ""), Some(10));
    assert_eq!(token_at(&text, 0, "abd"), None);
}

#[test]
fn read_number_reads_a_signed_decimal_number() {
    assert_eq!(read_number(&chars("12, col"), 0), Some((12, 2)));
    assert_eq!(read_number(&chars("x12"), 1), Some((12, 3)));
    assert_eq!(read_number(&chars("-12"), 0), Some((-12, 3)));
    assert_eq!(read_number(&chars("+12"), 0), Some((12, 3)));
    assert_eq!(read_number(&chars("007"), 0), Some((7, 3)));
    assert_eq!(read_number(&chars("0"), 0), Some((0, 1)));
    assert_eq!(read_number(&chars("2147483647"), 0), Some((2147483647, 10)));
    assert_eq!(read_number(&chars("-2147483648"), 0), Some((-2147483648, 11)));
    assert_eq!(read_number(&chars("2147483648"), 0), None);
    assert_eq!(read_number(&chars("-2147483649"), 0), None);
    assert_eq!(read_number(&chars("21474836470"), 0), None);
    assert_eq!(read_number(&chars(""), 0), None);
    assert_eq!(read_number(&chars("-"), 0), None);
    assert_eq!(read_number(&chars("+x"), 0), None);
    assert_eq!(read_number(&chars("x"), 0), None);
    assert_eq!(read_number(&chars(" 1"), 0), None);
    assert_eq!(read_number(&chars("12"), 2), None);
}

#[test]
fn parse_located_reads_one_line() {
    assert_eq!(
        parse_located(&chars("Error: SPACE_BEFORE_FUNC   (line: 12, col: 3):\tspace before function")),
        Some(located("SPACE_BEFORE_FUNC", 12, 3, "space before function"))
    );
    assert_eq!(
        parse_located(&chars("Error: A (line: 1, col: 0): m: n (line: 2, col: 3): o")),
        Some(located("A", 1, 0, "m: n (line: 2, col: 3): o"))
    );
    assert_eq!(parse_located(&chars("Error: A (line: 0, col: 0): m")), None);
    assert_eq!(parse_located(&chars("Notice: A (line: 1, col: 0): m")), None);
    assert_eq!(parse_located(&chars(" Error: A (line: 1, col: 0): m")), None);
    assert_eq!(parse_located(&chars("")), None);
}

#[test]
fn parse_issue_keeps_a_line_that_is_no_located_issue() {
    assert_eq!(
        parse_issue(&chars("Error: A_B (line: 7, col: 9): text")),
        located("A_B", 7, 9, "text")
    );
    assert_eq!(
        parse_issue(&chars("Error: A_B (line: 7, col 9): text")),
        unlocated("Error: A_B (line: 7, col 9): text")
    );
    assert_eq!(parse_issue(&chars("  anything \t")), unlocated("  anything \t"));
    assert_eq!(parse_issue(&chars("")), unlocated(""));
}
