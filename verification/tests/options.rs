use norminette_lsp::options::decimal_string;
use norminette_lsp::InitOptions;

fn options(offset: Option<i32>) -> InitOptions {
    InitOptions {
        path: "/usr/bin/header".to_string(),
        name: "marvin".to_string(),
        email: "marvin@example.org".to_string(),
        offset,
    }
}

#[test]
fn header_arguments_name_author_file_and_offset() {
    assert_eq!(
        options(Some(7)).header_arguments("/tmp/file.c"),
        vec!["--name", "marvin", "--email", "marvin@example.org", "--path", "/tmp/file.c", "--offset", "7"]
    );
}

#[test]
fn header_arguments_default_to_offset_zero() {
    assert_eq!(
        options(None).header_arguments("a b.c"),
        vec!["--name", "marvin", "--email", "marvin@example.org", "--path", "a b.c", "--offset", "0"]
    );
}

#[test]
fn header_arguments_keep_a_negative_offset() {
    assert_eq!(options(Some(-3)).header_arguments("f.c")[7], "-3");
}

#[test]
fn decimal_string_writes_as_the_standard_library_does() {
    for n in [0, 1, 9, 10, 11, 99, 100, 101, 1000, 12345, -1, -9, -10, -100, -12345, i32::MAX, i32::MIN, i32::MAX - 1, i32::MIN + 1] {
        assert_eq!(decimal_string(n), format!("{}", n));
    }
    assert_eq!(decimal_string(2147483647), "2147483647");
    assert_eq!(decimal_string(-2147483648), "-2147483648");
    assert_eq!(decimal_string(0), "0");
    assert_eq!(decimal_string(-405), "-405");
}
