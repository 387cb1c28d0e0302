use cli_shell::io::{concat_texts, count_lines};

#[test]
fn test_count_lines() {
    let data = b"line1\nline2\nline3\n";
    let count = count_lines(data);
    assert_eq!(count, 3);
}

#[test]
fn test_count_lines_without_trailing_newline() {
    assert_eq!(count_lines(b""), 0);
    assert_eq!(count_lines(b"only"), 1);
    assert_eq!(count_lines(b"a\nb"), 2);
}

#[test]
fn test_concat_texts_in_order() {
    let parts = vec!["first\n".to_string(), "".to_string(), "second".to_string()];
    assert_eq!(concat_texts(&parts), "first\nsecond");
}
