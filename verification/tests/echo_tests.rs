use cli_shell::echo::{interpret_escapes, process_echo, EchoArgs};

#[test]
fn test_interpret_escapes_newline() {
    assert_eq!(interpret_escapes("hello\\nworld"), "hello\nworld");
}

#[test]
fn test_interpret_escapes_tab() {
    assert_eq!(interpret_escapes("hello\\tworld"), "hello\tworld");
}

#[test]
fn test_interpret_escapes_backslash() {
    assert_eq!(interpret_escapes("hello\\\\world"), "hello\\world");
}

#[test]
fn test_interpret_escapes_multiple() {
    assert_eq!(interpret_escapes("a\\nb\\tc\\rd"), "a\nb\tc\rd");
}

#[test]
fn test_interpret_escapes_unknown() {
    assert_eq!(interpret_escapes("hello\\xworld"), "hello\\xworld");
}

#[test]
fn test_interpret_escapes_trailing_backslash() {
    assert_eq!(interpret_escapes("hello\\"), "hello\\");
}

#[test]
fn test_process_echo_no_escape() {
    let args = EchoArgs {
        no_newline: false,
        escape: false,
        no_escape: false,
        text: vec!["hello\\nworld".to_string()],
    };
    assert_eq!(process_echo(&args).unwrap(), "hello\\nworld");
}

#[test]
fn test_process_echo_with_escape() {
    let args = EchoArgs {
        no_newline: false,
        escape: true,
        no_escape: false,
        text: vec!["hello\\nworld".to_string()],
    };
    assert_eq!(process_echo(&args).unwrap(), "hello\nworld");
}

#[test]
fn test_process_echo_explicit_no_escape() {
    let args = EchoArgs {
        no_newline: false,
        escape: true,
        no_escape: true,
        text: vec!["hello\\nworld".to_string()],
    };
    assert_eq!(process_echo(&args).unwrap(), "hello\\nworld");
}

#[test]
fn test_process_echo_joins_words() {
    let args = EchoArgs {
        no_newline: false,
        escape: false,
        no_escape: false,
        text: vec!["one".to_string(), "two".to_string(), "three".to_string()],
    };
    assert_eq!(process_echo(&args).unwrap(), "one two three");
}

#[test]
fn test_interpret_escapes_bell_and_null() {
    assert_eq!(interpret_escapes("a\\ab\\0c"), "a\u{7}b\u{0}c");
}
