use cli_shell::cat::{LineProcessor, NumberMode};

#[test]
fn test_number_mode_all() {
    let mut processor = LineProcessor::new(NumberMode::All, false, false);
    let mut output = Vec::new();

    processor.process_line(b"first", &mut output);
    processor.process_line(b"second", &mut output);

    let result = String::from_utf8(output).unwrap();
    assert!(result.contains("     1\tfirst"));
    assert!(result.contains("     2\tsecond"));
}

#[test]
fn test_number_mode_nonblank() {
    let mut processor = LineProcessor::new(NumberMode::NonBlank, false, false);
    let mut output = Vec::new();

    processor.process_line(b"first", &mut output);
    processor.process_line(b"", &mut output);
    processor.process_line(b"third", &mut output);

    let result = String::from_utf8(output).unwrap();
    assert!(result.contains("     1\tfirst"));
    assert!(result.contains("      \t\n")); // blank line with no number
    assert!(result.contains("     2\tthird"));
}

#[test]
fn test_squeeze_blank() {
    let mut processor = LineProcessor::new(NumberMode::Off, false, true);
    let mut output = Vec::new();

    processor.process_line(b"first", &mut output);
    processor.process_line(b"", &mut output);
    processor.process_line(b"", &mut output);
    processor.process_line(b"", &mut output);
    processor.process_line(b"second", &mut output);

    let result = String::from_utf8(output).unwrap();
    let lines: Vec<&str> = result.lines().collect();
    assert_eq!(lines.len(), 3); // first, one blank, second
}

#[test]
fn test_show_all_tab() {
    let processor = LineProcessor::new(NumberMode::Off, true, false);
    let mut output = Vec::new();

    processor.write_with_show_all(b"hello\tworld", &mut output);

    let result = String::from_utf8(output).unwrap();
    assert!(result.contains("^I"));
}

#[test]
fn test_show_all_control_and_high_bytes() {
    let processor = LineProcessor::new(NumberMode::Off, true, false);
    let mut output = Vec::new();

    processor.write_with_show_all(&[0x01, 0x7F, 0xC3, 0xA9, 0x80], &mut output);

    let result = String::from_utf8(output).unwrap();
    assert_eq!(result, "^A^?M-CM-)M-?");
}

#[test]
fn test_number_mode_off_passes_line_through() {
    let mut processor = LineProcessor::new(NumberMode::Off, false, false);
    let mut output = Vec::new();

    processor.process_line(b"plain", &mut output);

    assert_eq!(output, b"plain\n");
}

#[test]
fn test_squeeze_keeps_separated_blanks() {
    let mut processor = LineProcessor::new(NumberMode::Off, false, true);
    let mut output = Vec::new();

    processor.process_line(b"", &mut output);
    processor.process_line(b"mid", &mut output);
    processor.process_line(b"", &mut output);

    assert_eq!(String::from_utf8(output).unwrap(), "\nmid\n\n");
}
