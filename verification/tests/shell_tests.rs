use cli_shell::builtins::{echo_command, help_command, lookup_builtin, BuiltinKind};
use cli_shell::dispatch::{execute_single_command, execute_with_input, DispatchStep};
use cli_shell::error::{CommonError, ShellError};
use cli_shell::exec::{Action, LineExec};
use cli_shell::parse::{has_pipe, parse_redirection, split_pipeline, RedirectMode};
use cli_shell::repl::{repl_action, ReplAction};

#[test]
fn test_parse_redirection_overwrite() {
    let (cmd, redirect) = parse_redirection("echo hi > out.txt");
    assert_eq!(cmd, "echo hi");
    let redirect = redirect.unwrap();
    assert_eq!(redirect.target, "out.txt");
    assert_eq!(redirect.mode, RedirectMode::Overwrite);
}

#[test]
fn test_parse_redirection_append() {
    let (cmd, redirect) = parse_redirection("echo hi >> out.txt");
    assert_eq!(cmd, "echo hi");
    let redirect = redirect.unwrap();
    assert_eq!(redirect.target, "out.txt");
    assert_eq!(redirect.mode, RedirectMode::Append);
}

#[test]
fn test_parse_redirection_none() {
    let (cmd, redirect) = parse_redirection("ls -l");
    assert_eq!(cmd, "ls -l");
    assert!(redirect.is_none());
}

#[test]
fn test_split_pipeline_two_segments() {
    let segs = split_pipeline("ls | cat").unwrap();
    assert_eq!(segs, vec!["ls".to_string(), "cat".to_string()]);
}

#[test]
fn test_split_pipeline_single_segment_fails() {
    let err = split_pipeline("ls").unwrap_err();
    match err {
        ShellError::Syntax(m) => assert_eq!(m, "Invalid pipe syntax"),
        _ => panic!("expected a syntax error"),
    }
}

#[test]
fn test_split_pipeline_blank_segment_fails() {
    assert!(split_pipeline("ls || cat").is_err());
    assert!(split_pipeline("ls |").is_err());
}

#[test]
fn test_has_pipe() {
    assert!(has_pipe("a | b"));
    assert!(!has_pipe("a > b"));
}

#[test]
fn test_lookup_builtin_known_and_unknown() {
    assert_eq!(lookup_builtin("ls"), Some(BuiltinKind::Ls));
    assert_eq!(lookup_builtin("mkdir"), Some(BuiltinKind::Mkdir));
    assert_eq!(lookup_builtin("exit"), None);
    assert_eq!(lookup_builtin("frobnicate"), None);
}

#[test]
fn test_help_command_lists_builtins() {
    let text = help_command().unwrap();
    assert!(text.contains("Available Commands"));
    assert!(text.contains("mkdir [-p] <dir...>"));
}

#[test]
fn test_echo_command_output() {
    let args = vec!["hello".to_string(), "world".to_string()];
    assert_eq!(echo_command(&args).unwrap(), "hello world\n");
    let empty: Vec<String> = Vec::new();
    assert_eq!(echo_command(&empty).unwrap(), "\n");
}

#[test]
fn test_dispatch_resolves_echo_in_place() {
    match execute_single_command("echo hi there") {
        DispatchStep::Resolved(Ok(text)) => assert_eq!(text, "hi there\n"),
        _ => panic!("echo should resolve without an effect"),
    }
}

#[test]
fn test_dispatch_requests_effectful_builtin() {
    match execute_single_command("mkdir a b") {
        DispatchStep::Invoke(kind, args) => {
            assert_eq!(kind, BuiltinKind::Mkdir);
            assert_eq!(args, vec!["a".to_string(), "b".to_string()]);
        }
        _ => panic!("mkdir should be requested as an effect"),
    }
}

#[test]
fn test_dispatch_unknown_command() {
    match execute_single_command("frobnicate now") {
        DispatchStep::Resolved(Err(ShellError::CommandNotFound(name))) => {
            assert_eq!(name, "frobnicate");
        }
        _ => panic!("an unknown name should fail"),
    }
}

#[test]
fn test_dispatch_blank_input_yields_empty_text() {
    match execute_single_command("   ") {
        DispatchStep::Resolved(Ok(text)) => assert_eq!(text, ""),
        _ => panic!("blank input should resolve to empty text"),
    }
}

#[test]
fn test_execute_with_input_pass_through() {
    match execute_with_input("cat", "carried text") {
        DispatchStep::Resolved(Ok(text)) => assert_eq!(text, "carried text"),
        _ => panic!("bare cat should pass its input through"),
    }
}

#[test]
fn test_execute_with_input_other_command_ignores_input() {
    match execute_with_input("echo hi", "ignored") {
        DispatchStep::Resolved(Ok(text)) => assert_eq!(text, "hi\n"),
        _ => panic!("echo should resolve on its own"),
    }
}

#[test]
fn test_execute_with_input_blank_is_error() {
    match execute_with_input("", "anything") {
        DispatchStep::Resolved(Err(ShellError::Syntax(m))) => assert_eq!(m, "Empty command"),
        _ => panic!("a blank stage should be a syntax error"),
    }
}

/// Runs one line through the engine against a table of canned builtin
/// results, returning the printed text, the file writes, the reported
/// error, and the builtins that ran.
fn run_line(
    line: &str,
    mut builtin_results: Vec<Result<String, String>>,
) -> (Option<String>, Vec<(String, String, bool)>, Option<String>, Vec<BuiltinKind>) {
    let mut printed = None;
    let mut writes = Vec::new();
    let mut reported = None;
    let mut invoked = Vec::new();
    let mut ex = match LineExec::start(line) {
        Ok(ex) => ex,
        Err(e) => return (None, writes, Some(e.message()), invoked),
    };
    while !ex.finished() {
        match ex.step() {
            Action::Invoke { kind, args: _ } => {
                invoked.push(kind);
                let outcome = if builtin_results.is_empty() {
                    Err("no canned result".to_string())
                } else {
                    builtin_results.remove(0)
                };
                ex.builtin_done(outcome);
            }
            Action::Print { text } => {
                printed = Some(text);
                ex.sink_done(Ok(()));
            }
            Action::WriteFile { path, content, append } => {
                writes.push((path, content, append));
                ex.sink_done(Ok(()));
            }
            Action::Report { err } => {
                reported = Some(err.message());
            }
        }
    }
    (printed, writes, reported, invoked)
}

#[test]
fn test_pipe_pass_through_keeps_first_output() {
    let (printed, _, reported, invoked) =
        run_line("ls | cat", vec![Ok("a.txt\nb.txt\n".to_string())]);
    assert_eq!(invoked, vec![BuiltinKind::Ls]);
    assert_eq!(printed.unwrap(), "a.txt\nb.txt\n");
    assert!(reported.is_none());
}

#[test]
fn test_pipe_other_stage_discards_input() {
    let (printed, _, reported, invoked) =
        run_line("ls | echo hi", vec![Ok("discarded listing\n".to_string())]);
    assert_eq!(invoked, vec![BuiltinKind::Ls]);
    assert_eq!(printed.unwrap(), "hi\n");
    assert!(reported.is_none());
}

#[test]
fn test_pipe_unknown_stage_aborts_rest() {
    let (printed, _, reported, invoked) =
        run_line("ls | nosuch | cat", vec![Ok("kept\n".to_string())]);
    assert_eq!(invoked, vec![BuiltinKind::Ls]);
    assert!(printed.is_none());
    assert_eq!(reported.unwrap(), "Command not found: nosuch");
}

#[test]
fn test_single_known_builtin_invoked_once() {
    let (printed, _, reported, invoked) = run_line("pwd", vec![Ok("/home\n".to_string())]);
    assert_eq!(invoked, vec![BuiltinKind::Pwd]);
    assert_eq!(printed.unwrap(), "/home\n");
    assert!(reported.is_none());
}

#[test]
fn test_redirect_overwrite_and_append_order() {
    // a simulated file: append adds, overwrite replaces
    let mut file = String::new();
    for line in ["echo one >> f.txt", "echo two >> f.txt"] {
        let (_, writes, reported, _) = run_line(line, vec![]);
        assert!(reported.is_none());
        for (path, content, append) in writes {
            assert_eq!(path, "f.txt");
            assert!(append);
            file.push_str(&content);
        }
    }
    assert_eq!(file, "one\ntwo\n");

    let (_, writes, _, _) = run_line("echo three > f.txt", vec![]);
    for (path, content, append) in writes {
        assert_eq!(path, "f.txt");
        assert!(!append);
        file = content;
    }
    assert_eq!(file, "three\n");
}

#[test]
fn test_builtin_failure_is_reported() {
    let (printed, _, reported, invoked) =
        run_line("cat missing.txt", vec![Err("no such file".to_string())]);
    assert_eq!(invoked, vec![BuiltinKind::Cat]);
    assert!(printed.is_none());
    assert_eq!(reported.unwrap(), "no such file");
}

#[test]
fn test_write_failure_is_reported_as_io_error() {
    let mut ex = LineExec::start("echo hi > target").unwrap();
    match ex.step() {
        Action::WriteFile { path, content, append } => {
            assert_eq!(path, "target");
            assert_eq!(content, "hi\n");
            assert!(!append);
            ex.sink_done(Err("disk full".to_string()));
        }
        _ => panic!("a redirected line should ask for a file write"),
    }
    match ex.step() {
        Action::Report { err } => match err {
            ShellError::Io(m) => assert_eq!(m, "disk full"),
            _ => panic!("a failed write should be an I/O error"),
        },
        _ => panic!("the failure should be reported"),
    }
    assert!(ex.finished());
}

#[test]
fn test_pipe_line_ignores_redirection_operator() {
    // with both a pipe and a redirection, pipe splitting wins and the
    // operator stays ordinary segment text: the stage "cat > out.txt" is
    // not the pass-through case, so cat is dispatched with the operator
    // and the path as arguments and no file is written
    let (printed, writes, reported, invoked) =
        run_line("echo hi | cat > out.txt", vec![Ok("from cat".to_string())]);
    assert_eq!(invoked, vec![BuiltinKind::Cat]);
    assert!(writes.is_empty());
    assert_eq!(printed.unwrap(), "from cat");
    assert!(reported.is_none());
}

#[test]
fn test_repl_action_exit_sentinels() {
    assert!(matches!(repl_action("exit"), ReplAction::Exit));
    assert!(matches!(repl_action("quit"), ReplAction::Exit));
    assert!(matches!(repl_action("  exit  "), ReplAction::Exit));
}

#[test]
fn test_repl_action_blank_and_run() {
    assert!(matches!(repl_action(""), ReplAction::Skip));
    assert!(matches!(repl_action("   "), ReplAction::Skip));
    match repl_action("  ls -l  ") {
        ReplAction::Run(line) => assert_eq!(line, "ls -l"),
        _ => panic!("a command line should run"),
    }
    match repl_action("exit now") {
        ReplAction::Run(line) => assert_eq!(line, "exit now"),
        _ => panic!("the sentinel must match the whole line"),
    }
}

#[test]
fn test_shell_error_messages() {
    assert_eq!(
        ShellError::CommandNotFound("zzz".to_string()).message(),
        "Command not found: zzz"
    );
    assert_eq!(ShellError::Builtin("oops".to_string()).message(), "oops");
    assert_eq!(
        CommonError::FileNotFound("a.txt".to_string()).message(),
        "File not found: a.txt"
    );
    assert_eq!(
        CommonError::InvalidArgument("bad".to_string()).message(),
        "Invalid argument: bad"
    );
}
