//! The fixed registry of builtin commands, and the two builtins whose whole
//! work is producing text: `help` and `echo`.

use vstd::prelude::*;
use crate::error::ShellError;
use crate::text::{join_spaces, join_spaces_spec, str_eq};

verus! {

/// The builtins the shell can run. The exit sentinel is not here: the
/// read-eval-print loop recognizes it before dispatch.
#[derive(Clone, Copy, Debug, PartialEq, Eq, Structural)]
pub enum BuiltinKind {
    Help,
    Pwd,
    Cd,
    Ls,
    Cat,
    Echo,
    Mkdir,
    Rmdir,
    Touch,
    Rm,
    Mv,
}

/// The builtin a command name denotes, if any.
pub open spec fn builtin_of(name: Seq<char>) -> Option<BuiltinKind> {
    if name == "help"@ {
        Some(BuiltinKind::Help)
    } else if name == "pwd"@ {
        Some(BuiltinKind::Pwd)
    } else if name == "cd"@ {
        Some(BuiltinKind::Cd)
    } else if name == "ls"@ {
        Some(BuiltinKind::Ls)
    } else if name == "cat"@ {
        Some(BuiltinKind::Cat)
    } else if name == "echo"@ {
        Some(BuiltinKind::Echo)
    } else if name == "mkdir"@ {
        Some(BuiltinKind::Mkdir)
    } else if name == "rmdir"@ {
        Some(BuiltinKind::Rmdir)
    } else if name == "touch"@ {
        Some(BuiltinKind::Touch)
    } else if name == "rm"@ {
        Some(BuiltinKind::Rm)
    } else if name == "mv"@ {
        Some(BuiltinKind::Mv)
    } else {
        None
    }
}

/// Looks a command name up in the fixed builtin table.
pub fn lookup_builtin(name: &str) -> (r: Option<BuiltinKind>)
    ensures
        r == builtin_of(name@),
{
    if str_eq(name, "help") {
        Some(BuiltinKind::Help)
    } else if str_eq(name, "pwd") {
        Some(BuiltinKind::Pwd)
    } else if str_eq(name, "cd") {
        Some(BuiltinKind::Cd)
    } else if str_eq(name, "ls") {
        Some(BuiltinKind::Ls)
    } else if str_eq(name, "cat") {
        Some(BuiltinKind::Cat)
    } else if str_eq(name, "echo") {
        Some(BuiltinKind::Echo)
    } else if str_eq(name, "mkdir") {
        Some(BuiltinKind::Mkdir)
    } else if str_eq(name, "rmdir") {
        Some(BuiltinKind::Rmdir)
    } else if str_eq(name, "touch") {
        Some(BuiltinKind::Touch)
    } else if str_eq(name, "rm") {
        Some(BuiltinKind::Rm)
    } else if str_eq(name, "mv") {
        Some(BuiltinKind::Mv)
    } else {
        None
    }
}

/// The text the `help` builtin prints.
pub open spec fn help_text_spec() -> Seq<char> {
    "\nAvailable Commands:\n===================\n\nFile Commands:\n  cat <file...>        - Concatenate and display files\n  touch <file...>      - Create empty files or update timestamps\n  rm [-r] <file...>    - Remove files or directories\n  mv <source> <dest>   - Move or rename files\n\nDirectory Commands:\n  ls [-l] [-a] [path]  - List directory contents\n  pwd                  - Print working directory\n  cd <directory>       - Change directory\n  mkdir [-p] <dir...>  - Create directories\n  rmdir <dir...>       - Remove empty directories\n\nUtility Commands:\n  echo <text...>       - Display text\n  help                 - Show this help message\n  exit                 - Exit the shell\n\nSpecial Syntax:\n  >                    - Redirect output to file (overwrite)\n  >>                   - Redirect output to file (append)\n  |                    - Pipe output to another command\n\nExamples:\n  ls -l\n  cat file.txt\n  echo \"Hello\" > output.txt\n  ls | cat\n  mkdir -p path/to/directory\n\n"@
}

/// The `help` builtin: always succeeds with the fixed help text.
pub fn help_command() -> (r: Result<String, ShellError>)
    ensures
        r matches Ok(t) && t@ == help_text_spec(),
{
    Ok(
        String::from_str(
            "\nAvailable Commands:\n===================\n\nFile Commands:\n  cat <file...>        - Concatenate and display files\n  touch <file...>      - Create empty files or update timestamps\n  rm [-r] <file...>    - Remove files or directories\n  mv <source> <dest>   - Move or rename files\n\nDirectory Commands:\n  ls [-l] [-a] [path]  - List directory contents\n  pwd                  - Print working directory\n  cd <directory>       - Change directory\n  mkdir [-p] <dir...>  - Create directories\n  rmdir <dir...>       - Remove empty directories\n\nUtility Commands:\n  echo <text...>       - Display text\n  help                 - Show this help message\n  exit                 - Exit the shell\n\nSpecial Syntax:\n  >                    - Redirect output to file (overwrite)\n  >>                   - Redirect output to file (append)\n  |                    - Pipe output to another command\n\nExamples:\n  ls -l\n  cat file.txt\n  echo \"Hello\" > output.txt\n  ls | cat\n  mkdir -p path/to/directory\n\n",
        ),
    )
}

/// The text the `echo` builtin yields for the given arguments: the
/// arguments joined with single spaces, with a newline at the end.
pub open spec fn echo_output_spec(args: Seq<Seq<char>>) -> Seq<char> {
    join_spaces_spec(args) + seq!['\n']
}

/// The `echo` builtin: always succeeds with its arguments joined by
/// spaces and a trailing newline.
pub fn echo_command(args: &Vec<String>) -> (r: Result<String, ShellError>)
    ensures
        r matches Ok(t) && t@ == echo_output_spec(args.deep_view()),
{
    let mut out = join_spaces(args);
    out.append("\n");
    proof {
        assert("\n"@ =~= seq!['\n']) by {
            reveal_strlit("\n");
        }
    }
    Ok(out)
}

} // verus!
