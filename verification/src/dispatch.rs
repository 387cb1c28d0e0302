//! Dispatch: resolving one command segment. A segment either resolves in
//! place (blank input, an unknown name, or a builtin that only produces
//! text) or asks the caller to run a builtin that touches the filesystem.

use vstd::prelude::*;
use crate::builtins::{
    builtin_of, echo_command, echo_output_spec, help_command, help_text_spec, lookup_builtin,
    BuiltinKind,
};
use crate::error::ShellError;
use crate::text::{str_eq, tokenize, tokens_spec};

verus! {

/// The outcome of resolving a command segment: either a finished result,
/// or a request to run the named builtin with the given arguments and
/// hand back what it returned.
pub enum DispatchStep {
    Resolved(Result<String, ShellError>),
    Invoke(BuiltinKind, Vec<String>),
}

/// What resolving a segment must yield, over the segment's tokens alone.
pub enum DispatchModel {
    Empty,
    Unknown(Seq<char>),
    Text(Seq<char>),
    Effect(BuiltinKind, Seq<Seq<char>>),
}

/// How a command segment resolves: blank segments yield empty text, an
/// unrecognized first token is a "command not found" error, `help` and
/// `echo` yield their text at once, and every other builtin is an effect
/// the caller must perform.
pub open spec fn dispatch_model(seg: Seq<char>) -> DispatchModel {
    let toks = tokens_spec(seg);
    if toks.len() == 0 {
        DispatchModel::Empty
    } else {
        match builtin_of(toks[0]) {
            None => DispatchModel::Unknown(toks[0]),
            Some(BuiltinKind::Help) => DispatchModel::Text(help_text_spec()),
            Some(BuiltinKind::Echo) => DispatchModel::Text(echo_output_spec(toks.drop_first())),
            Some(k) => DispatchModel::Effect(k, toks.drop_first()),
        }
    }
}

/// The exec outcome `r` realizes the model `m`.
pub open spec fn step_matches(r: DispatchStep, m: DispatchModel) -> bool {
    match m {
        DispatchModel::Empty => r matches DispatchStep::Resolved(res) && res matches Ok(t) && t@
            =~= Seq::<char>::empty(),
        DispatchModel::Unknown(name) => r matches DispatchStep::Resolved(res) && res matches Err(
            e,
        ) && e matches ShellError::CommandNotFound(n) && n@ == name,
        DispatchModel::Text(text) => r matches DispatchStep::Resolved(res) && res matches Ok(t)
            && t@ == text,
        DispatchModel::Effect(k, args) => r matches DispatchStep::Invoke(k2, a) && k2 == k
            && a.deep_view() == args,
    }
}

/// Resolves one command segment: tokenizes it, looks the first token up in
/// the builtin table, and either finishes (blank segment, unknown name,
/// `help`, `echo`) or asks for the builtin to be run.
pub fn execute_single_command(input: &str) -> (r: DispatchStep)
    ensures
        step_matches(r, dispatch_model(input@)),
{
    let mut toks: Vec<String> = tokenize(input);
    if toks.len() == 0 {
        return DispatchStep::Resolved(Ok(String::new()));
    }
    let ghost toks0 = toks.deep_view();
    let name: String = toks.remove(0);
    proof {
        assert(name@ == toks0[0]);
        assert forall|j: int| 0 <= j < toks.deep_view().len() implies #[trigger] toks.deep_view()[j]
            == toks0.drop_first()[j] by {
            assert(toks@[j]@ == toks0[j + 1]);
        }
        assert(toks.deep_view() =~= toks0.drop_first());
    }
    match lookup_builtin(name.as_str()) {
        None => DispatchStep::Resolved(Err(ShellError::CommandNotFound(name))),
        Some(BuiltinKind::Help) => DispatchStep::Resolved(help_command()),
        Some(BuiltinKind::Echo) => DispatchStep::Resolved(echo_command(&toks)),
        Some(k) => DispatchStep::Invoke(k, toks),
    }
}

/// The pass-through case: the file-concatenation builtin named with no
/// arguments, the one stage of a pipeline that consumes its predecessor's
/// output.
pub open spec fn pass_through_spec(seg: Seq<char>) -> bool {
    tokens_spec(seg).len() == 1 && tokens_spec(seg)[0] == "cat"@
}

/// Resolves one pipeline stage given the previous stage's output: the
/// pass-through case yields that output unchanged, a blank stage is a
/// syntax error, and every other stage resolves on its own, blind to the
/// previous output.
pub fn execute_with_input(cmd: &str, input: &str) -> (r: DispatchStep)
    ensures
        pass_through_spec(cmd@) ==> (r matches DispatchStep::Resolved(res) && res matches Ok(t)
            && t@ == input@),
        tokens_spec(cmd@).len() == 0 ==> (r matches DispatchStep::Resolved(res)
            && res matches Err(e) && e matches ShellError::Syntax(m) && m@ == "Empty command"@),
        !pass_through_spec(cmd@) && tokens_spec(cmd@).len() > 0 ==> step_matches(
            r,
            dispatch_model(cmd@),
        ),
{
    let toks: Vec<String> = tokenize(cmd);
    if toks.len() == 0 {
        return DispatchStep::Resolved(
            Err(ShellError::Syntax(String::from_str("Empty command"))),
        );
    }
    if toks.len() == 1 && str_eq(toks[0].as_str(), "cat") {
        proof {
            assert(toks.deep_view()[0] == toks@[0]@);
        }
        return DispatchStep::Resolved(Ok(input.to_owned()));
    }
    proof {
        assert(toks.deep_view()[0] == toks@[0]@);
    }
    execute_single_command(cmd)
}

} // verus!
