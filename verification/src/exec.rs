//! The executor: runs one parsed line, stage by stage. Work that touches
//! the terminal or the filesystem is handed out as an `Action`; the caller
//! performs it and reports what happened, and the engine carries on.

use vstd::prelude::*;
use crate::builtins::BuiltinKind;
use crate::dispatch::{
    dispatch_model, execute_single_command, execute_with_input, pass_through_spec, DispatchModel,
    DispatchStep,
};
use crate::error::ShellError;
use crate::parse::{
    has_pipe, has_pipe_spec, parse_redirection, parse_redirection_spec, pipeline_ok,
    pipeline_segments_spec, split_pipeline, Redirect, RedirectMode,
};
use crate::text::tokens_spec;

verus! {

/// What the caller must do next for the engine.
pub enum Action {
    /// Run the builtin with these arguments; answer with `builtin_done`.
    Invoke { kind: BuiltinKind, args: Vec<String> },
    /// Print this text to the terminal; answer with `sink_done`.
    Print { text: String },
    /// Write this content to the file, appending or truncating; answer
    /// with `sink_done`.
    WriteFile { path: String, content: String, append: bool },
    /// The line has failed; report the error. The engine is finished.
    Report { err: ShellError },
}

/// Where the engine stands within one line.
#[derive(Clone, Copy, Debug, PartialEq, Eq, Structural)]
pub enum Phase {
    /// Stages remain to resolve; `step` may be called.
    Run,
    /// A builtin was requested; `builtin_done` must be called.
    AwaitBuiltin,
    /// A print or file write was requested; `sink_done` must be called.
    AwaitSink,
    /// A failure is recorded; `step` will yield `Report`.
    ReportPending,
    /// The line is over.
    Done,
}

/// An error stated over plain values, for contracts.
pub enum ErrModel {
    Syntax(Seq<char>),
    Unknown(Seq<char>),
    Builtin(Seq<char>),
    Io(Seq<char>),
}

/// The exec error `e` carries the content of the model `m`.
pub open spec fn err_matches(e: ShellError, m: ErrModel) -> bool {
    match (e, m) {
        (ShellError::Syntax(a), ErrModel::Syntax(b)) => a@ == b,
        (ShellError::CommandNotFound(a), ErrModel::Unknown(b)) => a@ == b,
        (ShellError::Builtin(a), ErrModel::Builtin(b)) => a@ == b,
        (ShellError::Io(a), ErrModel::Io(b)) => a@ == b,
        _ => false,
    }
}

/// Where resolving stages from a given point leads without outside help.
pub enum ResolveOutcome {
    /// Every stage resolved; `acc` is the final text.
    End { acc: Seq<char> },
    /// Stage `stage` needs the builtin `kind` run with `args`; `acc` is
    /// the text accumulated so far.
    Need { stage: int, acc: Seq<char>, kind: BuiltinKind, args: Seq<Seq<char>> },
    /// Stage `stage` failed.
    Fail { stage: int, err: ErrModel },
}

/// Resolves stages from `i` on with accumulated text `acc`: a later
/// pass-through stage keeps the text, a later blank stage is a syntax
/// error, a stage that resolves to text replaces it, an unknown name
/// fails, and an effectful builtin stops resolution until its result
/// arrives.
pub open spec fn resolve_from(segs: Seq<Seq<char>>, i: int, acc: Seq<char>) -> ResolveOutcome
    decreases segs.len() - i,
{
    if i < 0 || i >= segs.len() {
        ResolveOutcome::End { acc }
    } else {
        let seg = segs[i];
        if i > 0 && pass_through_spec(seg) {
            resolve_from(segs, i + 1, acc)
        } else if i > 0 && tokens_spec(seg).len() == 0 {
            ResolveOutcome::Fail { stage: i, err: ErrModel::Syntax("Empty command"@) }
        } else {
            match dispatch_model(seg) {
                DispatchModel::Empty => resolve_from(segs, i + 1, Seq::empty()),
                DispatchModel::Unknown(name) => ResolveOutcome::Fail {
                    stage: i,
                    err: ErrModel::Unknown(name),
                },
                DispatchModel::Text(t) => resolve_from(segs, i + 1, t),
                DispatchModel::Effect(k, args) => ResolveOutcome::Need {
                    stage: i,
                    acc,
                    kind: k,
                    args,
                },
            }
        }
    }
}

/// The executor for one input line.
pub struct LineExec {
    pub segments: Vec<String>,
    pub redirect: Option<Redirect>,
    pub idx: usize,
    pub acc: String,
    pub phase: Phase,
    pub failure: Option<ShellError>,
}

impl LineExec {
    /// The engine's state is consistent.
    pub open spec fn wf(self) -> bool {
        &&& self.idx <= self.segments@.len()
        &&& self.segments@.len() >= 1
        &&& (self.redirect is Some ==> self.segments@.len() == 1)
        &&& (self.phase is ReportPending ==> self.failure is Some)
        &&& (self.phase is AwaitBuiltin ==> self.idx < self.segments@.len())
    }

    pub open spec fn spec_segments(self) -> Seq<Seq<char>> {
        self.segments.deep_view()
    }

    pub open spec fn spec_redirect(self) -> Option<(Seq<char>, RedirectMode)> {
        match self.redirect {
            Some(rd) => Some((rd.target@, rd.mode)),
            None => None,
        }
    }

    pub open spec fn spec_idx(self) -> int {
        self.idx as int
    }

    pub open spec fn spec_acc(self) -> Seq<char> {
        self.acc@
    }

    pub open spec fn spec_phase(self) -> Phase {
        self.phase
    }

    pub open spec fn spec_failure(self) -> Option<ShellError> {
        self.failure
    }

    /// Parses one line into an engine ready to run: a pipe anywhere makes
    /// it a pipeline (and any redirection operator is then ordinary
    /// segment text); otherwise the optional redirection is split off and
    /// one command remains. A malformed pipeline is refused here.
    pub fn start(line: &str) -> (r: Result<LineExec, ShellError>)
        ensures
            match r {
                Ok(ex) => {
                    &&& ex.wf()
                    &&& ex.spec_phase() is Run
                    &&& ex.spec_idx() == 0
                    &&& ex.spec_acc() == Seq::<char>::empty()
                    &&& if has_pipe_spec(line@) {
                        &&& pipeline_ok(line@)
                        &&& ex.spec_segments() == pipeline_segments_spec(line@)
                        &&& ex.spec_redirect() is None
                    } else {
                        &&& ex.spec_segments() == seq![parse_redirection_spec(line@).0]
                        &&& ex.spec_redirect() == parse_redirection_spec(line@).1
                    }
                },
                Err(e) => {
                    &&& has_pipe_spec(line@)
                    &&& !pipeline_ok(line@)
                    &&& e matches ShellError::Syntax(m) && m@ == "Invalid pipe syntax"@
                },
            },
    {
        if has_pipe(line) {
            let segments = split_pipeline(line)?;
            Ok(
                LineExec {
                    segments,
                    redirect: None,
                    idx: 0,
                    acc: String::new(),
                    phase: Phase::Run,
                    failure: None,
                },
            )
        } else {
            let (command, redirect) = parse_redirection(line);
            let mut segments: Vec<String> = Vec::new();
            segments.push(command);
            proof {
                assert(segments.deep_view() =~= seq![parse_redirection_spec(line@).0]);
            }
            Ok(
                LineExec {
                    segments,
                    redirect,
                    idx: 0,
                    acc: String::new(),
                    phase: Phase::Run,
                    failure: None,
                },
            )
        }
    }

    /// True when the line is over and no further call is expected.
    pub fn finished(&self) -> (r: bool)
        ensures
            r == (self.spec_phase() is Done),
    {
        self.phase == Phase::Done
    }

    /// Resolves stages until outside help is needed, then says what to
    /// do: run a builtin, print or write the final text, or report a
    /// recorded failure.
    pub fn step(&mut self) -> (a: Action)
        requires
            old(self).wf(),
            old(self).spec_phase() is Run || old(self).spec_phase() is ReportPending,
        ensures
            final(self).wf(),
            final(self).spec_segments() == old(self).spec_segments(),
            final(self).spec_redirect() == old(self).spec_redirect(),
            old(self).spec_phase() is ReportPending ==> (
            {
                &&& a matches Action::Report { err } && Some(err) == old(self).spec_failure()
                &&& final(self).spec_phase() is Done
            }),
            old(self).spec_phase() is Run ==> match resolve_from(
                old(self).spec_segments(),
                old(self).spec_idx(),
                old(self).spec_acc(),
            ) {
                ResolveOutcome::End { acc } => {
                    &&& final(self).spec_phase() is AwaitSink
                    &&& final(self).spec_acc() == acc
                    &&& match old(self).spec_redirect() {
                        None => a matches Action::Print { text } && text@ == acc,
                        Some((target, mode)) => a matches Action::WriteFile {
                            path,
                            content,
                            append,
                        } && path@ == target && content@ == acc && append == (mode is Append),
                    }
                },
                ResolveOutcome::Need { stage, acc, kind, args } => {
                    &&& final(self).spec_phase() is AwaitBuiltin
                    &&& final(self).spec_idx() == stage
                    &&& final(self).spec_acc() == acc
                    &&& a matches Action::Invoke { kind: k2, args: a2 } && k2 == kind
                        && a2.deep_view() == args
                },
                ResolveOutcome::Fail { stage, err } => {
                    &&& final(self).spec_phase() is Done
                    &&& a matches Action::Report { err: e } && err_matches(e, err)
                },
            },
    {
        if self.phase == Phase::ReportPending {
            let err = self.failure.take().unwrap();
            self.phase = Phase::Done;
            return Action::Report { err };
        }
        loop
            invariant
                old(self).spec_phase() is Run,
                self.wf(),
                self.phase is Run,
                self.segments.deep_view() == old(self).spec_segments(),
                self.redirect == old(self).redirect,
                self.failure == old(self).failure,
                resolve_from(self.spec_segments(), self.spec_idx(), self.spec_acc())
                    == resolve_from(
                    old(self).spec_segments(),
                    old(self).spec_idx(),
                    old(self).spec_acc(),
                ),
            decreases self.segments@.len() - self.idx,
        {
            if self.idx >= self.segments.len() {
                self.phase = Phase::AwaitSink;
                let text = self.acc.clone();
                match &self.redirect {
                    None => {
                        return Action::Print { text };
                    },
                    Some(rd) => {
                        return Action::WriteFile {
                            path: rd.target.clone(),
                            content: text,
                            append: rd.mode == RedirectMode::Append,
                        };
                    },
                }
            }
            let seg: &str = self.segments[self.idx].as_str();
            proof {
                assert(seg@ == self.spec_segments()[self.spec_idx()]);
            }
            let outcome: DispatchStep = if self.idx > 0 {
                execute_with_input(seg, self.acc.as_str())
            } else {
                execute_single_command(seg)
            };
            match outcome {
                DispatchStep::Resolved(res) => match res {
                    Ok(t) => {
                        self.acc = t;
                        self.idx = self.idx + 1;
                    },
                    Err(e) => {
                        self.phase = Phase::Done;
                        return Action::Report { err: e };
                    },
                },
                DispatchStep::Invoke(kind, args) => {
                    self.phase = Phase::AwaitBuiltin;
                    return Action::Invoke { kind, args };
                },
            }
        }
    }

    /// Records what the requested builtin returned: its text on success,
    /// which becomes the accumulated text of the finished stage, or its
    /// failure, which the next `step` reports.
    pub fn builtin_done(&mut self, outcome: Result<String, String>)
        requires
            old(self).wf(),
            old(self).spec_phase() is AwaitBuiltin,
        ensures
            final(self).wf(),
            final(self).spec_segments() == old(self).spec_segments(),
            final(self).spec_redirect() == old(self).spec_redirect(),
            match outcome {
                Ok(t) => {
                    &&& final(self).spec_phase() is Run
                    &&& final(self).spec_idx() == old(self).spec_idx() + 1
                    &&& final(self).spec_acc() == t@
                },
                Err(m) => {
                    &&& final(self).spec_phase() is ReportPending
                    &&& final(self).spec_failure() matches Some(e) && err_matches(
                        e,
                        ErrModel::Builtin(m@),
                    )
                },
            },
    {
        proof {
            broadcast use vstd::std_specs::vec::axiom_spec_len;

            assert(self.segments.len() == self.segments@.len());
        }
        match outcome {
            Ok(t) => {
                self.acc = t;
                self.idx = self.idx + 1;
                self.phase = Phase::Run;
            },
            Err(m) => {
                self.failure = Some(ShellError::Builtin(m));
                self.phase = Phase::ReportPending;
            },
        }
    }

    /// Records the fate of the final print or file write: success ends
    /// the line, a write failure becomes an I/O error the next `step`
    /// reports.
    pub fn sink_done(&mut self, outcome: Result<(), String>)
        requires
            old(self).wf(),
            old(self).spec_phase() is AwaitSink,
        ensures
            final(self).wf(),
            match outcome {
                Ok(()) => final(self).spec_phase() is Done,
                Err(m) => {
                    &&& final(self).spec_phase() is ReportPending
                    &&& final(self).spec_failure() matches Some(e) && err_matches(
                        e,
                        ErrModel::Io(m@),
                    )
                },
            },
    {
        match outcome {
            Ok(()) => {
                self.phase = Phase::Done;
            },
            Err(m) => {
                self.failure = Some(ShellError::Io(m));
                self.phase = Phase::ReportPending;
            },
        }
    }
}

/// A single-command line — no pipe and no redirection operator — whose
/// first token names a known builtin is dispatched exactly once, with the
/// tokenized arguments: the line parses to one unredirected command, its
/// resolution either requests that one builtin or yields its text at once,
/// and once the outcome is in, no further command is resolved.
pub proof fn lemma_single_line_dispatches_once(line: Seq<char>)
    requires
        !has_pipe_spec(line),
        crate::text::find_char_spec(line, '>') is None,
        tokens_spec(line).len() > 0,
        crate::builtins::builtin_of(tokens_spec(line)[0]) is Some,
    ensures
        parse_redirection_spec(line).0 == line,
        parse_redirection_spec(line).1 is None,
        (match resolve_from(seq![line], 0, Seq::empty()) {
            ResolveOutcome::Need { stage, acc, kind, args } => stage == 0 && Some(kind)
                == crate::builtins::builtin_of(tokens_spec(line)[0]) && args == tokens_spec(
                line,
            ).drop_first(),
            ResolveOutcome::End { acc } => (crate::builtins::builtin_of(tokens_spec(line)[0])
                == Some(BuiltinKind::Help) && acc == crate::builtins::help_text_spec()) || (
            crate::builtins::builtin_of(tokens_spec(line)[0]) == Some(BuiltinKind::Echo) && acc
                == crate::builtins::echo_output_spec(tokens_spec(line).drop_first())),
            ResolveOutcome::Fail { .. } => false,
        }),
        forall|t: Seq<char>|
            resolve_from(seq![line], 1, t) == (ResolveOutcome::End { acc: t }),
{
    crate::text::lemma_find_char_spec(line, '>');
    crate::text::lemma_find_pair_spec(line, '>', '>');
    assert(crate::text::find_pair_spec(line, '>', '>') is None);
    assert(seq![line][0] == line);
    match dispatch_model(line) {
        DispatchModel::Text(t) => {
            assert(resolve_from(seq![line], 0, Seq::empty()) == resolve_from(seq![line], 1, t));
            assert(resolve_from(seq![line], 1, t) == (ResolveOutcome::End { acc: t }));
        },
        DispatchModel::Effect(k, args) => {
            assert(resolve_from(seq![line], 0, Seq::empty()) == (ResolveOutcome::Need {
                stage: 0,
                acc: Seq::<char>::empty(),
                kind: k,
                args,
            }));
        },
        DispatchModel::Empty => {
            assert(false);
        },
        DispatchModel::Unknown(_) => {
            assert(false);
        },
    }
}

/// A pass-through stage — the concatenation builtin named with no
/// arguments — hands its predecessor's output on unchanged.
pub proof fn lemma_pass_through_keeps_text(segs: Seq<Seq<char>>, i: int, acc: Seq<char>)
    requires
        0 < i < segs.len(),
        pass_through_spec(segs[i]),
    ensures
        resolve_from(segs, i, acc) == resolve_from(segs, i + 1, acc),
{
}

/// Every other stage resolves blind to its predecessor's output: started
/// with different accumulated texts, the run requests the same builtin
/// with the same arguments, fails the same way, or ends in the same final
/// text.
pub proof fn lemma_stage_ignores_input(
    segs: Seq<Seq<char>>,
    i: int,
    acc1: Seq<char>,
    acc2: Seq<char>,
)
    requires
        0 < i < segs.len(),
        !pass_through_spec(segs[i]),
    ensures
        (match (resolve_from(segs, i, acc1), resolve_from(segs, i, acc2)) {
            (ResolveOutcome::End { acc: a }, ResolveOutcome::End { acc: b }) => a == b,
            (
                ResolveOutcome::Need { stage: s1, kind: k1, args: a1, .. },
                ResolveOutcome::Need { stage: s2, kind: k2, args: a2, .. },
            ) => s1 == s2 && k1 == k2 && a1 == a2,
            (
                ResolveOutcome::Fail { stage: s1, err: e1 },
                ResolveOutcome::Fail { stage: s2, err: e2 },
            ) => s1 == s2 && e1 == e2,
            _ => false,
        }),
{
    if tokens_spec(segs[i]).len() > 0 {
        match dispatch_model(segs[i]) {
            DispatchModel::Text(t) => {
                assert(resolve_from(segs, i, acc1) == resolve_from(segs, i + 1, t));
                assert(resolve_from(segs, i, acc2) == resolve_from(segs, i + 1, t));
                lemma_resolve_same(resolve_from(segs, i + 1, t));
            },
            _ => {},
        }
    }
}

proof fn lemma_resolve_same(r: ResolveOutcome)
    ensures
        (match (r, r) {
            (ResolveOutcome::End { acc: a }, ResolveOutcome::End { acc: b }) => a == b,
            (
                ResolveOutcome::Need { stage: s1, kind: k1, args: a1, .. },
                ResolveOutcome::Need { stage: s2, kind: k2, args: a2, .. },
            ) => s1 == s2 && k1 == k2 && a1 == a2,
            (
                ResolveOutcome::Fail { stage: s1, err: e1 },
                ResolveOutcome::Fail { stage: s2, err: e2 },
            ) => s1 == s2 && e1 == e2,
            _ => false,
        }),
{
}

/// An unknown command name fails its stage at once with a "command not
/// found" error carrying that name, so the stages after it are never
/// resolved.
pub proof fn lemma_unknown_name_aborts(segs: Seq<Seq<char>>, i: int, acc: Seq<char>)
    requires
        0 <= i < segs.len(),
        tokens_spec(segs[i]).len() > 0,
        crate::builtins::builtin_of(tokens_spec(segs[i])[0]) is None,
    ensures
        resolve_from(segs, i, acc) == (ResolveOutcome::Fail {
            stage: i,
            err: ErrModel::Unknown(tokens_spec(segs[i])[0]),
        }),
{
    assert(!pass_through_spec(segs[i]));
}

} // verus!
