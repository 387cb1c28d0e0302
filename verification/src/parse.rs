//! Line parsing: redirection extraction, pipe detection, and pipeline
//! splitting.

use vstd::prelude::*;
use crate::error::ShellError;
use crate::text::{
    find_char, find_char_spec, find_pair, find_pair_spec, lemma_find_char_spec,
    lemma_find_pair_spec, split_char, split_char_spec, trim, trim_spec,
};

verus! {

/// Whether a redirection truncates the target or appends to it.
#[derive(Clone, Copy, Debug, PartialEq, Eq, Structural)]
pub enum RedirectMode {
    Overwrite,
    Append,
}

/// A redirection sink: the target path and how to open it.
#[derive(Debug)]
pub struct Redirect {
    pub target: String,
    pub mode: RedirectMode,
}

/// How a line splits into command text and an optional redirection: at the
/// first `>>` with mode `Append`, else at the first `>` with mode
/// `Overwrite`, else not at all. Both sides are trimmed.
pub open spec fn parse_redirection_spec(s: Seq<char>) -> (Seq<char>, Option<
    (Seq<char>, RedirectMode),
>) {
    match find_pair_spec(s, '>', '>') {
        Some(i) => (trim_spec(s.take(i)), Some((trim_spec(s.skip(i + 2)), RedirectMode::Append))),
        None => match find_char_spec(s, '>') {
            Some(i) => (
                trim_spec(s.take(i)),
                Some((trim_spec(s.skip(i + 1)), RedirectMode::Overwrite)),
            ),
            None => (s, None),
        },
    }
}

/// Splits a line into its command text and an optional redirection. The
/// two-character append operator is looked for first, so `>>` is never
/// read as `>` followed by a stray `>`.
pub fn parse_redirection(input: &str) -> (r: (String, Option<Redirect>))
    ensures
        ({
            let (cmd, redir) = parse_redirection_spec(input@);
            r.0@ == cmd && match (r.1, redir) {
                (Some(got), Some(want)) => got.target@ == want.0 && got.mode == want.1,
                (None, None) => true,
                _ => false,
            }
        }),
{
    let n: usize = input.unicode_len();
    match find_pair(input, '>', '>') {
        Some(i) => {
            proof {
                lemma_find_pair_spec(input@, '>', '>');
            }
            let cmd: &str = input.substring_char(0, i);
            let rest: &str = input.substring_char(i + 2, n);
            proof {
                assert(cmd@ =~= input@.take(i as int));
                assert(rest@ =~= input@.skip(i + 2));
            }
            (
                trim(cmd).to_owned(),
                Some(Redirect { target: trim(rest).to_owned(), mode: RedirectMode::Append }),
            )
        },
        None => {
            match find_char(input, '>') {
                Some(i) => {
                    proof {
                        lemma_find_char_spec(input@, '>');
                    }
                    let cmd: &str = input.substring_char(0, i);
                    let rest: &str = input.substring_char(i + 1, n);
                    proof {
                        assert(cmd@ =~= input@.take(i as int));
                        assert(rest@ =~= input@.skip(i + 1));
                    }
                    (
                        trim(cmd).to_owned(),
                        Some(
                            Redirect {
                                target: trim(rest).to_owned(),
                                mode: RedirectMode::Overwrite,
                            },
                        ),
                    )
                },
                None => (input.to_owned(), None),
            }
        },
    }
}

/// True when the line contains a pipe character.
pub open spec fn has_pipe_spec(s: Seq<char>) -> bool {
    find_char_spec(s, '|') is Some
}

/// Whether the line contains a pipe character, which decides between the
/// piped and the single-command form of a line.
pub fn has_pipe(line: &str) -> (r: bool)
    ensures
        r == has_pipe_spec(line@),
{
    find_char(line, '|').is_some()
}

/// The pipe-separated pieces of a line, each trimmed.
pub open spec fn pipeline_segments_spec(s: Seq<char>) -> Seq<Seq<char>> {
    split_char_spec(s, '|').map_values(|t: Seq<char>| trim_spec(t))
}

/// A line splits into a valid pipeline when it yields at least two
/// segments and none of them is blank.
pub open spec fn pipeline_ok(s: Seq<char>) -> bool {
    &&& pipeline_segments_spec(s).len() >= 2
    &&& forall|i: int|
        0 <= i < pipeline_segments_spec(s).len() ==> #[trigger] pipeline_segments_spec(
            s,
        )[i].len() > 0
}

/// Splits a line on the pipe character into trimmed segments. Fails with a
/// syntax error when fewer than two segments result or when any segment is
/// blank, as from `||` or a trailing pipe.
pub fn split_pipeline(line: &str) -> (r: Result<Vec<String>, ShellError>)
    ensures
        r is Ok <==> pipeline_ok(line@),
        r matches Ok(segs) ==> segs.deep_view() == pipeline_segments_spec(line@),
        r matches Err(e) ==> e matches ShellError::Syntax(m) && m@ == "Invalid pipe syntax"@,
{
    let pieces: Vec<String> = split_char(line, '|');
    let mut segs: Vec<String> = Vec::new();
    let n: usize = pieces.len();
    let mut i: usize = 0;
    while i < n
        invariant
            n == pieces.len(),
            i <= n,
            segs@.len() == i,
            forall|j: int|
                0 <= j < i ==> #[trigger] segs.deep_view()[j] == pipeline_segments_spec(line@)[j],
            pieces.deep_view() == split_char_spec(line@, '|'),
        decreases n - i,
    {
        let ghost prev = segs.deep_view();
        let piece: &str = pieces[i].as_str();
        let t: String = trim(piece).to_owned();
        proof {
            assert(piece@ == pieces.deep_view()[i as int]);
            assert(pipeline_segments_spec(line@)[i as int] == trim_spec(
                pieces.deep_view()[i as int],
            ));
        }
        segs.push(t);
        proof {
            assert forall|j: int| 0 <= j < i + 1 implies #[trigger] segs.deep_view()[j]
                == pipeline_segments_spec(line@)[j] by {
                if j < i {
                    assert(segs.deep_view()[j] == prev[j]);
                }
            }
        }
        i = i + 1;
    }
    proof {
        assert(pipeline_segments_spec(line@).len() == n);
        assert(segs.deep_view() =~= pipeline_segments_spec(line@));
    }
    if segs.len() < 2 {
        return Err(ShellError::Syntax(String::from_str("Invalid pipe syntax")));
    }
    let mut k: usize = 0;
    while k < n
        invariant
            n == segs.len(),
            k <= n,
            segs.deep_view() == pipeline_segments_spec(line@),
            2 <= n,
            forall|j: int| 0 <= j < k ==> #[trigger] pipeline_segments_spec(line@)[j].len() > 0,
        decreases n - k,
    {
        if segs[k].as_str().unicode_len() == 0 {
            proof {
                assert(pipeline_segments_spec(line@)[k as int].len() == 0);
            }
            return Err(ShellError::Syntax(String::from_str("Invalid pipe syntax")));
        }
        k = k + 1;
    }
    Ok(segs)
}

} // verus!
