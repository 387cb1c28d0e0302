//! The echo tool's text processing: joining arguments and, on request,
//! interpreting backslash escape sequences.

use vstd::prelude::*;
use crate::error::CommonError;
use crate::text::{join_spaces, join_spaces_spec};

verus! {

/// The echo tool's options and arguments.
pub struct EchoArgs {
    /// Suppress the trailing newline.
    pub no_newline: bool,
    /// Interpret backslash escapes.
    pub escape: bool,
    /// Do not interpret backslash escapes; overrides `escape`.
    pub no_escape: bool,
    /// The words to echo.
    pub text: Vec<String>,
}

/// The escape characters that are recognized after a backslash.
pub open spec fn is_known_escape(c: char) -> bool {
    c == 'n' || c == 't' || c == 'r' || c == '\\' || c == 'a' || c == 'b' || c == 'f' || c == 'v'
        || c == '0'
}

/// What a backslash followed by `c` becomes: the control character for a
/// recognized escape, the pair itself otherwise.
pub open spec fn escape_expansion(c: char) -> Seq<char> {
    if c == 'n' {
        seq!['\n']
    } else if c == 't' {
        seq!['\t']
    } else if c == 'r' {
        seq!['\r']
    } else if c == '\\' {
        seq!['\\']
    } else if c == 'a' {
        seq!['\u{7}']
    } else if c == 'b' {
        seq!['\u{8}']
    } else if c == 'f' {
        seq!['\u{c}']
    } else if c == 'v' {
        seq!['\u{b}']
    } else if c == '0' {
        seq!['\u{0}']
    } else {
        seq!['\\', c]
    }
}

/// `s` with every backslash escape interpreted: each backslash consumes
/// the character after it and the pair expands; a trailing backslash
/// stays itself.
pub open spec fn interpret_escapes_spec(s: Seq<char>) -> Seq<char>
    decreases s.len(),
{
    if s.len() == 0 {
        Seq::empty()
    } else if s[0] == '\\' {
        if s.len() == 1 {
            seq!['\\']
        } else {
            escape_expansion(s[1]) + interpret_escapes_spec(s.skip(2))
        }
    } else {
        seq![s[0]] + interpret_escapes_spec(s.drop_first())
    }
}

fn known_escape_str(c: char) -> (r: Option<&'static str>)
    ensures
        match r {
            Some(t) => is_known_escape(c) && t@ == escape_expansion(c),
            None => !is_known_escape(c),
        },
{
    proof {
        reveal_strlit("\n");
        reveal_strlit("\t");
        reveal_strlit("\r");
        reveal_strlit("\\");
        reveal_strlit("\u{7}");
        reveal_strlit("\u{8}");
        reveal_strlit("\u{c}");
        reveal_strlit("\u{b}");
        reveal_strlit("\u{0}");
    }
    let r: Option<&'static str> = match c {
        'n' => Some("\n"),
        't' => Some("\t"),
        'r' => Some("\r"),
        '\\' => Some("\\"),
        'a' => Some("\u{7}"),
        'b' => Some("\u{8}"),
        'f' => Some("\u{c}"),
        'v' => Some("\u{b}"),
        '0' => Some("\u{0}"),
        _ => None,
    };
    proof {
        if r is Some {
            assert(r->Some_0@ =~= escape_expansion(c));
        }
    }
    r
}

/// Interprets backslash escapes: recognized pairs become their control
/// character, an unrecognized pair stays as written, and a trailing
/// backslash stays itself.
pub fn interpret_escapes(text: &str) -> (r: String)
    ensures
        r@ == interpret_escapes_spec(text@),
{
    let n: usize = text.unicode_len();
    let mut out = String::new();
    let mut i: usize = 0;
    proof {
        assert(text@.skip(0) =~= text@);
    }
    while i < n
        invariant
            n == text@.len(),
            i <= n,
            out@ + interpret_escapes_spec(text@.skip(i as int)) =~= interpret_escapes_spec(text@),
        decreases n - i,
    {
        let ghost rest = text@.skip(i as int);
        let c: char = text.get_char(i);
        proof {
            assert(rest[0] == text@[i as int]);
        }
        if c == '\\' {
            if i + 1 < n {
                let next: char = text.get_char(i + 1);
                proof {
                    assert(rest[1] == text@[i + 1]);
                    assert(rest.skip(2) =~= text@.skip(i + 2));
                }
                match known_escape_str(next) {
                    Some(t) => {
                        out.append(t);
                    },
                    None => {
                        out.append("\\");
                        let pair: &str = text.substring_char(i + 1, i + 2);
                        proof {
                            assert(pair@ =~= seq![text@[i + 1]]);
                            assert("\\"@ =~= seq!['\\']) by {
                                reveal_strlit("\\");
                            }
                        }
                        out.append(pair);
                        proof {
                            assert(escape_expansion(rest[1]) =~= seq!['\\', rest[1]]);
                        }
                    },
                }
                i = i + 2;
            } else {
                out.append("\\");
                proof {
                    assert("\\"@ =~= seq!['\\']) by {
                        reveal_strlit("\\");
                    }
                    assert(rest.len() == 1);
                    assert(text@.skip(i + 1) =~= Seq::<char>::empty());
                }
                i = i + 1;
            }
        } else {
            let one: &str = text.substring_char(i, i + 1);
            proof {
                assert(one@ =~= seq![text@[i as int]]);
                assert(rest.drop_first() =~= text@.skip(i + 1));
            }
            out.append(one);
            i = i + 1;
        }
    }
    proof {
        assert(text@.skip(n as int) =~= Seq::<char>::empty());
        assert(out@ =~= out@ + Seq::<char>::empty());
    }
    out
}

/// The text echo prints for these options, before the optional trailing
/// newline: the words joined by spaces, with escapes interpreted exactly
/// when `escape` is set and `no_escape` is not.
pub open spec fn process_echo_spec(args: EchoArgs) -> Seq<char> {
    let joined = join_spaces_spec(args.text.deep_view());
    if !args.no_escape && args.escape {
        interpret_escapes_spec(joined)
    } else {
        joined
    }
}

/// Produces echo's output text: the arguments joined by single spaces,
/// with backslash escapes interpreted only when requested and not
/// overridden.
pub fn process_echo(args: &EchoArgs) -> (r: Result<String, CommonError>)
    ensures
        r matches Ok(t) && t@ == process_echo_spec(*args),
{
    let text: String = join_spaces(&args.text);
    if !args.no_escape && args.escape {
        Ok(interpret_escapes(text.as_str()))
    } else {
        Ok(text)
    }
}

} // verus!
