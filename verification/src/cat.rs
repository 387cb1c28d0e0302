//! The cat tool's line processing: numbering, blank-line squeezing, and
//! the visible rendering of control and high bytes.

use vstd::prelude::*;

verus! {

/// Which lines get numbers.
#[derive(Clone, Copy, Debug, PartialEq, Eq, Structural)]
pub enum NumberMode {
    /// No numbering.
    Off,
    /// Number every line.
    All,
    /// Number non-blank lines only.
    NonBlank,
}

/// A line is blank when it is empty or holds a single newline byte.
pub open spec fn is_blank_line(line: Seq<u8>) -> bool {
    line.len() == 0 || (line.len() == 1 && line[0] == 10)
}

/// How one byte is rendered visibly: tab as `^I`, newline as `$`, other
/// control bytes as `^` plus the shifted letter, delete as `^?`, printable
/// high bytes as `M-` plus the low half, other high bytes as `M-?`, and
/// everything else as itself.
pub open spec fn show_all_byte(b: u8) -> Seq<u8> {
    if b == 9 {
        seq![94u8, 73u8]
    } else if b == 10 {
        seq![36u8]
    } else if b <= 31 {
        seq![94u8, (b + 64) as u8]
    } else if b == 127 {
        seq![94u8, 63u8]
    } else if b >= 128 {
        if b >= 160 && b < 255 {
            seq![77u8, 45u8, (b - 128) as u8]
        } else {
            seq![77u8, 45u8, 63u8]
        }
    } else {
        seq![b]
    }
}

/// A whole line rendered visibly, byte for byte.
pub open spec fn show_all_spec(line: Seq<u8>) -> Seq<u8>
    decreases line.len(),
{
    if line.len() == 0 {
        Seq::empty()
    } else {
        show_all_byte(line[0]) + show_all_spec(line.drop_first())
    }
}

/// The decimal digits of `n` as bytes.
pub open spec fn dec_bytes(n: int) -> Seq<u8>
    decreases n,
{
    if n < 0 {
        Seq::empty()
    } else if n < 10 {
        seq![(48 + n) as u8]
    } else {
        dec_bytes(n / 10) + seq![(48 + n % 10) as u8]
    }
}

/// `s` preceded by enough copies of `b` to reach `width` bytes.
pub open spec fn pad_bytes_left(s: Seq<u8>, width: int, b: u8) -> Seq<u8> {
    if s.len() >= width {
        s
    } else {
        Seq::new((width - s.len()) as nat, |i: int| b) + s
    }
}

/// The numbering prefix: the line number right-aligned in six columns,
/// then a tab.
pub open spec fn number_prefix(n: int) -> Seq<u8> {
    pad_bytes_left(dec_bytes(n), 6, 32) + seq![9u8]
}

/// The blank prefix used in place of a number: six spaces and a tab.
pub open spec fn blank_prefix() -> Seq<u8> {
    seq![32u8, 32u8, 32u8, 32u8, 32u8, 32u8, 9u8]
}

/// Processes lines one at a time, carrying the numbering and squeezing
/// state between them.
pub struct LineProcessor {
    pub number_mode: NumberMode,
    pub show_all: bool,
    pub squeeze_blank: bool,
    pub line_number: usize,
    pub last_was_blank: bool,
}

/// The bytes one call with this state and line emits: nothing for a
/// squeezed repeat blank; otherwise the numbering prefix the mode calls
/// for, the line (rendered visibly on request), and a newline.
pub open spec fn emitted_spec(p: LineProcessor, line: Seq<u8>) -> Seq<u8> {
    let blank = is_blank_line(line);
    if p.squeeze_blank && blank && p.last_was_blank {
        Seq::empty()
    } else {
        let prefix = match p.number_mode {
            NumberMode::Off => Seq::<u8>::empty(),
            NumberMode::All => number_prefix(p.line_number + 1),
            NumberMode::NonBlank => if !blank {
                number_prefix(p.line_number + 1)
            } else {
                blank_prefix()
            },
        };
        let body = if p.show_all {
            show_all_spec(line)
        } else {
            line
        };
        prefix + body + seq![10u8]
    }
}

/// The state after one call: the blank flag tracks squeezing, and the
/// line counter advances for each line the mode numbers.
pub open spec fn next_state_spec(p: LineProcessor, line: Seq<u8>) -> LineProcessor {
    let blank = is_blank_line(line);
    if p.squeeze_blank && blank && p.last_was_blank {
        p
    } else {
        let counted = match p.number_mode {
            NumberMode::Off => false,
            NumberMode::All => true,
            NumberMode::NonBlank => !blank,
        };
        LineProcessor {
            last_was_blank: p.squeeze_blank && blank,
            line_number: if counted {
                (p.line_number + 1) as usize
            } else {
                p.line_number
            },
            ..p
        }
    }
}

fn push_dec_bytes(out: &mut Vec<u8>, n: usize)
    ensures
        final(out)@ == old(out)@ + dec_bytes(n as int),
    decreases n,
{
    if n < 10 {
        out.push((48 + n) as u8);
        proof {
            assert(out@ =~= old(out)@ + dec_bytes(n as int));
        }
    } else {
        push_dec_bytes(out, n / 10);
        out.push((48 + (n % 10)) as u8);
        proof {
            assert(out@ =~= old(out)@ + dec_bytes(n as int));
        }
    }
}

/// The number of decimal digits of `n`.
pub proof fn lemma_dec_bytes_len(n: int)
    ensures
        n >= 0 ==> dec_bytes(n).len() >= 1,
    decreases n,
{
    if n >= 10 {
        lemma_dec_bytes_len(n / 10);
    }
}

fn push_number_prefix(out: &mut Vec<u8>, n: usize)
    ensures
        final(out)@ == old(out)@ + number_prefix(n as int),
{
    let mut digits: Vec<u8> = Vec::new();
    push_dec_bytes(&mut digits, n);
    proof {
        assert(digits@ =~= dec_bytes(n as int));
        lemma_dec_bytes_len(n as int);
    }
    let len: usize = digits.len();
    let mut k: usize = 0;
    let ghost entry = out@;
    while k + len < 6
        invariant
            len == digits@.len(),
            1 <= len,
            k + len <= 6 || k == 0,
            out@ =~= entry + Seq::new(k as nat, |i: int| 32u8),
        decreases 6 - k - len,
    {
        out.push(32u8);
        proof {
            assert(out@ =~= entry + Seq::new((k + 1) as nat, |i: int| 32u8));
        }
        k = k + 1;
    }
    let mut j: usize = 0;
    while j < len
        invariant
            len == digits@.len(),
            j <= len,
            out@ =~= entry + Seq::new(k as nat, |i: int| 32u8) + digits@.take(j as int),
        decreases len - j,
    {
        let b: u8 = digits[j];
        out.push(b);
        proof {
            assert(out@ =~= entry + Seq::new(k as nat, |i: int| 32u8) + digits@.take(j + 1));
        }
        j = j + 1;
    }
    out.push(9u8);
    proof {
        assert(digits@.take(len as int) =~= digits@);
        if digits@.len() >= 6 {
            assert(k == 0);
            assert(Seq::new(0, |i: int| 32u8) =~= Seq::<u8>::empty());
            assert(pad_bytes_left(dec_bytes(n as int), 6, 32) =~= dec_bytes(n as int));
            assert(out@ =~= entry + number_prefix(n as int));
        } else {
            assert(k + len == 6);
            assert(Seq::new(k as nat, |i: int| 32u8) =~= Seq::new(
                (6 - dec_bytes(n as int).len()) as nat,
                |i: int| 32u8,
            ));
            assert(out@ =~= entry + number_prefix(n as int));
        }
    }
}

impl LineProcessor {
    /// A fresh processor: no lines seen, counter at zero.
    pub fn new(number_mode: NumberMode, show_all: bool, squeeze_blank: bool) -> (r: LineProcessor)
        ensures
            r.number_mode == number_mode,
            r.show_all == show_all,
            r.squeeze_blank == squeeze_blank,
            r.line_number == 0,
            !r.last_was_blank,
    {
        LineProcessor { number_mode, show_all, squeeze_blank, line_number: 0, last_was_blank: false }
    }

    /// Renders one line visibly onto `out`.
    pub fn write_with_show_all(&self, line: &[u8], out: &mut Vec<u8>)
        ensures
            final(out)@ == old(out)@ + show_all_spec(line@),
    {
        let n: usize = line.len();
        let mut i: usize = 0;
        let ghost entry = out@;
        proof {
            assert(line@.skip(0) =~= line@);
            assert(entry + Seq::<u8>::empty() =~= entry);
        }
        while i < n
            invariant
                n == line@.len(),
                i <= n,
                out@ + show_all_spec(line@.skip(i as int)) =~= entry + show_all_spec(line@),
            decreases n - i,
        {
            let ghost rest = line@.skip(i as int);
            proof {
                assert(rest[0] == line@[i as int]);
                assert(rest.drop_first() =~= line@.skip(i + 1));
            }
            let b: u8 = line[i];
            if b == 9 {
                out.push(94);
                out.push(73);
            } else if b == 10 {
                out.push(36);
            } else if b <= 31 {
                out.push(94);
                out.push(b + 64);
            } else if b == 127 {
                out.push(94);
                out.push(63);
            } else if b >= 128 {
                out.push(77);
                out.push(45);
                if b >= 160 && b < 255 {
                    out.push(b - 128);
                } else {
                    out.push(63);
                }
            } else {
                out.push(b);
            }
            proof {
                assert(out@ + show_all_spec(line@.skip(i + 1)) =~= entry + show_all_spec(line@));
            }
            i = i + 1;
        }
        proof {
            assert(line@.skip(n as int) =~= Seq::<u8>::empty());
            assert(out@ =~= out@ + show_all_spec(line@.skip(n as int)));
        }
    }

    /// Processes one line: appends what the mode emits for it onto `out`
    /// and advances the numbering and squeezing state.
    pub fn process_line(&mut self, line: &[u8], out: &mut Vec<u8>)
        requires
            old(self).line_number < usize::MAX,
        ensures
            final(out)@ == old(out)@ + emitted_spec(*old(self), line@),
            *final(self) == next_state_spec(*old(self), line@),
    {
        let blank: bool = line.len() == 0 || (line.len() == 1 && line[0] == 10);
        if self.squeeze_blank && blank {
            if self.last_was_blank {
                proof {
                    assert(out@ =~= old(out)@ + emitted_spec(*old(self), line@));
                }
                return ;
            }
            self.last_was_blank = true;
        } else {
            self.last_was_blank = false;
        }
        match self.number_mode {
            NumberMode::All => {
                self.line_number = self.line_number + 1;
                push_number_prefix(out, self.line_number);
            },
            NumberMode::NonBlank => {
                if !blank {
                    self.line_number = self.line_number + 1;
                    push_number_prefix(out, self.line_number);
                } else {
                    out.push(32);
                    out.push(32);
                    out.push(32);
                    out.push(32);
                    out.push(32);
                    out.push(32);
                    out.push(9);
                    proof {
                        assert(out@ =~= old(out)@ + blank_prefix());
                    }
                }
            },
            NumberMode::Off => {},
        }
        let ghost with_prefix = out@;
        if self.show_all {
            self.write_with_show_all(line, out);
        } else {
            let n: usize = line.len();
            let mut i: usize = 0;
            while i < n
                invariant
                    n == line@.len(),
                    i <= n,
                    out@ =~= with_prefix + line@.take(i as int),
                decreases n - i,
            {
                let b: u8 = line[i];
                out.push(b);
                proof {
                    assert(out@ =~= with_prefix + line@.take(i + 1));
                }
                i = i + 1;
            }
            proof {
                assert(line@.take(n as int) =~= line@);
            }
        }
        out.push(10);
        proof {
            assert(out@ =~= old(out)@ + emitted_spec(*old(self), line@));
        }
    }
}

} // verus!
