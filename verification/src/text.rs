//! Character and string utilities: whitespace classification, searching,
//! trimming, splitting, tokenizing, joining, and decimal formatting.

use vstd::prelude::*;

verus! {

/// The Unicode `White_Space` characters, the set that `char::is_whitespace`
/// recognizes.
pub open spec fn is_space(c: char) -> bool {
    ||| c as u32 == 0x9
    ||| c as u32 == 0xA
    ||| c as u32 == 0xB
    ||| c as u32 == 0xC
    ||| c as u32 == 0xD
    ||| c as u32 == 0x20
    ||| c as u32 == 0x85
    ||| c as u32 == 0xA0
    ||| c as u32 == 0x1680
    ||| (0x2000 <= c as u32 && c as u32 <= 0x200A)
    ||| c as u32 == 0x2028
    ||| c as u32 == 0x2029
    ||| c as u32 == 0x202F
    ||| c as u32 == 0x205F
    ||| c as u32 == 0x3000
}

pub fn is_space_char(c: char) -> (r: bool)
    ensures
        r == is_space(c),
{
    let u: u32 = c as u32;
    u == 0x9 || u == 0xA || u == 0xB || u == 0xC || u == 0xD || u == 0x20 || u == 0x85
        || u == 0xA0 || u == 0x1680 || (0x2000 <= u && u <= 0x200A) || u == 0x2028 || u == 0x2029
        || u == 0x202F || u == 0x205F || u == 0x3000
}

/// Character-by-character string equality.
pub fn str_eq(a: &str, b: &str) -> (r: bool)
    ensures
        r == (a@ == b@),
{
    let na: usize = a.unicode_len();
    let nb: usize = b.unicode_len();
    if na != nb {
        assert(a@ != b@);
        return false;
    }
    let mut i: usize = 0;
    while i < na
        invariant
            na == a@.len(),
            na == b@.len(),
            i <= na,
            forall|j: int| 0 <= j < i ==> a@[j] == b@[j],
        decreases na - i,
    {
        if a.get_char(i) != b.get_char(i) {
            assert(a@ != b@);
            return false;
        }
        i = i + 1;
    }
    assert(a@ =~= b@);
    true
}

/// The position of the first occurrence of `c` in `s`.
pub open spec fn find_char_spec(s: Seq<char>, c: char) -> Option<int>
    decreases s.len(),
{
    if s.len() == 0 {
        None
    } else if s[0] == c {
        Some(0)
    } else {
        match find_char_spec(s.drop_first(), c) {
            Some(i) => Some(i + 1),
            None => None,
        }
    }
}

/// What `find_char_spec` returns: the first index holding `c`, if any.
pub proof fn lemma_find_char_spec(s: Seq<char>, c: char)
    ensures
        match find_char_spec(s, c) {
            Some(i) => 0 <= i < s.len() && s[i] == c && forall|j: int| 0 <= j < i ==> s[j] != c,
            None => forall|j: int| 0 <= j < s.len() ==> s[j] != c,
        },
    decreases s.len(),
{
    if s.len() > 0 && s[0] != c {
        lemma_find_char_spec(s.drop_first(), c);
        match find_char_spec(s.drop_first(), c) {
            Some(i) => {
                assert forall|j: int| 0 <= j < i + 1 implies s[j] != c by {
                    if j > 0 {
                        assert(s.drop_first()[j - 1] == s[j]);
                    }
                }
            },
            None => {
                assert forall|j: int| 0 <= j < s.len() implies s[j] != c by {
                    if j > 0 {
                        assert(s.drop_first()[j - 1] == s[j]);
                    }
                }
            },
        }
    }
}

pub fn find_char(s: &str, c: char) -> (r: Option<usize>)
    ensures
        match r {
            Some(i) => find_char_spec(s@, c) == Some(i as int),
            None => find_char_spec(s@, c) is None,
        },
{
    let n: usize = s.unicode_len();
    let mut i: usize = 0;
    while i < n
        invariant
            n == s@.len(),
            i <= n,
            forall|j: int| 0 <= j < i ==> s@[j] != c,
        decreases n - i,
    {
        if s.get_char(i) == c {
            proof {
                lemma_find_char_spec(s@, c);
            }
            return Some(i);
        }
        i = i + 1;
    }
    proof {
        lemma_find_char_spec(s@, c);
    }
    None
}

/// The position of the first occurrence of the two-character sequence
/// `c` followed by `d` in `s`.
pub open spec fn find_pair_spec(s: Seq<char>, c: char, d: char) -> Option<int>
    decreases s.len(),
{
    if s.len() < 2 {
        None
    } else if s[0] == c && s[1] == d {
        Some(0)
    } else {
        match find_pair_spec(s.drop_first(), c, d) {
            Some(i) => Some(i + 1),
            None => None,
        }
    }
}

/// What `find_pair_spec` returns: the first index where `c` and `d` stand
/// adjacent, if any.
pub proof fn lemma_find_pair_spec(s: Seq<char>, c: char, d: char)
    ensures
        match find_pair_spec(s, c, d) {
            Some(i) => 0 <= i && i + 2 <= s.len() && s[i] == c && s[i + 1] == d && forall|j: int|
                0 <= j < i ==> !(#[trigger] s[j] == c && s[j + 1] == d),
            None => forall|j: int|
                0 <= j && j + 2 <= s.len() ==> !(#[trigger] s[j] == c && s[j + 1] == d),
        },
    decreases s.len(),
{
    if s.len() >= 2 && !(s[0] == c && s[1] == d) {
        lemma_find_pair_spec(s.drop_first(), c, d);
        assert forall|j: int| 0 <= j < s.len() - 1 implies s.drop_first()[j] == s[j + 1] by {}
        match find_pair_spec(s.drop_first(), c, d) {
            Some(i) => {
                assert forall|j: int| 0 <= j < i + 1 implies !(#[trigger] s[j] == c && s[j + 1]
                    == d) by {
                    if j > 0 {
                        assert(s.drop_first()[j - 1] == s[j]);
                        assert(s.drop_first()[j] == s[j + 1]);
                    }
                }
            },
            None => {
                assert forall|j: int| 0 <= j && j + 2 <= s.len() implies !(#[trigger] s[j] == c
                    && s[j + 1] == d) by {
                    if j > 0 {
                        assert(s.drop_first()[j - 1] == s[j]);
                        assert(s.drop_first()[j] == s[j + 1]);
                    }
                }
            },
        }
    }
}

pub fn find_pair(s: &str, c: char, d: char) -> (r: Option<usize>)
    ensures
        match r {
            Some(i) => find_pair_spec(s@, c, d) == Some(i as int),
            None => find_pair_spec(s@, c, d) is None,
        },
{
    let n: usize = s.unicode_len();
    if n < 2 {
        return None;
    }
    let mut i: usize = 0;
    while i < n - 1
        invariant
            n == s@.len(),
            2 <= n,
            i <= n - 1,
            forall|j: int| 0 <= j < i ==> !(#[trigger] s@[j] == c && s@[j + 1] == d),
        decreases n - i,
    {
        if s.get_char(i) == c && s.get_char(i + 1) == d {
            proof {
                lemma_find_pair_spec(s@, c, d);
            }
            return Some(i);
        }
        i = i + 1;
    }
    proof {
        lemma_find_pair_spec(s@, c, d);
    }
    None
}

/// `s` without its leading whitespace.
pub open spec fn trim_start_spec(s: Seq<char>) -> Seq<char>
    decreases s.len(),
{
    if s.len() > 0 && is_space(s[0]) {
        trim_start_spec(s.drop_first())
    } else {
        s
    }
}

/// `s` without its trailing whitespace.
pub open spec fn trim_end_spec(s: Seq<char>) -> Seq<char>
    decreases s.len(),
{
    if s.len() > 0 && is_space(s.last()) {
        trim_end_spec(s.drop_last())
    } else {
        s
    }
}

/// `s` without leading and trailing whitespace, as `str::trim` yields it.
pub open spec fn trim_spec(s: Seq<char>) -> Seq<char> {
    trim_end_spec(trim_start_spec(s))
}

proof fn lemma_trim_start_at(s: Seq<char>, a: int)
    requires
        0 <= a <= s.len(),
        forall|j: int| 0 <= j < a ==> is_space(s[j]),
        a < s.len() ==> !is_space(s[a]),
    ensures
        trim_start_spec(s) == s.skip(a),
    decreases a,
{
    if a == 0 {
        assert(s.skip(0) =~= s);
    } else {
        lemma_trim_start_at(s.drop_first(), a - 1);
        assert(s.drop_first().skip(a - 1) =~= s.skip(a));
    }
}

proof fn lemma_trim_end_at(s: Seq<char>, b: int)
    requires
        0 <= b <= s.len(),
        forall|j: int| b <= j < s.len() ==> is_space(s[j]),
        b > 0 ==> !is_space(s[b - 1]),
    ensures
        trim_end_spec(s) == s.take(b),
    decreases s.len() - b,
{
    if b == s.len() {
        assert(s.take(b) =~= s);
    } else {
        lemma_trim_end_at(s.drop_last(), b);
        assert(s.drop_last().take(b) =~= s.take(b));
    }
}

pub fn trim(s: &str) -> (r: &str)
    ensures
        r@ == trim_spec(s@),
{
    let n: usize = s.unicode_len();
    let mut a: usize = 0;
    while a < n && is_space_char(s.get_char(a))
        invariant
            n == s@.len(),
            a <= n,
            forall|j: int| 0 <= j < a ==> is_space(s@[j]),
        decreases n - a,
    {
        a = a + 1;
    }
    let mut b: usize = n;
    while b > a && is_space_char(s.get_char(b - 1))
        invariant
            n == s@.len(),
            a <= b <= n,
            a < s@.len() ==> !is_space(s@[a as int]),
            forall|j: int| b <= j < n ==> is_space(s@[j]),
        decreases b,
    {
        b = b - 1;
    }
    proof {
        lemma_trim_start_at(s@, a as int);
        if a == b {
            lemma_trim_end_at(s@.skip(a as int), 0);
        } else {
            lemma_trim_end_at(s@.skip(a as int), b - a);
        }
        assert(s@.skip(a as int).take(b - a) =~= s@.subrange(a as int, b as int));
    }
    s.substring_char(a, b)
}

/// The segments of `s` between occurrences of the separator `c`; one more
/// segment than there are separators, so a lone separator yields two
/// (possibly empty) segments.
pub open spec fn split_char_spec(s: Seq<char>, c: char) -> Seq<Seq<char>>
    decreases s.len(),
{
    match find_char_spec(s, c) {
        Some(i) => if 0 <= i < s.len() {
            seq![s.take(i)] + split_char_spec(s.skip(i + 1), c)
        } else {
            seq![s]
        },
        None => seq![s],
    }
}

pub fn split_char(s: &str, c: char) -> (r: Vec<String>)
    ensures
        r.deep_view() == split_char_spec(s@, c),
{
    let mut parts: Vec<String> = Vec::new();
    let mut rest: &str = s;
    loop
        invariant
            parts.deep_view() + split_char_spec(rest@, c) =~= split_char_spec(s@, c),
        decreases rest@.len(),
    {
        proof {
            lemma_find_char_spec(rest@, c);
        }
        match find_char(rest, c) {
            Some(i) => {
                let piece: &str = rest.substring_char(0, i);
                let n: usize = rest.unicode_len();
                assert(piece@ =~= rest@.take(i as int));
                parts.push(piece.to_owned());
                let tail: &str = rest.substring_char(i + 1, n);
                assert(tail@ =~= rest@.skip(i + 1));
                proof {
                    assert(parts.deep_view() =~= parts.deep_view().drop_last().push(piece@));
                    assert(parts.deep_view() + split_char_spec(tail@, c) =~= parts
                        .deep_view()
                        .drop_last() + split_char_spec(rest@, c));
                }
                rest = tail;
            },
            None => {
                parts.push(rest.to_owned());
                proof {
                    assert(parts.deep_view() =~= parts.deep_view().drop_last().push(rest@));
                    assert(parts.deep_view() =~= parts.deep_view().drop_last() + split_char_spec(
                        rest@,
                        c,
                    ));
                }
                return parts;
            },
        }
    }
}

/// The position of the first whitespace character in `s`.
pub open spec fn find_space_spec(s: Seq<char>) -> Option<int>
    decreases s.len(),
{
    if s.len() == 0 {
        None
    } else if is_space(s[0]) {
        Some(0)
    } else {
        match find_space_spec(s.drop_first()) {
            Some(i) => Some(i + 1),
            None => None,
        }
    }
}

/// What `find_space_spec` returns: the first whitespace index, if any.
pub proof fn lemma_find_space_spec(s: Seq<char>)
    ensures
        match find_space_spec(s) {
            Some(i) => 0 <= i < s.len() && is_space(s[i]) && forall|j: int|
                0 <= j < i ==> !is_space(s[j]),
            None => forall|j: int| 0 <= j < s.len() ==> !is_space(s[j]),
        },
    decreases s.len(),
{
    if s.len() > 0 && !is_space(s[0]) {
        lemma_find_space_spec(s.drop_first());
        assert forall|j: int| 1 <= j < s.len() implies s.drop_first()[j - 1] == s[j] by {}
    }
}

fn find_space(s: &str) -> (r: Option<usize>)
    ensures
        match r {
            Some(i) => find_space_spec(s@) == Some(i as int),
            None => find_space_spec(s@) is None,
        },
{
    let n: usize = s.unicode_len();
    let mut i: usize = 0;
    while i < n
        invariant
            n == s@.len(),
            i <= n,
            forall|j: int| 0 <= j < i ==> !is_space(s@[j]),
        decreases n - i,
    {
        if is_space_char(s.get_char(i)) {
            proof {
                lemma_find_space_spec(s@);
            }
            return Some(i);
        }
        i = i + 1;
    }
    proof {
        lemma_find_space_spec(s@);
    }
    None
}

/// The pieces of `s` between whitespace characters, empty pieces included.
pub open spec fn space_split_spec(s: Seq<char>) -> Seq<Seq<char>>
    decreases s.len(),
{
    match find_space_spec(s) {
        Some(i) => if 0 <= i < s.len() {
            seq![s.take(i)] + space_split_spec(s.skip(i + 1))
        } else {
            seq![s]
        },
        None => seq![s],
    }
}

/// The whitespace-separated words of `s`, as `str::split_whitespace`
/// yields them: the non-empty pieces between whitespace characters.
pub open spec fn tokens_spec(s: Seq<char>) -> Seq<Seq<char>> {
    space_split_spec(s).filter(|t: Seq<char>| t.len() > 0)
}

pub fn tokenize(s: &str) -> (r: Vec<String>)
    ensures
        r.deep_view() == tokens_spec(s@),
{
    let mut words: Vec<String> = Vec::new();
    let mut rest: &str = s;
    loop
        invariant
            words.deep_view() + tokens_spec(rest@) =~= tokens_spec(s@),
        decreases rest@.len(),
    {
        proof {
            lemma_find_space_spec(rest@);
        }
        match find_space(rest) {
            Some(i) => {
                let piece: &str = rest.substring_char(0, i);
                let n: usize = rest.unicode_len();
                assert(piece@ =~= rest@.take(i as int));
                let tail: &str = rest.substring_char(i + 1, n);
                assert(tail@ =~= rest@.skip(i + 1));
                proof {
                    let pred = |t: Seq<char>| t.len() > 0;
                    assert(space_split_spec(rest@) =~= seq![piece@] + space_split_spec(tail@));
                    Seq::<Seq<char>>::filter_distributes_over_add(
                        seq![piece@],
                        space_split_spec(tail@),
                        pred,
                    );
                    reveal_with_fuel(Seq::<_>::filter, 2);
                    assert(seq![piece@].drop_last() =~= Seq::<Seq<char>>::empty());
                }
                if i > 0 {
                    proof {
                        assert(seq![piece@].filter(|t: Seq<char>| t.len() > 0) =~= seq![piece@]);
                    }
                    words.push(piece.to_owned());
                    proof {
                        assert(words.deep_view() =~= words.deep_view().drop_last().push(piece@));
                    }
                } else {
                    proof {
                        assert(seq![piece@].filter(|t: Seq<char>| t.len() > 0) =~= Seq::<
                            Seq<char>,
                        >::empty());
                    }
                }
                rest = tail;
            },
            None => {
                let n: usize = rest.unicode_len();
                proof {
                    assert(space_split_spec(rest@) =~= seq![rest@]);
                    reveal_with_fuel(Seq::<_>::filter, 2);
                    assert(seq![rest@].drop_last() =~= Seq::<Seq<char>>::empty());
                }
                if n > 0 {
                    proof {
                        assert(seq![rest@].filter(|t: Seq<char>| t.len() > 0) =~= seq![rest@]);
                    }
                    words.push(rest.to_owned());
                    proof {
                        assert(words.deep_view() =~= words.deep_view().drop_last().push(rest@));
                    }
                } else {
                    proof {
                        assert(seq![rest@].filter(|t: Seq<char>| t.len() > 0) =~= Seq::<
                            Seq<char>,
                        >::empty());
                    }
                }
                return words;
            },
        }
    }
}

/// The parts joined with a single space between consecutive parts.
pub open spec fn join_spaces_spec(parts: Seq<Seq<char>>) -> Seq<char>
    decreases parts.len(),
{
    if parts.len() == 0 {
        Seq::empty()
    } else if parts.len() == 1 {
        parts[0]
    } else {
        parts[0] + seq![' '] + join_spaces_spec(parts.drop_first())
    }
}

pub fn join_spaces(parts: &Vec<String>) -> (r: String)
    ensures
        r@ == join_spaces_spec(parts.deep_view()),
{
    let mut out = String::new();
    let n: usize = parts.len();
    let mut i: usize = 0;
    proof {
        assert(parts.deep_view().skip(0) =~= parts.deep_view());
        assert(out@ + join_spaces_spec(parts.deep_view()) =~= join_spaces_spec(parts.deep_view()));
    }
    while i < n
        invariant
            n == parts.len(),
            i <= n,
            out@ + join_spaces_spec(parts.deep_view().skip(i as int)) =~= join_spaces_spec(
                parts.deep_view(),
            ),
        decreases n - i,
    {
        let ghost tail = parts.deep_view().skip(i as int);
        proof {
            assert(tail.len() == n - i);
            assert(tail[0] == parts.deep_view()[i as int]);
        }
        out.append(parts[i].as_str());
        if i + 1 < n {
            out.append(" ");
            proof {
                assert(" "@ =~= seq![' ']) by {
                    reveal_strlit(" ");
                }
                assert(tail.drop_first() =~= parts.deep_view().skip(i + 1));
                assert(join_spaces_spec(tail) == tail[0] + seq![' '] + join_spaces_spec(
                    tail.drop_first(),
                ));
                assert(out@ + join_spaces_spec(parts.deep_view().skip(i + 1))
                    =~= join_spaces_spec(parts.deep_view()));
            }
        } else {
            proof {
                assert(tail =~= seq![parts.deep_view()[i as int]]);
                assert(parts.deep_view().skip(i + 1) =~= Seq::<Seq<char>>::empty());
                assert(out@ + join_spaces_spec(parts.deep_view().skip(i + 1))
                    =~= join_spaces_spec(parts.deep_view()));
            }
        }
        i = i + 1;
    }
    proof {
        assert(parts.deep_view().skip(n as int) =~= Seq::<Seq<char>>::empty());
        assert(out@ =~= out@ + Seq::<char>::empty());
    }
    out
}

/// Lexicographic order on character sequences by code point, the order in
/// which `str` compares.
pub open spec fn lex_le(a: Seq<char>, b: Seq<char>) -> bool
    decreases a.len(),
{
    if a.len() == 0 {
        true
    } else if b.len() == 0 {
        false
    } else if (a[0] as u32) < (b[0] as u32) {
        true
    } else if (a[0] as u32) > (b[0] as u32) {
        false
    } else {
        lex_le(a.drop_first(), b.drop_first())
    }
}

/// Any two sequences compare in at least one direction.
pub proof fn lemma_lex_le_total(a: Seq<char>, b: Seq<char>)
    ensures
        lex_le(a, b) || lex_le(b, a),
    decreases a.len(),
{
    if a.len() > 0 && b.len() > 0 && (a[0] as u32) == (b[0] as u32) {
        lemma_lex_le_total(a.drop_first(), b.drop_first());
    }
}

/// The order is transitive.
pub proof fn lemma_lex_le_trans(a: Seq<char>, b: Seq<char>, c: Seq<char>)
    requires
        lex_le(a, b),
        lex_le(b, c),
    ensures
        lex_le(a, c),
    decreases a.len(),
{
    if a.len() > 0 && b.len() > 0 && c.len() > 0 && (a[0] as u32) == (b[0] as u32) && (
    b[0] as u32) == (c[0] as u32) {
        lemma_lex_le_trans(a.drop_first(), b.drop_first(), c.drop_first());
    }
}

pub fn str_lex_le(a: &str, b: &str) -> (r: bool)
    ensures
        r == lex_le(a@, b@),
{
    let na: usize = a.unicode_len();
    let nb: usize = b.unicode_len();
    let mut i: usize = 0;
    proof {
        assert(a@.skip(0) =~= a@);
        assert(b@.skip(0) =~= b@);
    }
    loop
        invariant
            na == a@.len(),
            nb == b@.len(),
            i <= na,
            i <= nb,
            lex_le(a@, b@) == lex_le(a@.skip(i as int), b@.skip(i as int)),
        decreases na - i,
    {
        if i == na {
            proof {
                assert(a@.skip(i as int).len() == 0);
            }
            return true;
        }
        if i == nb {
            proof {
                assert(b@.skip(i as int).len() == 0);
                assert(a@.skip(i as int).len() > 0);
            }
            return false;
        }
        let ca: char = a.get_char(i);
        let cb: char = b.get_char(i);
        proof {
            assert(a@.skip(i as int)[0] == a@[i as int]);
            assert(b@.skip(i as int)[0] == b@[i as int]);
        }
        if (ca as u32) < (cb as u32) {
            return true;
        }
        if (ca as u32) > (cb as u32) {
            return false;
        }
        proof {
            assert(a@.skip(i as int).drop_first() =~= a@.skip(i + 1));
            assert(b@.skip(i as int).drop_first() =~= b@.skip(i + 1));
        }
        i = i + 1;
    }
}

/// The decimal digit character for `d`.
pub open spec fn dec_digit(d: int) -> char {
    if d == 0 {
        '0'
    } else if d == 1 {
        '1'
    } else if d == 2 {
        '2'
    } else if d == 3 {
        '3'
    } else if d == 4 {
        '4'
    } else if d == 5 {
        '5'
    } else if d == 6 {
        '6'
    } else if d == 7 {
        '7'
    } else if d == 8 {
        '8'
    } else {
        '9'
    }
}

/// The decimal digits of `n`, most significant first, with no sign and no
/// leading zero except for zero itself.
pub open spec fn dec_spec(n: int) -> Seq<char>
    decreases n,
{
    if n < 0 {
        Seq::empty()
    } else if n < 10 {
        seq![dec_digit(n)]
    } else {
        dec_spec(n / 10) + seq![dec_digit(n % 10)]
    }
}

fn digit_str(d: u64) -> (r: &'static str)
    requires
        d < 10,
    ensures
        r@ == seq![dec_digit(d as int)],
{
    proof {
        reveal_strlit("0");
        reveal_strlit("1");
        reveal_strlit("2");
        reveal_strlit("3");
        reveal_strlit("4");
        reveal_strlit("5");
        reveal_strlit("6");
        reveal_strlit("7");
        reveal_strlit("8");
        reveal_strlit("9");
    }
    let r: &'static str = if d == 0 {
        "0"
    } else if d == 1 {
        "1"
    } else if d == 2 {
        "2"
    } else if d == 3 {
        "3"
    } else if d == 4 {
        "4"
    } else if d == 5 {
        "5"
    } else if d == 6 {
        "6"
    } else if d == 7 {
        "7"
    } else if d == 8 {
        "8"
    } else {
        "9"
    };
    proof {
        assert(r@ =~= seq![dec_digit(d as int)]);
    }
    r
}

pub fn u64_to_string(n: u64) -> (r: String)
    ensures
        r@ == dec_spec(n as int),
    decreases n,
{
    if n < 10 {
        digit_str(n).to_owned()
    } else {
        let mut s = u64_to_string(n / 10);
        s.append(digit_str(n % 10));
        s
    }
}

/// `k` copies of the character `c`.
pub open spec fn repeat_char(c: char, k: int) -> Seq<char> {
    Seq::new(if k < 0 {
        0
    } else {
        k as nat
    }, |i: int| c)
}

/// `s` preceded by enough copies of `c` to reach `width` characters;
/// unchanged when already that wide.
pub open spec fn pad_left_spec(s: Seq<char>, width: int, c: char) -> Seq<char> {
    if s.len() >= width {
        s
    } else {
        repeat_char(c, width - s.len()) + s
    }
}

pub fn pad_left(s: &str, width: usize, fill: &str) -> (r: String)
    requires
        fill@.len() == 1,
    ensures
        r@ == pad_left_spec(s@, width as int, fill@[0]),
{
    let n: usize = s.unicode_len();
    let mut out = String::new();
    if n < width {
        let k: usize = width - n;
        let mut i: usize = 0;
        while i < k
            invariant
                i <= k,
                fill@.len() == 1,
                out@ =~= repeat_char(fill@[0], i as int),
            decreases k - i,
        {
            out.append(fill);
            proof {
                assert(out@ =~= repeat_char(fill@[0], i + 1));
            }
            i = i + 1;
        }
    }
    out.append(s);
    proof {
        if s@.len() < width {
            assert(out@ =~= repeat_char(fill@[0], width - s@.len()) + s@);
        } else {
            assert(out@ =~= s@);
        }
    }
    out
}

/// True when `s` begins with the character `c`.
pub fn starts_with_char(s: &str, c: char) -> (r: bool)
    ensures
        r == (s@.len() > 0 && s@[0] == c),
{
    if s.unicode_len() == 0 {
        false
    } else {
        s.get_char(0) == c
    }
}

/// What `str::to_lowercase` yields; it depends on the characters alone.
pub uninterp spec fn lower_of(s: Seq<char>) -> Seq<char>;

/// Relies on str::to_lowercase: maps a string to its Unicode lowercase
/// equivalent, a pure function of the characters.
#[verifier::external_body]
pub(crate) fn lowercase(s: &str) -> (r: String)
    ensures
        r@ == lower_of(s@),
{
    s.to_lowercase()
}

} // verus!
