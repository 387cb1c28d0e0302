//! The listing tool's pure logic: directory entries as plain values,
//! permission strings, ordering, and size and timestamp formatting.

use vstd::prelude::*;
use vstd::multiset::Multiset;
use crate::text::{
    dec_digit, dec_spec, lex_le, lemma_lex_le_total, lemma_lex_le_trans, lower_of, lowercase,
    pad_left, pad_left_spec, str_lex_le, u64_to_string,
};

verus! {

/// One directory entry, as plain values: the metadata the listing reads.
pub struct FileEntry {
    pub name: String,
    pub path: String,
    pub size: u64,
    /// Modification time as seconds since the epoch, when known.
    pub modified: Option<u64>,
    pub is_dir: bool,
    pub is_symlink: bool,
    /// The mode bits.
    pub permissions: u32,
}

/// The type character that leads a permissions string.
pub open spec fn file_type_char(e: FileEntry) -> char {
    if e.is_dir {
        'd'
    } else if e.is_symlink {
        'l'
    } else {
        '-'
    }
}

/// One permission character: the letter when the bit is set, a dash
/// otherwise.
pub open spec fn perm_char(set: bool, letter: char) -> char {
    if set {
        letter
    } else {
        '-'
    }
}

/// The ten-character permissions column: the type character, then
/// read/write/execute for owner, group, and others.
pub open spec fn permissions_string_spec(e: FileEntry) -> Seq<char> {
    seq![
        file_type_char(e),
        perm_char(e.permissions & 0x100 != 0, 'r'),
        perm_char(e.permissions & 0x80 != 0, 'w'),
        perm_char(e.permissions & 0x40 != 0, 'x'),
        perm_char(e.permissions & 0x20 != 0, 'r'),
        perm_char(e.permissions & 0x10 != 0, 'w'),
        perm_char(e.permissions & 0x8 != 0, 'x'),
        perm_char(e.permissions & 0x4 != 0, 'r'),
        perm_char(e.permissions & 0x2 != 0, 'w'),
        perm_char(e.permissions & 0x1 != 0, 'x'),
    ]
}

fn append_perm(out: &mut String, set: bool, letter: &str)
    requires
        letter@.len() == 1,
    ensures
        final(out)@ == old(out)@.push(perm_char(set, letter@[0])),
{
    if set {
        out.append(letter);
        proof {
            assert(out@ =~= old(out)@.push(letter@[0]));
        }
    } else {
        out.append("-");
        proof {
            assert("-"@ =~= seq!['-']) by {
                reveal_strlit("-");
            }
            assert(out@ =~= old(out)@.push('-'));
        }
    }
}

impl FileEntry {
    /// The ten-character permissions column for this entry.
    #[verifier::rlimit(50)]
    pub fn permissions_string(&self) -> (r: String)
        ensures
            r@ == permissions_string_spec(*self),
    {
        let mut out = String::new();
        if self.is_dir {
            out.append("d");
        } else if self.is_symlink {
            out.append("l");
        } else {
            out.append("-");
        }
        proof {
            reveal_strlit("d");
            reveal_strlit("l");
            reveal_strlit("-");
            assert(out@ =~= seq![file_type_char(*self)]);
        }
        let mode: u32 = self.permissions;
        proof {
            reveal_strlit("r");
            reveal_strlit("w");
            reveal_strlit("x");
        }
        append_perm(&mut out, mode & 0x100 != 0, "r");
        append_perm(&mut out, mode & 0x80 != 0, "w");
        append_perm(&mut out, mode & 0x40 != 0, "x");
        append_perm(&mut out, mode & 0x20 != 0, "r");
        append_perm(&mut out, mode & 0x10 != 0, "w");
        append_perm(&mut out, mode & 0x8 != 0, "x");
        append_perm(&mut out, mode & 0x4 != 0, "r");
        append_perm(&mut out, mode & 0x2 != 0, "w");
        append_perm(&mut out, mode & 0x1 != 0, "x");
        proof {
            assert(out@ =~= permissions_string_spec(*self));
        }
        out
    }
}

/// Order on optional times: an unknown time sorts before any known one.
pub open spec fn opt_le(a: Option<u64>, b: Option<u64>) -> bool {
    match (a, b) {
        (None, _) => true,
        (Some(_), None) => false,
        (Some(x), Some(y)) => x <= y,
    }
}

/// What the listing is ordered by.
#[derive(Clone, Copy, Debug, PartialEq, Eq, Structural)]
pub enum SortKey {
    /// The name as written, by code point.
    Name,
    /// The name folded to lowercase.
    NameFolded,
    /// The modification time, newest first.
    Time,
}

/// One entry sorts at or before another under the given key.
pub open spec fn key_le(a: FileEntry, b: FileEntry, key: SortKey) -> bool {
    match key {
        SortKey::Name => lex_le(a.name@, b.name@),
        SortKey::NameFolded => lex_le(lower_of(a.name@), lower_of(b.name@)),
        SortKey::Time => opt_le(b.modified, a.modified),
    }
}

/// The listing order under a key, optionally reversed.
pub open spec fn entry_le(a: FileEntry, b: FileEntry, key: SortKey, reverse: bool) -> bool {
    if reverse {
        key_le(b, a, key)
    } else {
        key_le(a, b, key)
    }
}

/// The order compares every entry to itself.
pub proof fn lemma_entry_le_refl(a: FileEntry, key: SortKey, reverse: bool)
    ensures
        entry_le(a, a, key, reverse),
{
    match key {
        SortKey::Name => lemma_lex_le_total(a.name@, a.name@),
        SortKey::NameFolded => lemma_lex_le_total(lower_of(a.name@), lower_of(a.name@)),
        SortKey::Time => {},
    }
}

/// The entries stand in listing order.
pub open spec fn entries_sorted(s: Seq<FileEntry>, key: SortKey, reverse: bool) -> bool {
    forall|i: int, j: int| 0 <= i < j < s.len() ==> #[trigger] entry_le(s[i], s[j], key, reverse)
}

/// Any two entries compare in at least one direction.
pub proof fn lemma_entry_le_total(a: FileEntry, b: FileEntry, key: SortKey, reverse: bool)
    ensures
        entry_le(a, b, key, reverse) || entry_le(b, a, key, reverse),
{
    match key {
        SortKey::Name => lemma_lex_le_total(a.name@, b.name@),
        SortKey::NameFolded => lemma_lex_le_total(lower_of(a.name@), lower_of(b.name@)),
        SortKey::Time => {},
    }
}

/// The listing order is transitive.
pub proof fn lemma_entry_le_trans(
    a: FileEntry,
    b: FileEntry,
    c: FileEntry,
    key: SortKey,
    reverse: bool,
)
    requires
        entry_le(a, b, key, reverse),
        entry_le(b, c, key, reverse),
    ensures
        entry_le(a, c, key, reverse),
{
    let (x, y, z) = if reverse {
        (c, b, a)
    } else {
        (a, b, c)
    };
    match key {
        SortKey::Name => lemma_lex_le_trans(x.name@, y.name@, z.name@),
        SortKey::NameFolded => lemma_lex_le_trans(
            lower_of(x.name@),
            lower_of(y.name@),
            lower_of(z.name@),
        ),
        SortKey::Time => {},
    }
}

fn entry_le_exec(a: &FileEntry, b: &FileEntry, key: SortKey, reverse: bool) -> (r: bool)
    ensures
        r == entry_le(*a, *b, key, reverse),
{
    let (x, y): (&FileEntry, &FileEntry) = if reverse {
        (b, a)
    } else {
        (a, b)
    };
    match key {
        SortKey::Name => str_lex_le(x.name.as_str(), y.name.as_str()),
        SortKey::NameFolded => {
            let la: String = lowercase(x.name.as_str());
            let lb: String = lowercase(y.name.as_str());
            str_lex_le(la.as_str(), lb.as_str())
        },
        SortKey::Time => match (&y.modified, &x.modified) {
            (Option::None, _) => true,
            (Option::Some(_), Option::None) => false,
            (Option::Some(p), Option::Some(q)) => *p <= *q,
        },
    }
}

/// Sorts the entries for display: by modification time, newest first,
/// when `by_time` holds, else case-insensitively by name; `reverse` flips
/// the order. The result holds exactly the same entries.
pub fn sort_entries(entries: &mut Vec<FileEntry>, by_time: bool, reverse: bool)
    ensures
        final(entries)@.to_multiset() == old(entries)@.to_multiset(),
        entries_sorted(
            final(entries)@,
            if by_time {
                SortKey::Time
            } else {
                SortKey::NameFolded
            },
            reverse,
        ),
{
    let key: SortKey = if by_time {
        SortKey::Time
    } else {
        SortKey::NameFolded
    };
    sort_entries_by(entries, key, reverse);
}

/// Sorts the entries under the given key. The result holds exactly the
/// same entries.
pub fn sort_entries_by(entries: &mut Vec<FileEntry>, key: SortKey, reverse: bool)
    ensures
        final(entries)@.to_multiset() == old(entries)@.to_multiset(),
        entries_sorted(final(entries)@, key, reverse),
{
    broadcast use vstd::seq_lib::group_to_multiset_ensures;

    let mut rest: Vec<FileEntry> = Vec::new();
    core::mem::swap(entries, &mut rest);
    let ghost orig = rest@;
    proof {
        assert(entries@.to_multiset().add(rest@.to_multiset()) =~= orig.to_multiset());
    }
    while rest.len() > 0
        invariant
            entries@.to_multiset().add(rest@.to_multiset()) == orig.to_multiset(),
            entries_sorted(entries@, key, reverse),
            forall|i: int, j: int|
                #![trigger entries@[i], rest@[j]]
                0 <= i < entries@.len() && 0 <= j < rest@.len() ==> entry_le(
                    entries@[i],
                    rest@[j],
                    key,
                    reverse,
                ),
        decreases rest@.len(),
    {
        let mut best: usize = 0;
        let mut k: usize = 1;
        proof {
            lemma_entry_le_refl(rest@[0], key, reverse);
        }
        while k < rest.len()
            invariant
                best < k,
                k <= rest@.len(),
                1 <= rest@.len(),
                forall|j: int|
                    0 <= j < k ==> entry_le(
                        rest@[best as int],
                        #[trigger] rest@[j],
                        key,
                        reverse,
                    ),
            decreases rest@.len() - k,
        {
            if !entry_le_exec(&rest[best], &rest[k], key, reverse) {
                proof {
                    lemma_entry_le_total(rest@[best as int], rest@[k as int], key, reverse);
                    assert forall|j: int| 0 <= j < k + 1 implies entry_le(
                        rest@[k as int],
                        #[trigger] rest@[j],
                        key,
                        reverse,
                    ) by {
                        if j == k as int {
                            lemma_entry_le_refl(rest@[k as int], key, reverse);
                        } else {
                            lemma_entry_le_trans(
                                rest@[k as int],
                                rest@[best as int],
                                rest@[j],
                                key,
                                reverse,
                            );
                        }
                    }
                }
                best = k;
            } else {
                proof {
                    assert forall|j: int| 0 <= j < k + 1 implies entry_le(
                        rest@[best as int],
                        #[trigger] rest@[j],
                        key,
                        reverse,
                    ) by {}
                }
            }
            k = k + 1;
        }
        let ghost rest_before = rest@;
        let ghost sorted_before = entries@;
        let x: FileEntry = rest.remove(best);
        proof {
            assert(rest@ =~= rest_before.remove(best as int));
        }
        entries.push(x);
        proof {
            assert(entries@ =~= sorted_before.push(rest_before[best as int]));
            assert forall|i: int, j: int| 0 <= i < j < entries@.len() implies #[trigger] entry_le(
                entries@[i],
                entries@[j],
                key,
                reverse,
            ) by {
                if j < entries@.len() - 1 {
                    assert(entry_le(sorted_before[i], sorted_before[j], key, reverse));
                } else {
                    assert(entries@[j] == rest_before[best as int]);
                    assert(entry_le(sorted_before[i], rest_before[best as int], key, reverse));
                }
            }
            assert forall|i: int, j: int|
                #![trigger entries@[i], rest@[j]]
                0 <= i < entries@.len() && 0 <= j < rest@.len() implies entry_le(
                entries@[i],
                rest@[j],
                key,
                reverse,
            ) by {
                let prev_j = if j < best as int {
                    j
                } else {
                    j + 1
                };
                assert(rest@[j] == rest_before[prev_j]);
                if i < entries@.len() - 1 {
                    assert(entry_le(sorted_before[i], rest_before[prev_j], key, reverse));
                } else {
                    assert(entry_le(
                        rest_before[best as int],
                        rest_before[prev_j],
                        key,
                        reverse,
                    ));
                }
            }
            sorted_before.to_multiset_ensures();
            rest_before.to_multiset_ensures();
            assert(entries@ == sorted_before.push(rest_before[best as int]));
            assert(rest@ == rest_before.remove(best as int));
            assert(entries@.to_multiset() =~= sorted_before.to_multiset().insert(
                rest_before[best as int],
            ));
            assert(rest@.to_multiset() =~= rest_before.to_multiset().remove(
                rest_before[best as int],
            ));
            assert(entries@.to_multiset().add(rest@.to_multiset()) =~= orig.to_multiset());
        }
    }
    proof {
        assert(rest@.to_multiset() =~= Multiset::<FileEntry>::empty());
        assert(entries@.to_multiset() =~= orig.to_multiset());
    }
}

/// 1024 to the `k`th power, for the unit scale.
pub open spec fn pow1024(k: int) -> int {
    if k <= 0 {
        1
    } else if k == 1 {
        1024
    } else if k == 2 {
        1048576
    } else if k == 3 {
        1073741824
    } else {
        1099511627776
    }
}

/// The unit a size is shown in: the largest power of 1024 not above it,
/// capped at the fifth unit.
pub open spec fn size_unit_index(size: int) -> int {
    if size < 1024 {
        0
    } else if size < 1048576 {
        1
    } else if size < 1073741824 {
        2
    } else if size < 1099511627776 {
        3
    } else {
        4
    }
}

/// The letter of each unit.
pub open spec fn unit_letter(k: int) -> char {
    if k <= 0 {
        'B'
    } else if k == 1 {
        'K'
    } else if k == 2 {
        'M'
    } else if k == 3 {
        'G'
    } else {
        'T'
    }
}

/// The size scaled by `d` in tenths, rounded to the nearest tenth with
/// ties going to the even tenth.
pub open spec fn scaled_tenths(size: int, d: int) -> int {
    let q = size * 10 / d;
    let r = size * 10 % d;
    if 2 * r > d {
        q + 1
    } else if 2 * r == d && q % 2 == 1 {
        q + 1
    } else {
        q
    }
}

/// A size formatted for reading: bytes up to 1023 as a bare count with
/// `B`, anything larger scaled to the fitting unit with one decimal.
pub open spec fn format_size_spec(size: int) -> Seq<char> {
    let k = size_unit_index(size);
    if k == 0 {
        dec_spec(size) + seq!['B']
    } else {
        let t = scaled_tenths(size, pow1024(k));
        dec_spec(t / 10) + seq!['.'] + seq![dec_digit(t % 10)] + seq![unit_letter(k)]
    }
}

/// Formats a byte count for reading: `1023` stays `1023B`, larger sizes
/// are scaled to one decimal in the fitting unit.
pub fn format_size_human(size: u64) -> (r: String)
    ensures
        r@ == format_size_spec(size as int),
{
    proof {
        reveal_strlit("B");
        reveal_strlit("K");
        reveal_strlit("M");
        reveal_strlit("G");
        reveal_strlit("T");
        reveal_strlit(".");
    }
    if size < 1024 {
        let mut out = u64_to_string(size);
        out.append("B");
        proof {
            assert(out@ =~= format_size_spec(size as int));
        }
        return out;
    }
    let d: u64 = if size < 1048576 {
        1024
    } else if size < 1073741824 {
        1048576
    } else if size < 1099511627776 {
        1073741824
    } else {
        1099511627776
    };
    let unit: &str = if size < 1048576 {
        "K"
    } else if size < 1073741824 {
        "M"
    } else if size < 1099511627776 {
        "G"
    } else {
        "T"
    };
    let t10: u128 = (size as u128) * 10;
    let du: u128 = d as u128;
    let q: u128 = t10 / du;
    let rr: u128 = t10 % du;
    proof {
        assert(q * du + rr == t10 && rr < du) by (nonlinear_arith)
            requires
                du > 0,
                q == t10 / du,
                rr == t10 % du,
        ;
        assert(q <= t10) by (nonlinear_arith)
            requires
                du >= 1,
                q * du + rr == t10,
                rr >= 0,
                q >= 0,
        ;
    }
    let tenths: u128 = if 2 * rr > du {
        q + 1
    } else if 2 * rr == du && q % 2 == 1 {
        q + 1
    } else {
        q
    };
    proof {
        assert(q < 0x10000000000000000u128) by (nonlinear_arith)
            requires
                du >= 1024,
                q * du + rr == t10,
                rr >= 0,
                q >= 0,
                t10 < 0x2800000000000000000u128,
        ;
    }
    let whole: u64 = (tenths / 10) as u64;
    let frac: u64 = (tenths % 10) as u64;
    let mut out = u64_to_string(whole);
    out.append(".");
    let frac_text = u64_to_string(frac);
    out.append(frac_text.as_str());
    out.append(unit);
    proof {
        let k = size_unit_index(size as int);
        assert(du as int == pow1024(k));
        assert(tenths as int == scaled_tenths(size as int, pow1024(k)));
        assert(dec_spec(frac as int) =~= seq![dec_digit(tenths as int % 10)]);
        assert(out@ =~= format_size_spec(size as int));
    }
    out
}

/// The length of each month in the flat year the date math uses.
pub open spec fn month_len(m: int) -> int {
    if m == 2 {
        28
    } else if m == 4 || m == 6 || m == 9 || m == 11 {
        30
    } else {
        31
    }
}

/// Walks the months from `m`, consuming `remaining` days: stops at the
/// month the remainder falls in, or past the twelfth.
pub open spec fn month_and_rem(m: int, remaining: int) -> (int, int)
    decreases 13 - m,
{
    if m >= 13 || remaining < month_len(m) {
        (m, remaining)
    } else {
        month_and_rem(m + 1, remaining - month_len(m))
    }
}

/// The calendar date this day count falls on, by the flat-year reckoning:
/// whole 365-day years, a leap-day correction subtracted from the day of
/// the year, then fixed month lengths.
pub open spec fn days_to_date_spec(total: int) -> (int, int, int) {
    let year0 = total / 365;
    let doy0 = total % 365;
    let leaps = year0 / 4 - year0 / 100 + year0 / 400;
    let year = if doy0 < leaps {
        year0 - 1
    } else {
        year0
    };
    let doy = if doy0 < leaps {
        365 + doy0
    } else {
        doy0 - leaps
    };
    let md = month_and_rem(1, doy);
    (year, md.0, md.1 + 1)
}

fn month_len_exec(m: u64) -> (r: u64)
    ensures
        r as int == month_len(m as int),
{
    if m == 2 {
        28
    } else if m == 4 || m == 6 || m == 9 || m == 11 {
        30
    } else {
        31
    }
}

/// Converts a day count to a calendar date by the flat-year reckoning.
pub fn days_to_date(total_days: u64) -> (r: (u64, u64, u64))
    ensures
        (r.0 as int, r.1 as int, r.2 as int) == days_to_date_spec(total_days as int),
{
    let year0: u64 = total_days / 365;
    let doy0: u64 = total_days % 365;
    proof {
        assert(year0 / 4 >= year0 / 100) by (nonlinear_arith)
            requires
                year0 >= 0,
        ;
    }
    let leaps: u64 = year0 / 4 - year0 / 100 + year0 / 400;
    let mut year: u64 = year0;
    let mut doy: u64 = doy0;
    if doy0 < leaps {
        proof {
            assert(year0 >= 1);
        }
        year = year0 - 1;
        doy = 365 + doy0;
    } else {
        doy = doy0 - leaps;
    }
    let mut month: u64 = 1;
    let mut remaining: u64 = doy;
    while month <= 12 && remaining >= month_len_exec(month)
        invariant
            1 <= month <= 13,
            remaining <= doy <= 729,
            month_and_rem(1, doy as int) == month_and_rem(month as int, remaining as int),
        decreases 13 - month,
    {
        remaining = remaining - month_len_exec(month);
        month = month + 1;
    }
    let day: u64 = remaining + 1;
    (year, month, day)
}

/// Two digits, zero-padded.
pub open spec fn two_digit(n: int) -> Seq<char> {
    pad_left_spec(dec_spec(n), 2, '0')
}

/// A timestamp rendered as `yyyy-mm-dd hh:mm` by the flat-year reckoning,
/// with the year zero-padded to four digits.
pub open spec fn format_timestamp_spec(secs: int) -> Seq<char> {
    let days = secs / 86400;
    let date = days_to_date_spec(719163 + days);
    let rem = secs % 86400;
    let hours = rem / 3600;
    let minutes = rem % 3600 / 60;
    pad_left_spec(dec_spec(date.0), 4, '0') + seq!['-'] + two_digit(date.1) + seq!['-']
        + two_digit(date.2) + seq![' '] + two_digit(hours) + seq![':'] + two_digit(minutes)
}

/// Renders a timestamp, given as seconds since the epoch, as
/// `yyyy-mm-dd hh:mm`.
pub fn format_timestamp(secs: u64) -> (r: String)
    ensures
        r@ == format_timestamp_spec(secs as int),
{
    proof {
        reveal_strlit("0");
        reveal_strlit("-");
        reveal_strlit(" ");
        reveal_strlit(":");
    }
    let days: u64 = secs / 86400;
    // days from year zero to the epoch
    let total_days: u64 = 719163 + days;
    let date: (u64, u64, u64) = days_to_date(total_days);
    let remaining_secs: u64 = secs % 86400;
    let hours: u64 = remaining_secs / 3600;
    let minutes: u64 = (remaining_secs % 3600) / 60;
    let year_text = u64_to_string(date.0);
    let mut out = pad_left(year_text.as_str(), 4, "0");
    out.append("-");
    let month_text = u64_to_string(date.1);
    let month_pad = pad_left(month_text.as_str(), 2, "0");
    out.append(month_pad.as_str());
    out.append("-");
    let day_text = u64_to_string(date.2);
    let day_pad = pad_left(day_text.as_str(), 2, "0");
    out.append(day_pad.as_str());
    out.append(" ");
    let hours_text = u64_to_string(hours);
    let hours_pad = pad_left(hours_text.as_str(), 2, "0");
    out.append(hours_pad.as_str());
    out.append(":");
    let minutes_text = u64_to_string(minutes);
    let minutes_pad = pad_left(minutes_text.as_str(), 2, "0");
    out.append(minutes_pad.as_str());
    proof {
        assert(out@ =~= format_timestamp_spec(secs as int));
    }
    out
}

} // verus!
