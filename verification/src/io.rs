//! Byte-level helpers shared by the tools: line counting and
//! concatenation of captured text.

use vstd::prelude::*;

verus! {

/// The number of newline bytes in `data`.
pub open spec fn count_newlines(data: Seq<u8>) -> int
    decreases data.len(),
{
    if data.len() == 0 {
        0
    } else {
        (if data[0] == 10 {
            1int
        } else {
            0int
        }) + count_newlines(data.drop_first())
    }
}

/// How many lines the data holds when read line by line: one per newline,
/// plus one for a final fragment without one.
pub open spec fn count_lines_spec(data: Seq<u8>) -> int {
    count_newlines(data) + if data.len() > 0 && data.last() != 10 {
        1int
    } else {
        0int
    }
}

proof fn lemma_count_newlines_bound(data: Seq<u8>)
    ensures
        0 <= count_newlines(data) <= data.len(),
    decreases data.len(),
{
    if data.len() > 0 {
        lemma_count_newlines_bound(data.drop_first());
    }
}

proof fn lemma_count_newlines_take(data: Seq<u8>, i: int)
    requires
        0 <= i < data.len(),
    ensures
        count_newlines(data.take(i + 1)) == count_newlines(data.take(i)) + if data[i] == 10 {
            1int
        } else {
            0int
        },
    decreases i,
{
    if i == 0 {
        assert(data.take(1) =~= seq![data[0]]);
        assert(data.take(0) =~= Seq::<u8>::empty());
        assert(seq![data[0]].drop_first() =~= Seq::<u8>::empty());
    } else {
        lemma_count_newlines_take(data.drop_first(), i - 1);
        assert(data.take(i + 1).drop_first() =~= data.drop_first().take(i));
        assert(data.take(i).drop_first() =~= data.drop_first().take(i - 1));
        assert(data.drop_first()[i - 1] == data[i]);
    }
}

/// Counts the lines in the data, as reading it line by line would: each
/// newline ends a line, and a final fragment without one still counts.
pub fn count_lines(data: &[u8]) -> (r: usize)
    ensures
        r == count_lines_spec(data@),
{
    let n: usize = data.len();
    let mut count: usize = 0;
    let mut i: usize = 0;
    proof {
        assert(data@.take(0) =~= Seq::<u8>::empty());
    }
    while i < n
        invariant
            n == data@.len(),
            i <= n,
            count == count_newlines(data@.take(i as int)),
            count <= i,
        decreases n - i,
    {
        proof {
            lemma_count_newlines_take(data@, i as int);
        }
        if data[i] == 10 {
            count = count + 1;
        }
        i = i + 1;
    }
    proof {
        assert(data@.take(n as int) =~= data@);
    }
    if n > 0 && data[n - 1] != 10 {
        proof {
            lemma_count_newlines_take(data@, n - 1);
            lemma_count_newlines_bound(data@.take(n - 1));
        }
        count = count + 1;
    }
    count
}

/// Joins captured texts in order, as concatenating the files they came
/// from would.
pub open spec fn concat_spec(parts: Seq<Seq<char>>) -> Seq<char>
    decreases parts.len(),
{
    if parts.len() == 0 {
        Seq::empty()
    } else {
        parts[0] + concat_spec(parts.drop_first())
    }
}

/// Concatenates the given texts in order.
pub fn concat_texts(parts: &Vec<String>) -> (r: String)
    ensures
        r@ == concat_spec(parts.deep_view()),
{
    let mut out = String::new();
    let n: usize = parts.len();
    let mut i: usize = 0;
    proof {
        assert(parts.deep_view().skip(0) =~= parts.deep_view());
    }
    while i < n
        invariant
            n == parts.len(),
            i <= n,
            out@ + concat_spec(parts.deep_view().skip(i as int)) =~= concat_spec(
                parts.deep_view(),
            ),
        decreases n - i,
    {
        let ghost tail = parts.deep_view().skip(i as int);
        proof {
            assert(tail[0] == parts.deep_view()[i as int]);
            assert(tail.drop_first() =~= parts.deep_view().skip(i + 1));
        }
        out.append(parts[i].as_str());
        i = i + 1;
    }
    proof {
        assert(parts.deep_view().skip(n as int) =~= Seq::<Seq<char>>::empty());
        assert(out@ =~= out@ + Seq::<char>::empty());
    }
    out
}

} // verus!
