use vstd::prelude::*;

use vstd::seq_lib::group_to_multiset_ensures;
use vstd::string::StringExecFns;
use vstd::utf8::encode_utf8;

verus! {

broadcast use group_to_multiset_ensures;

/// The mark the tables and summaries use for yes and no.
pub fn bool(b: bool) -> (r: String)
    ensures
        b ==> r@ == "✔"@,
        !b ==> r@ == "✗"@,
{
    if b {
        String::from_str("✔")
    } else {
        String::from_str("✗")
    }
}

/// How many more names fit a row, counting greedily down the lengths from
/// position `i`, with the row already `row` wide: the count grows while the
/// next length and its padding still leave the row under the width. Note
/// that the caller starts the row at the longest length and then counts
/// from the top again, so the longest name is charged against itself once
/// more; the layout keeps that quirk.
pub open spec fn spec_greedy(
    lens: Seq<usize>,
    i: int,
    chunk: int,
    row: int,
    padding: int,
    max_width: int,
) -> int
    decreases lens.len() - i,
{
    if i < 0 || i >= lens.len() {
        chunk
    } else if row + lens[i] + padding < max_width {
        spec_greedy(lens, i + 1, chunk + 1, row + lens[i] + padding, padding, max_width)
    } else {
        chunk
    }
}

/// Falling order: each length at least the next.
pub open spec fn sorted_desc(s: Seq<usize>) -> bool {
    forall|i: int, j: int| 0 <= i < j < s.len() ==> s[i] >= s[j]
}

/// The byte lengths of the values, as the table measures them.
pub open spec fn spec_byte_lens(values: Seq<String>) -> Seq<usize> {
    values.map_values(|s: String| encode_utf8(s@).len() as usize)
}

/// Sorts lengths into falling order, keeping the collection.
fn sort_lens_desc(v: Vec<usize>) -> (r: Vec<usize>)
    ensures
        r@.to_multiset() == v@.to_multiset(),
        sorted_desc(r@),
{
    let mut rest = v;
    let mut out: Vec<usize> = Vec::new();
    proof {
        assert(out@ =~= Seq::<usize>::empty());
        assert(out@.to_multiset().add(rest@.to_multiset()) =~= v@.to_multiset());
    }
    while rest.len() > 0
        invariant
            out@.to_multiset().add(rest@.to_multiset()) == v@.to_multiset(),
            sorted_desc(out@),
            forall|i: int, j: int|
                0 <= i < out@.len() && 0 <= j < rest@.len() ==> out@[i] >= rest@[j],
        decreases rest.len(),
    {
        let n = rest.len();
        let mut m: usize = 0;
        let mut k: usize = 1;
        while k < n
            invariant
                n == rest@.len(),
                m < k <= n,
                forall|j: int| 0 <= j < k ==> rest@[m as int] >= rest@[j],
            decreases n - k,
        {
            if rest[k] > rest[m] {
                m = k;
            }
            k = k + 1;
        }
        let ghost rest0 = rest@;
        let ghost out0 = out@;
        let x = rest.remove(m);
        proof {
            assert(rest@ =~= rest0.remove(m as int));
            assert(rest0.remove(m as int).to_multiset() =~= rest0.to_multiset().remove(x));
        }
        out.push(x);
        proof {
            assert(out@ =~= out0.push(x));
            assert(out0.push(x).to_multiset() =~= out0.to_multiset().insert(x));
            assert(out@.to_multiset().add(rest@.to_multiset()) =~= v@.to_multiset());
            assert(rest0.to_multiset().contains(x));
            assert forall|i: int, j: int|
                0 <= i < out@.len() && 0 <= j < rest@.len() implies out@[i] >= rest@[j] by {
                if j < m {
                    assert(rest@[j] == rest0[j]);
                } else {
                    assert(rest@[j] == rest0[j + 1]);
                }
                if i < out0.len() {
                    assert(out@[i] == out0[i]);
                } else {
                    assert(out@[i] == x);
                }
            }
        }
    }
    proof {
        assert(rest@ =~= Seq::<usize>::empty());
        assert(out@.to_multiset() =~= v@.to_multiset());
    }
    out
}

/// How many names one table row takes: the lengths are laid out from the
/// longest down, the longest starting the row, and names are added while
/// they keep the row under the terminal width. The falling order pins the
/// counted sequence, so the count depends only on the lengths.
pub fn calculate_chunk_size(values: &Vec<String>, padding: usize, max_width: u16) -> (r: usize)
    requires
        padding <= 65535,
        values@.len() < usize::MAX,
    ensures
        exists|ls: Seq<usize>|
            {
                &&& ls.to_multiset() == spec_byte_lens(values@).to_multiset()
                &&& sorted_desc(ls)
                &&& r == spec_greedy(
                    ls,
                    0,
                    1,
                    if ls.len() > 0 {
                        ls[0] as int
                    } else {
                        0
                    },
                    padding as int,
                    max_width as int,
                )
            },
{
    let mut lens: Vec<usize> = Vec::new();
    let n = values.len();
    proof {
        assert(lens@ =~= spec_byte_lens(values@.take(0)));
    }
    for i in 0..n
        invariant
            n == values@.len(),
            lens@ == spec_byte_lens(values@.take(i as int)),
    {
        let bytes = values[i].as_str().as_bytes_vec();
        lens.push(bytes.len());
        proof {
            assert(bytes@ == encode_utf8(values@[i as int]@));
            assert(lens@ =~= spec_byte_lens(values@.take(i + 1)));
        }
    }
    proof {
        assert(values@.take(n as int) =~= values@);
    }
    let ghost pre_sort = lens@;
    let lens = sort_lens_desc(lens);
    let ghost ls = lens@;
    proof {
        assert(ls.to_multiset().len() == ls.len());
        assert(pre_sort.to_multiset().len() == pre_sort.len());
    }
    let ghost full = spec_greedy(
        ls,
        0,
        1,
        if ls.len() > 0 {
            ls[0] as int
        } else {
            0
        },
        padding as int,
        max_width as int,
    );
    let mw = max_width as usize;
    let mut chunk_size: usize = 1;
    let mut row_len: usize = if lens.len() > 0 {
        lens[0]
    } else {
        0
    };
    let m = lens.len();
    let mut i: usize = 0;
    let ghost lens_ms = ls.to_multiset();
    while i < m
        invariant
            m == ls.len(),
            lens_ms == spec_byte_lens(values@).to_multiset(),
            sorted_desc(ls),
            ls.to_multiset() == lens_ms,
            full == spec_greedy(
                ls,
                0,
                1,
                if ls.len() > 0 {
                    ls[0] as int
                } else {
                    0
                },
                padding as int,
                max_width as int,
            ),
            i <= m,
            m < usize::MAX,
            lens@ == ls,
            chunk_size <= 1 + i,
            padding <= 65535,
            mw == max_width as int,
            full == spec_greedy(
                ls,
                i as int,
                chunk_size as int,
                row_len as int,
                padding as int,
                mw as int,
            ),
        decreases m - i,
    {
        let l = lens[i];
        if l < mw && row_len < mw && row_len + l + padding < mw {
            chunk_size = chunk_size + 1;
            row_len = row_len + l + padding;
            i = i + 1;
        } else {
            proof {
                assert(!(row_len + ls[i as int] + padding < mw));
            }
            proof {
                assert(ls.to_multiset() == spec_byte_lens(values@).to_multiset() && sorted_desc(ls)
                    && chunk_size as int == spec_greedy(
                    ls,
                    0,
                    1,
                    if ls.len() > 0 {
                        ls[0] as int
                    } else {
                        0
                    },
                    padding as int,
                    max_width as int,
                ));
            }
            return chunk_size;
        }
    }
    proof {
        assert(ls.to_multiset() == spec_byte_lens(values@).to_multiset() && sorted_desc(ls)
            && chunk_size as int == spec_greedy(
            ls,
            0,
            1,
            if ls.len() > 0 {
                ls[0] as int
            } else {
                0
            },
            padding as int,
            max_width as int,
        ));
    }
    chunk_size
}


} // verus!
