//! Splitting a path into its `/`-separated segments.
//!
//! A path such as `"/users//42/"` is read as the segment sequence
//! `["users", "42"]`: the string is cut at every `/` and the empty pieces are
//! discarded, so leading, trailing and doubled slashes are normalized away.

use vstd::prelude::*;

verus! {

/// All pieces of `s` cut at `/`, empty pieces included.
///
/// A string with `k` slashes has exactly `k + 1` pieces; the empty string has
/// the single empty piece.
pub open spec fn raw_split(s: Seq<char>) -> Seq<Seq<char>>
    decreases s.len(),
{
    if s.len() == 0 {
        seq![Seq::<char>::empty()]
    } else {
        let r = raw_split(s.drop_last());
        if s.last() == '/' {
            r.push(Seq::<char>::empty())
        } else {
            r.update(r.len() - 1, r.last().push(s.last()))
        }
    }
}

/// The non-empty `/`-separated segments of `s`, in order.
pub open spec fn segments_of(s: Seq<char>) -> Seq<Seq<char>> {
    raw_split(s).filter(|t: Seq<char>| t.len() != 0)
}

pub proof fn lemma_raw_split_len(s: Seq<char>)
    ensures
        raw_split(s).len() >= 1,
    decreases s.len(),
{
    if s.len() > 0 {
        lemma_raw_split_len(s.drop_last());
    }
}

/// `filter` unrolled one step from the right.
proof fn lemma_filter_push(s: Seq<Seq<char>>, x: Seq<char>)
    ensures
        s.push(x).filter(|t: Seq<char>| t.len() != 0) == if x.len() != 0 {
            s.filter(|t: Seq<char>| t.len() != 0).push(x)
        } else {
            s.filter(|t: Seq<char>| t.len() != 0)
        },
{
    reveal(Seq::filter);
    assert(s.push(x).drop_last() =~= s);
    assert(s.push(x).last() == x);
}

/// Every segment of a split path is non-empty.
pub proof fn lemma_segments_nonempty(s: Seq<char>, i: int)
    requires
        0 <= i < segments_of(s).len(),
    ensures
        segments_of(s)[i].len() != 0,
{
    raw_split(s).lemma_filter_pred(|t: Seq<char>| t.len() != 0, i);
}

/// The segment views of a vector of owned segment strings.
pub open spec fn seg_views(v: Seq<String>) -> Seq<Seq<char>> {
    v.map_values(|x: String| x@)
}

/// Splits `s` at `/`, returning the non-empty segments in order.
pub fn split_segments(s: &str) -> (out: Vec<String>)
    ensures
        seg_views(out@) == segments_of(s@),
{
    let n = s.unicode_len();
    let mut out: Vec<String> = Vec::new();
    let mut seg_start: usize = 0;
    let mut i: usize = 0;
    let ghost mut pieces: Seq<Seq<char>> = Seq::empty();
    proof {
        reveal(Seq::filter);
        assert(s@.take(0) =~= Seq::<char>::empty());
        assert(s@.subrange(0, 0) =~= Seq::<char>::empty());
        assert(raw_split(s@.take(0)) =~= pieces.push(s@.subrange(0, 0)));
        assert(seg_views(out@) =~= pieces.filter(|t: Seq<char>| t.len() != 0));
    }
    while i < n
        invariant
            0 <= seg_start <= i <= n,
            n == s@.len(),
            raw_split(s@.take(i as int)) == pieces.push(s@.subrange(
                seg_start as int,
                i as int,
            )),
            seg_views(out@) == pieces.filter(|t: Seq<char>| t.len() != 0),
        decreases n - i,
    {
        let ghost cur = s@.subrange(seg_start as int, i as int);
        proof {
            assert(s@.take(i + 1).drop_last() =~= s@.take(i as int));
            assert(s@.take(i + 1).last() == s@[i as int]);
            lemma_raw_split_len(s@.take(i as int));
        }
        if s.get_char(i) == '/' {
            if i > seg_start {
                let seg = s.substring_char(seg_start, i);
                out.push(seg.to_owned());
                proof {
                    lemma_filter_push(pieces, cur);
                    assert(seg_views(out@) =~= pieces.push(cur).filter(
                        |t: Seq<char>| t.len() != 0,
                    ));
                }
            } else {
                proof {
                    lemma_filter_push(pieces, cur);
                }
            }
            proof {
                pieces = pieces.push(cur);
                assert(s@.subrange(i + 1, i + 1) =~= Seq::<char>::empty());
                assert(raw_split(s@.take(i + 1)) =~= pieces.push(s@.subrange(
                    i + 1,
                    i + 1,
                )));
            }
            seg_start = i + 1;
        } else {
            proof {
                let r = pieces.push(cur);
                assert(raw_split(s@.take(i + 1)) == r.update(
                    r.len() - 1,
                    r.last().push(s@[i as int]),
                ));
                assert(cur.push(s@[i as int]) =~= s@.subrange(seg_start as int, i + 1));
                assert(r.update(r.len() - 1, cur.push(s@[i as int])) =~= pieces.push(
                    s@.subrange(seg_start as int, i + 1),
                ));
            }
        }
        i += 1;
    }
    proof {
        assert(s@.take(n as int) =~= s@);
    }
    let ghost cur = s@.subrange(seg_start as int, n as int);
    if seg_start < n {
        let seg = s.substring_char(seg_start, n);
        out.push(seg.to_owned());
        proof {
            lemma_filter_push(pieces, cur);
            assert(seg_views(out@) =~= pieces.push(cur).filter(|t: Seq<char>| t.len() != 0));
        }
    } else {
        proof {
            lemma_filter_push(pieces, cur);
            assert(cur.len() == 0);
        }
    }
    out
}

} // verus!
