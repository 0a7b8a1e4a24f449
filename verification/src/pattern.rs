//! Path-pattern matching and parameter extraction.
//!
//! A pattern is a path whose segments are literals, required parameters
//! `{name}`, or optional parameters `{name?}`. A literal matches only itself;
//! a parameter matches any segment; an optional parameter may also match the
//! absence of a segment when the URI ends before it.

use vstd::prelude::*;
use crate::kv::{distinct_keys, kv_insert, kv_map};
use crate::segments::{seg_views, segments_of, split_segments};
use crate::strutil::str_eq;

verus! {

/// A parameter segment: `{` ... `}`.
pub open spec fn is_param_seg(s: Seq<char>) -> bool {
    s.len() >= 2 && s[0] == '{' && s[s.len() - 1] == '}'
}

/// An optional parameter segment: `{` ... `?}`.
pub open spec fn is_opt_seg(s: Seq<char>) -> bool {
    is_param_seg(s) && s[s.len() - 2] == '?'
}

/// The name of a parameter segment, with `{`, `}` and a trailing `?` stripped.
pub open spec fn param_name(s: Seq<char>) -> Seq<char> {
    if is_opt_seg(s) {
        s.subrange(1, s.len() - 2)
    } else {
        s.subrange(1, s.len() - 1)
    }
}

/// One URI segment against one pattern segment: a parameter segment accepts
/// any segment (segments produced by splitting are never empty), a literal
/// only its exact self.
pub open spec fn seg_matches(pseg: Seq<char>, useg: Seq<char>) -> bool {
    is_param_seg(pseg) || useg == pseg
}

/// Whether URI segments `u` match pattern segments `p`: the URI may not be
/// longer than the pattern; every URI segment must match the pattern segment
/// at its index; and a strictly shorter URI is accepted only if the pattern
/// segment at the first index past its end is an optional parameter (the walk
/// stops at that first shortfall).
pub open spec fn spec_matches(u: Seq<Seq<char>>, p: Seq<Seq<char>>) -> bool {
    &&& u.len() <= p.len()
    &&& forall|i: int| 0 <= i < u.len() ==> #[trigger] seg_matches(p[i], u[i])
    &&& u.len() < p.len() ==> is_opt_seg(p[u.len() as int])
}

/// The parameters extracted when `u` is read against `p`: every parameter
/// segment of `p` that aligns with a URI segment maps its name to that
/// segment; a parameter position past the end of the URI yields no entry.
/// Later positions override earlier ones carrying the same name.
pub open spec fn spec_extract(u: Seq<Seq<char>>, p: Seq<Seq<char>>) -> Map<Seq<char>, Seq<char>>
    decreases p.len(),
{
    if p.len() == 0 {
        Map::empty()
    } else {
        let m = spec_extract(u, p.drop_last());
        let j = p.len() - 1;
        if is_param_seg(p[j]) && j < u.len() {
            m.insert(param_name(p[j]), u[j])
        } else {
            m
        }
    }
}

/// Law: matching is deterministic and pure. `uri_matches_path` pins its
/// result to a function of the two strings alone, so any two results
/// obtained for the same URI path and pattern are equal.
pub proof fn lemma_matches_deterministic(u: Seq<char>, p: Seq<char>, r1: bool, r2: bool)
    requires
        r1 == spec_matches(segments_of(u), segments_of(p)),
        r2 == spec_matches(segments_of(u), segments_of(p)),
    ensures
        r1 == r2,
{
}

fn is_param_segment(s: &String) -> (r: bool)
    ensures
        r == is_param_seg(s@),
{
    let n = s.as_str().unicode_len();
    n >= 2 && s.as_str().get_char(0) == '{' && s.as_str().get_char(n - 1) == '}'
}

fn is_opt_segment(s: &String) -> (r: bool)
    ensures
        r == is_opt_seg(s@),
{
    is_param_segment(s) && s.as_str().get_char(s.as_str().unicode_len() - 2) == '?'
}

fn param_segment_name(s: &String) -> (r: String)
    requires
        is_param_seg(s@),
    ensures
        r@ == param_name(s@),
{
    let n = s.as_str().unicode_len();
    if is_opt_segment(s) {
        s.as_str().substring_char(1, n - 2).to_owned()
    } else {
        s.as_str().substring_char(1, n - 1).to_owned()
    }
}

/// Whether the URI path matches the path pattern, after both are split into
/// their non-empty `/`-separated segments.
pub fn uri_matches_path(uri_path: &str, path: &str) -> (r: bool)
    ensures
        r == spec_matches(segments_of(uri_path@), segments_of(path@)),
{
    let u = split_segments(uri_path);
    let p = split_segments(path);
    let un = u.len();
    let pn = p.len();
    if un > pn {
        return false;
    }
    let mut i: usize = 0;
    while i < pn
        invariant
            0 <= i <= un <= pn,
            un == u@.len(),
            pn == p@.len(),
            seg_views(u@) == segments_of(uri_path@),
            seg_views(p@) == segments_of(path@),
            forall|j: int| 0 <= j < i ==> #[trigger] seg_matches(p@[j]@, u@[j]@),
        decreases pn - i,
    {
        if i >= un {
            return is_opt_segment(&p[i]);
        }
        if !is_param_segment(&p[i]) {
            if !str_eq(u[i].as_str(), p[i].as_str()) {
                proof {
                    assert(segments_of(path@)[i as int] == p@[i as int]@);
                    assert(segments_of(uri_path@)[i as int] == u@[i as int]@);
                    assert(!seg_matches(
                        segments_of(path@)[i as int],
                        segments_of(uri_path@)[i as int],
                    ));
                }
                return false;
            }
        }
        i += 1;
    }
    true
}

/// The name-to-value mapping of the pattern's parameters against the URI
/// path, as an entry list with distinct keys.
pub fn extract_params(uri_path: &str, path: &str) -> (r: Vec<(String, String)>)
    ensures
        distinct_keys(r@),
        kv_map(r@) == spec_extract(segments_of(uri_path@), segments_of(path@)),
{
    let u = split_segments(uri_path);
    let p = split_segments(path);
    let un = u.len();
    let pn = p.len();
    let mut params: Vec<(String, String)> = Vec::new();
    let mut i: usize = 0;
    while i < pn
        invariant
            0 <= i <= pn,
            un == u@.len(),
            pn == p@.len(),
            seg_views(u@) == segments_of(uri_path@),
            seg_views(p@) == segments_of(path@),
            distinct_keys(params@),
            kv_map(params@) == spec_extract(seg_views(u@), seg_views(p@).take(i as int)),
        decreases pn - i,
    {
        proof {
            assert(seg_views(p@).take(i + 1).drop_last() =~= seg_views(p@).take(i as int));
        }
        if is_param_segment(&p[i]) && i < un {
            let name = param_segment_name(&p[i]);
            params = kv_insert(params, name, u[i].clone());
        }
        i += 1;
    }
    proof {
        assert(seg_views(p@).take(pn as int) =~= seg_views(p@));
    }
    params
}

} // verus!
