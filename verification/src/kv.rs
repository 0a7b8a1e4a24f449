//! Association lists with string keys, used for header maps and extracted
//! path parameters.
//!
//! An entry list is a `Vec<(String, String)>` whose keys are pairwise
//! distinct; its mathematical content is the `Map` obtained by inserting the
//! entries in order.

use vstd::prelude::*;
use crate::strutil::str_eq;

verus! {

/// No two entries share a key.
pub open spec fn distinct_keys(es: Seq<(String, String)>) -> bool {
    forall|i: int, j: int| 0 <= i < j < es.len() ==> es[i].0@ != es[j].0@
}

/// Some entry carries the key `k`.
pub open spec fn has_key(es: Seq<(String, String)>, k: Seq<char>) -> bool {
    exists|i: int| 0 <= i < es.len() && es[i].0@ == k
}

/// The index of the entry carrying key `k` (unique when keys are distinct).
pub open spec fn key_index(es: Seq<(String, String)>, k: Seq<char>) -> int {
    choose|i: int| 0 <= i < es.len() && es[i].0@ == k
}

/// The map described by an entry list: entries are inserted in order, so a
/// later entry overrides an earlier one with the same key.
pub open spec fn kv_map(es: Seq<(String, String)>) -> Map<Seq<char>, Seq<char>>
    decreases es.len(),
{
    if es.len() == 0 {
        Map::empty()
    } else {
        kv_map(es.drop_last()).insert(es.last().0@, es.last().1@)
    }
}

pub proof fn lemma_kv_map_has_key(es: Seq<(String, String)>, k: Seq<char>)
    ensures
        kv_map(es).contains_key(k) == has_key(es, k),
    decreases es.len(),
{
    if es.len() > 0 {
        lemma_kv_map_has_key(es.drop_last(), k);
        if has_key(es.drop_last(), k) {
            let i = choose|i: int| 0 <= i < es.drop_last().len() && es.drop_last()[i].0@ == k;
            assert(es[i].0@ == k);
        }
        if has_key(es, k) && es.last().0@ != k {
            let i = choose|i: int| 0 <= i < es.len() && es[i].0@ == k;
            assert(es.drop_last()[i].0@ == k);
        }
    }
}

pub proof fn lemma_kv_map_index(es: Seq<(String, String)>, i: int)
    requires
        distinct_keys(es),
        0 <= i < es.len(),
    ensures
        kv_map(es).contains_key(es[i].0@),
        kv_map(es)[es[i].0@] == es[i].1@,
    decreases es.len(),
{
    if i < es.len() - 1 {
        assert(distinct_keys(es.drop_last())) by {
            assert(forall|x: int, y: int|
                0 <= x < y < es.drop_last().len() ==> es.drop_last()[x].0@ != es.drop_last()[y].0@);
        }
        lemma_kv_map_index(es.drop_last(), i);
    }
}

pub proof fn lemma_kv_map_update(es: Seq<(String, String)>, i: int, k: String, v: String)
    requires
        distinct_keys(es),
        0 <= i < es.len(),
        es[i].0@ == k@,
    ensures
        kv_map(es.update(i, (k, v))) == kv_map(es).insert(k@, v@),
        distinct_keys(es.update(i, (k, v))),
    decreases es.len(),
{
    let es2 = es.update(i, (k, v));
    assert(distinct_keys(es2));
    if i == es.len() - 1 {
        assert(es2.drop_last() =~= es.drop_last());
        assert(kv_map(es2) =~= kv_map(es).insert(k@, v@));
    } else {
        assert(distinct_keys(es.drop_last()));
        assert(es2.drop_last() =~= es.drop_last().update(i, (k, v)));
        lemma_kv_map_update(es.drop_last(), i, k, v);
        assert(es[i].0@ != es.last().0@);
        assert(kv_map(es2) =~= kv_map(es).insert(k@, v@));
    }
}

/// Inserts `key -> value`: replaces the value of the entry already carrying
/// `key`, or appends a new entry.
pub fn kv_insert(es: Vec<(String, String)>, key: String, value: String) -> (r: Vec<
    (String, String),
>)
    requires
        distinct_keys(es@),
    ensures
        distinct_keys(r@),
        has_key(es@, key@) ==> r@ == es@.update(key_index(es@, key@), (key, value)),
        !has_key(es@, key@) ==> r@ == es@.push((key, value)),
        kv_map(r@) == kv_map(es@).insert(key@, value@),
{
    let mut out = es;
    let n = out.len();
    let mut i: usize = 0;
    while i < n
        invariant
            0 <= i <= n,
            out@ == es@,
            n == out@.len(),
            distinct_keys(out@),
            forall|j: int| 0 <= j < i ==> out@[j].0@ != key@,
        decreases n - i,
    {
        if str_eq(out[i].0.as_str(), key.as_str()) {
            proof {
                assert(has_key(out@, key@));
                assert(key_index(out@, key@) == i) by {
                    let j = key_index(out@, key@);
                    if j != i {
                        assert(out@[j].0@ == es@[i as int].0@);
                    }
                }
                lemma_kv_map_update(out@, i as int, key, value);
            }
            out.set(i, (key, value));
            return out;
        }
        i += 1;
    }
    proof {
        assert(!has_key(out@, key@));
        assert(out@.push((key, value)).drop_last() =~= out@);
        assert(distinct_keys(out@.push((key, value))));
    }
    out.push((key, value));
    out
}

/// Looks the key up, returning a reference to the value of its entry.
pub fn kv_get<'a>(es: &'a Vec<(String, String)>, key: &str) -> (r: Option<&'a String>)
    requires
        distinct_keys(es@),
    ensures
        match r {
            Some(v) => kv_map(es@).contains_key(key@) && v@ == kv_map(es@)[key@],
            None => !kv_map(es@).contains_key(key@),
        },
{
    let n = es.len();
    let mut i: usize = 0;
    while i < n
        invariant
            0 <= i <= n,
            n == es@.len(),
            distinct_keys(es@),
            forall|j: int| 0 <= j < i ==> es@[j].0@ != key@,
        decreases n - i,
    {
        if str_eq(es[i].0.as_str(), key) {
            proof {
                lemma_kv_map_index(es@, i as int);
            }
            return Some(&es[i].1);
        }
        i += 1;
    }
    proof {
        lemma_kv_map_has_key(es@, key@);
    }
    None
}

/// An entry-by-entry copy of the list, equal to it as a value.
pub fn kv_copy(es: &Vec<(String, String)>) -> (r: Vec<(String, String)>)
    ensures
        r@ == es@,
{
    let n = es.len();
    let mut r: Vec<(String, String)> = Vec::new();
    let mut i: usize = 0;
    while i < n
        invariant
            0 <= i <= n,
            n == es@.len(),
            r@ =~= es@.take(i as int),
        decreases n - i,
    {
        r.push((es[i].0.clone(), es[i].1.clone()));
        proof {
            assert(r@ =~= es@.take(i + 1));
        }
        i += 1;
    }
    proof {
        assert(es@.take(n as int) =~= es@);
    }
    r
}

} // verus!
