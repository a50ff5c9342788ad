//! Column and field metadata: key-value pairs read as the map they denote.
//!
//! Metadata is written as a list of `(key, value)` pairs, and becomes a map on
//! an arrow field: the order of the keys does not matter, and a repeated key
//! takes its last value.

use vstd::prelude::*;

verus! {

/// The value of `key` among `pairs`: that of its last occurrence.
pub open spec fn pairs_lookup(pairs: Seq<(Seq<char>, Seq<char>)>, key: Seq<char>) -> Option<Seq<char>>
    decreases pairs.len(),
{
    if pairs.len() == 0 {
        None
    } else if pairs.last().0 == key {
        Some(pairs.last().1)
    } else {
        pairs_lookup(pairs.drop_last(), key)
    }
}

/// The map that a list of pairs denotes.
pub open spec fn pairs_map(pairs: Seq<(Seq<char>, Seq<char>)>) -> Map<Seq<char>, Seq<char>> {
    Map::new(|k: Seq<char>| pairs_lookup(pairs, k) is Some, |k: Seq<char>| pairs_lookup(pairs, k)->0)
}

pub open spec fn string_pairs_view(pairs: Seq<(String, String)>) -> Seq<(Seq<char>, Seq<char>)> {
    pairs.map_values(|p: (String, String)| (p.0@, p.1@))
}

pub open spec fn str_pairs_view(pairs: Seq<(&str, &str)>) -> Seq<(Seq<char>, Seq<char>)> {
    pairs.map_values(|p: (&str, &str)| (p.0@, p.1@))
}

/// A key with a value occurs in the pairs.
pub proof fn lemma_lookup_some(pairs: Seq<(Seq<char>, Seq<char>)>, key: Seq<char>)
    ensures
        pairs_lookup(pairs, key) is Some ==> exists|i: int| 0 <= i < pairs.len() && #[trigger] pairs[i].0 == key,
        (exists|i: int| 0 <= i < pairs.len() && #[trigger] pairs[i].0 == key) ==> pairs_lookup(pairs, key) is Some,
    decreases pairs.len(),
{
    if pairs.len() > 0 {
        lemma_lookup_some(pairs.drop_last(), key);
        if pairs_lookup(pairs.drop_last(), key) is Some {
            let i = choose|i: int| 0 <= i < pairs.drop_last().len() && #[trigger] pairs.drop_last()[i].0 == key;
            assert(pairs[i].0 == key);
        }
        if exists|i: int| 0 <= i < pairs.len() && #[trigger] pairs[i].0 == key {
            let i = choose|i: int| 0 <= i < pairs.len() && #[trigger] pairs[i].0 == key;
            if i < pairs.len() - 1 {
                assert(pairs.drop_last()[i].0 == key);
            }
        }
    }
}

/// Scanning from the back: keys past `i` that differ from `key` do not
/// change its value.
pub proof fn lemma_lookup_take(pairs: Seq<(Seq<char>, Seq<char>)>, key: Seq<char>, i: int)
    requires
        0 <= i <= pairs.len(),
        forall|j: int| i <= j < pairs.len() ==> #[trigger] pairs[j].0 != key,
    ensures
        pairs_lookup(pairs, key) == pairs_lookup(pairs.take(i), key),
    decreases pairs.len() - i,
{
    if i < pairs.len() {
        assert(pairs.drop_last().take(i) =~= pairs.take(i));
        lemma_lookup_take(pairs.drop_last(), key, i);
    } else {
        assert(pairs.take(i) =~= pairs);
    }
}

/// Two lists of pairs denote the same map exactly when every key has the same
/// value in both.
pub proof fn lemma_pairs_map_eq(left: Seq<(Seq<char>, Seq<char>)>, right: Seq<(Seq<char>, Seq<char>)>)
    ensures
        (pairs_map(left) == pairs_map(right)) == (forall|k: Seq<char>| pairs_lookup(left, k) == pairs_lookup(right, k)),
{
    if forall|k: Seq<char>| pairs_lookup(left, k) == pairs_lookup(right, k) {
        assert(pairs_map(left) =~= pairs_map(right));
    }
    if pairs_map(left) == pairs_map(right) {
        assert forall|k: Seq<char>| pairs_lookup(left, k) == pairs_lookup(right, k) by {
            assert(pairs_map(left).dom().contains(k) == pairs_map(right).dom().contains(k));
            if pairs_lookup(left, k) is Some {
                assert(pairs_map(left)[k] == pairs_map(right)[k]);
            }
        }
    }
}

/// `a` and `b` hold the same text.
pub fn str_eq(a: &str, b: &str) -> (r: bool)
    ensures
        r == (a@ == b@),
{
    let x = a.to_owned();
    let y = b.to_owned();
    x == y
}

/// The value of `key` in the declared pairs: that of its last occurrence.
fn str_value_of<'a>(pairs: &[(&str, &'a str)], key: &str) -> (r: Option<&'a str>)
    ensures
        match r {
            Some(v) => pairs_lookup(str_pairs_view(pairs@), key@) == Some(v@),
            None => pairs_lookup(str_pairs_view(pairs@), key@) is None,
        },
{
    let ghost view = str_pairs_view(pairs@);
    let mut i: usize = pairs.len();
    while i > 0
        invariant
            0 <= i <= pairs@.len(),
            view == str_pairs_view(pairs@),
            view.len() == pairs@.len(),
            forall|j: int| i <= j < pairs@.len() ==> #[trigger] view[j].0 != key@,
        decreases i,
    {
        let (candidate, value) = pairs[i - 1];
        assert(view[i - 1] == (candidate@, value@));
        if str_eq(candidate, key) {
            proof {
                lemma_lookup_take(view, key@, i as int);
                assert(view.take(i as int).last() == view[i - 1]);
            }
            return Some(value);
        }
        i -= 1;
    }
    proof {
        lemma_lookup_take(view, key@, 0);
    }
    None
}

/// The value of `key` among the pairs: that of its last occurrence.
fn string_value_of<'a>(pairs: &'a Vec<(String, String)>, key: &String) -> (r: Option<&'a String>)
    ensures
        match r {
            Some(v) => pairs_lookup(string_pairs_view(pairs@), key@) == Some(v@),
            None => pairs_lookup(string_pairs_view(pairs@), key@) is None,
        },
{
    let ghost view = string_pairs_view(pairs@);
    let mut i: usize = pairs.len();
    while i > 0
        invariant
            0 <= i <= pairs@.len(),
            view == string_pairs_view(pairs@),
            view.len() == pairs@.len(),
            forall|j: int| i <= j < pairs@.len() ==> #[trigger] view[j].0 != key@,
        decreases i,
    {
        let pair = &pairs[i - 1];
        assert(view[i - 1] == (pair.0@, pair.1@));
        if pair.0 == *key {
            proof {
                lemma_lookup_take(view, key@, i as int);
                assert(view.take(i as int).last() == view[i - 1]);
            }
            return Some(&pair.1);
        }
        i -= 1;
    }
    proof {
        lemma_lookup_take(view, key@, 0);
    }
    None
}

fn opt_str_eq(a: Option<&str>, b: Option<&str>) -> (r: bool)
    ensures
        r == (match (a, b) {
            (Some(x), Some(y)) => x@ == y@,
            (None, None) => true,
            _ => false,
        }),
{
    match (a, b) {
        (Some(x), Some(y)) => str_eq(x, y),
        (None, None) => true,
        _ => false,
    }
}

/// Compares two declared-metadata lists as the maps they become on an arrow
/// field: the order of the keys does not matter, and a repeated key takes its
/// last value.
pub fn metadata_eq(left: &[(&str, &str)], right: &[(&str, &str)]) -> (r: bool)
    ensures
        r == (pairs_map(str_pairs_view(left@)) == pairs_map(str_pairs_view(right@))),
{
    let ghost lv = str_pairs_view(left@);
    let ghost rv = str_pairs_view(right@);
    proof {
        lemma_pairs_map_eq(lv, rv);
    }
    let mut i: usize = 0;
    while i < left.len()
        invariant
            0 <= i <= left@.len(),
            lv == str_pairs_view(left@),
            rv == str_pairs_view(right@),
            lv.len() == left@.len(),
            rv.len() == right@.len(),
            forall|j: int| 0 <= j < i ==> pairs_lookup(lv, #[trigger] lv[j].0) == pairs_lookup(rv, lv[j].0),
        decreases left.len() - i,
    {
        let key = left[i].0;
        assert(lv[i as int].0 == key@);
        let a = str_value_of(left, key);
        let b = str_value_of(right, key);
        if !opt_str_eq(a, b) {
            assert(pairs_lookup(lv, key@) != pairs_lookup(rv, key@));
            proof {
                lemma_pairs_map_eq(lv, rv);
            }
            return false;
        }
        i += 1;
    }
    let mut i: usize = 0;
    while i < right.len()
        invariant
            0 <= i <= right@.len(),
            lv == str_pairs_view(left@),
            rv == str_pairs_view(right@),
            lv.len() == left@.len(),
            rv.len() == right@.len(),
            forall|j: int| 0 <= j < lv.len() ==> pairs_lookup(lv, #[trigger] lv[j].0) == pairs_lookup(rv, lv[j].0),
            forall|j: int| 0 <= j < i ==> pairs_lookup(lv, #[trigger] rv[j].0) == pairs_lookup(rv, rv[j].0),
        decreases right.len() - i,
    {
        let key = right[i].0;
        assert(rv[i as int].0 == key@);
        let a = str_value_of(left, key);
        let b = str_value_of(right, key);
        if !opt_str_eq(a, b) {
            assert(pairs_lookup(lv, key@) != pairs_lookup(rv, key@));
            proof {
                lemma_pairs_map_eq(lv, rv);
            }
            return false;
        }
        i += 1;
    }
    proof {
        assert forall|k: Seq<char>| pairs_lookup(lv, k) == pairs_lookup(rv, k) by {
            lemma_lookup_some(lv, k);
            lemma_lookup_some(rv, k);
            if pairs_lookup(lv, k) is Some {
                let j = choose|j: int| 0 <= j < lv.len() && #[trigger] lv[j].0 == k;
                assert(pairs_lookup(lv, lv[j].0) == pairs_lookup(rv, lv[j].0));
            } else if pairs_lookup(rv, k) is Some {
                let j = choose|j: int| 0 <= j < rv.len() && #[trigger] rv[j].0 == k;
                assert(pairs_lookup(lv, rv[j].0) == pairs_lookup(rv, rv[j].0));
            }
        }
    }
    true
}

/// Compares two metadata lists (of owned strings) as the maps they denote.
pub fn string_pairs_eq(left: &Vec<(String, String)>, right: &Vec<(String, String)>) -> (r: bool)
    ensures
        r == (pairs_map(string_pairs_view(left@)) == pairs_map(string_pairs_view(right@))),
{
    let ghost lv = string_pairs_view(left@);
    let ghost rv = string_pairs_view(right@);
    proof {
        lemma_pairs_map_eq(lv, rv);
    }
    let mut i: usize = 0;
    while i < left.len()
        invariant
            0 <= i <= left@.len(),
            lv == string_pairs_view(left@),
            rv == string_pairs_view(right@),
            lv.len() == left@.len(),
            rv.len() == right@.len(),
            forall|j: int| 0 <= j < i ==> pairs_lookup(lv, #[trigger] lv[j].0) == pairs_lookup(rv, lv[j].0),
        decreases left.len() - i,
    {
        let key = &left[i].0;
        assert(lv[i as int].0 == key@);
        let a = string_value_of(left, key);
        let b = string_value_of(right, key);
        let same = match (a, b) {
            (Some(x), Some(y)) => *x == *y,
            (None, None) => true,
            _ => false,
        };
        if !same {
            assert(pairs_lookup(lv, key@) != pairs_lookup(rv, key@));
            proof {
                lemma_pairs_map_eq(lv, rv);
            }
            return false;
        }
        i += 1;
    }
    let mut i: usize = 0;
    while i < right.len()
        invariant
            0 <= i <= right@.len(),
            lv == string_pairs_view(left@),
            rv == string_pairs_view(right@),
            lv.len() == left@.len(),
            rv.len() == right@.len(),
            forall|j: int| 0 <= j < lv.len() ==> pairs_lookup(lv, #[trigger] lv[j].0) == pairs_lookup(rv, lv[j].0),
            forall|j: int| 0 <= j < i ==> pairs_lookup(lv, #[trigger] rv[j].0) == pairs_lookup(rv, rv[j].0),
        decreases right.len() - i,
    {
        let key = &right[i].0;
        assert(rv[i as int].0 == key@);
        let a = string_value_of(left, key);
        let b = string_value_of(right, key);
        let same = match (a, b) {
            (Some(x), Some(y)) => *x == *y,
            (None, None) => true,
            _ => false,
        };
        if !same {
            assert(pairs_lookup(lv, key@) != pairs_lookup(rv, key@));
            proof {
                lemma_pairs_map_eq(lv, rv);
            }
            return false;
        }
        i += 1;
    }
    proof {
        assert forall|k: Seq<char>| pairs_lookup(lv, k) == pairs_lookup(rv, k) by {
            lemma_lookup_some(lv, k);
            lemma_lookup_some(rv, k);
            if pairs_lookup(lv, k) is Some {
                let j = choose|j: int| 0 <= j < lv.len() && #[trigger] lv[j].0 == k;
                assert(pairs_lookup(lv, lv[j].0) == pairs_lookup(rv, lv[j].0));
            } else if pairs_lookup(rv, k) is Some {
                let j = choose|j: int| 0 <= j < rv.len() && #[trigger] rv[j].0 == k;
                assert(pairs_lookup(lv, rv[j].0) == pairs_lookup(rv, rv[j].0));
            }
        }
    }
    true
}

/// The declared pairs, owned, in the shape a field's metadata takes: the same
/// pairs, so the same map.
pub fn owned_pairs(pairs: &[(&str, &str)]) -> (r: Vec<(String, String)>)
    ensures
        string_pairs_view(r@) == str_pairs_view(pairs@),
        pairs_map(string_pairs_view(r@)) == pairs_map(str_pairs_view(pairs@)),
{
    let mut out: Vec<(String, String)> = Vec::new();
    let mut i: usize = 0;
    while i < pairs.len()
        invariant
            0 <= i <= pairs@.len(),
            out@.len() == i,
            forall|j: int| 0 <= j < i ==> (#[trigger] out@[j]).0@ == pairs@[j].0@ && out@[j].1@ == pairs@[j].1@,
        decreases pairs.len() - i,
    {
        let (key, value) = pairs[i];
        out.push((key.to_owned(), value.to_owned()));
        i += 1;
    }
    assert(string_pairs_view(out@) =~= str_pairs_view(pairs@));
    out
}

/// No key occurs twice.
pub open spec fn keys_distinct(pairs: Seq<(Seq<char>, Seq<char>)>) -> bool {
    forall|i: int, j: int| 0 <= i < j < pairs.len() ==> #[trigger] pairs[i].0 != #[trigger] pairs[j].0
}

/// Pair `i` is the last occurrence of its key.
pub open spec fn last_occurrence(pairs: Seq<(Seq<char>, Seq<char>)>, i: int) -> bool {
    forall|j: int| i < j < pairs.len() ==> #[trigger] pairs[j].0 != pairs[i].0
}

/// The last occurrence of a key gives its value.
proof fn lemma_last_lookup(pairs: Seq<(Seq<char>, Seq<char>)>, i: int)
    requires
        0 <= i < pairs.len(),
        last_occurrence(pairs, i),
    ensures
        pairs_lookup(pairs, pairs[i].0) == Some(pairs[i].1),
{
    lemma_lookup_take(pairs, pairs[i].0, i + 1);
    assert(pairs.take(i + 1).last() == pairs[i]);
}

/// A key's value is that of a last occurrence of the key.
proof fn lemma_lookup_last(pairs: Seq<(Seq<char>, Seq<char>)>, key: Seq<char>)
    requires
        pairs_lookup(pairs, key) is Some,
    ensures
        exists|i: int|
            0 <= i < pairs.len() && last_occurrence(pairs, i) && #[trigger] pairs[i] == (key, pairs_lookup(pairs, key)->0),
    decreases pairs.len(),
{
    let n = pairs.len() as int;
    if pairs.last().0 == key {
        assert(last_occurrence(pairs, n - 1));
        assert(pairs[n - 1] == (key, pairs_lookup(pairs, key)->0));
    } else {
        let init = pairs.drop_last();
        lemma_lookup_last(init, key);
        let i = choose|i: int|
            0 <= i < init.len() && last_occurrence(init, i) && #[trigger] init[i] == (key, pairs_lookup(init, key)->0);
        assert(pairs[i] == init[i]);
        assert forall|j: int| i < j < pairs.len() implies #[trigger] pairs[j].0 != pairs[i].0 by {
            if j < n - 1 {
                assert(pairs[j] == init[j]);
            }
        }
    }
}

/// The pairs with each key once, at its last occurrence (the value it
/// denotes), in the order of those occurrences.
pub fn distinct_pairs(pairs: &Vec<(String, String)>) -> (r: Vec<(String, String)>)
    ensures
        keys_distinct(string_pairs_view(r@)),
        pairs_map(string_pairs_view(r@)) == pairs_map(string_pairs_view(pairs@)),
{
    let ghost view = string_pairs_view(pairs@);
    let ghost mut idx: Seq<int> = Seq::empty();
    let mut out: Vec<(String, String)> = Vec::new();
    let n = pairs.len();
    let mut i: usize = 0;
    while i < n
        invariant
            n == pairs@.len(),
            i <= n,
            view == string_pairs_view(pairs@),
            view.len() == n,
            idx.len() == out@.len(),
            forall|q: int| 0 <= q < idx.len() ==> 0 <= #[trigger] idx[q] < i,
            forall|q: int, p: int| 0 <= q < p < idx.len() ==> #[trigger] idx[q] < #[trigger] idx[p],
            forall|q: int| 0 <= q < idx.len() ==> last_occurrence(view, #[trigger] idx[q]),
            forall|q: int| 0 <= q < idx.len() ==> #[trigger] string_pairs_view(out@)[q] == view[idx[q]],
            forall|k: int| 0 <= k < i && last_occurrence(view, k) ==> exists|q: int| 0 <= q < idx.len() && #[trigger] idx[q] == k,
        decreases n - i,
    {
        let mut later = false;
        let mut j: usize = i + 1;
        while j < n
            invariant
                n == pairs@.len(),
                i < n,
                i < j <= n,
                view == string_pairs_view(pairs@),
                view.len() == n,
                later == (exists|m: int| i < m < j && #[trigger] view[m].0 == view[i as int].0),
            decreases n - j,
        {
            assert(view[j as int] == (pairs@[j as int].0@, pairs@[j as int].1@));
            assert(view[i as int] == (pairs@[i as int].0@, pairs@[i as int].1@));
            let same = pairs[j].0 == pairs[i].0;
            proof {
                assert(same == (view[j as int].0 == view[i as int].0));
                if same {
                    assert(view[j as int].0 == view[i as int].0);
                }
                if !same && !later {
                    assert forall|m: int| i < m < j + 1 implies #[trigger] view[m].0 != view[i as int].0 by {
                        if m < j {
                        }
                    }
                }
            }
            if same {
                later = true;
            }
            j += 1;
        }
        assert(view[i as int] == (pairs@[i as int].0@, pairs@[i as int].1@));
        if !later {
            let ghost old_idx = idx;
            let ghost old_out = string_pairs_view(out@);
            proof {
                assert(last_occurrence(view, i as int));
                idx = idx.push(i as int);
            }
            let key = pairs[i].0.clone();
            let value = pairs[i].1.clone();
            out.push((key, value));
            proof {
                assert(string_pairs_view(out@)[idx.len() - 1] == view[i as int]);
                assert forall|q: int| 0 <= q < old_idx.len() implies #[trigger] string_pairs_view(out@)[q] == old_out[q] by {
                }
                assert forall|k: int| 0 <= k < i + 1 && last_occurrence(view, k) implies exists|q: int|
                    0 <= q < idx.len() && #[trigger] idx[q] == k by {
                    if k == i {
                        assert(idx[idx.len() - 1] == k);
                    } else {
                        let q = choose|q: int| 0 <= q < old_idx.len() && #[trigger] old_idx[q] == k;
                        assert(idx[q] == old_idx[q]);
                    }
                }
            }
        } else {
            proof {
                let m = choose|m: int| i < m < n && #[trigger] view[m].0 == view[i as int].0;
                assert(!last_occurrence(view, i as int));
            }
        }
        i += 1;
    }
    let ghost rv = string_pairs_view(out@);
    proof {
        assert forall|q: int, p: int| 0 <= q < p < rv.len() implies #[trigger] rv[q].0 != #[trigger] rv[p].0 by {
            assert(idx[q] < idx[p]);
            assert(last_occurrence(view, idx[q]));
            assert(view[idx[p]].0 != view[idx[q]].0);
        }
        assert forall|k: Seq<char>| pairs_lookup(rv, k) == pairs_lookup(view, k) by {
            if pairs_lookup(view, k) is Some {
                lemma_lookup_last(view, k);
                let m = choose|m: int|
                    0 <= m < view.len() && last_occurrence(view, m) && #[trigger] view[m] == (k, pairs_lookup(view, k)->0);
                let q = choose|q: int| 0 <= q < idx.len() && #[trigger] idx[q] == m;
                assert(rv[q] == view[m]);
                assert(last_occurrence(rv, q));
                lemma_last_lookup(rv, q);
            } else {
                lemma_lookup_some(view, k);
                lemma_lookup_some(rv, k);
                if exists|q: int| 0 <= q < rv.len() && #[trigger] rv[q].0 == k {
                    let q = choose|q: int| 0 <= q < rv.len() && #[trigger] rv[q].0 == k;
                    assert(view[idx[q]].0 == k);
                }
            }
        }
        lemma_pairs_map_eq(rv, view);
    }
    out
}

} // verus!
