//! Lists of entries under text keys, kept in the order in which the keys
//! came. Of two entries with one key the first is the one that counts.

use crate::text::str_eq;
use vstd::prelude::*;
use vstd::string::*;

verus! {

/// The index of the first entry at or after `from` that has the key.
pub open spec fn position<X>(s: Seq<(Seq<char>, X)>, key: Seq<char>, from: int) -> Option<int>
    decreases s.len() - from,
{
    if from < 0 || from >= s.len() {
        None
    } else if s[from].0 == key {
        Some(from)
    } else {
        position(s, key, from + 1)
    }
}

/// What stands under a key.
pub open spec fn value_of<X>(s: Seq<(Seq<char>, X)>, key: Seq<char>) -> Option<X> {
    match position(s, key, 0) {
        Some(i) => Some(s[i].1),
        None => None,
    }
}

/// The list with a value put under a key: in the place of the entry that
/// has the key, or at the end where there is none.
pub open spec fn put<X>(s: Seq<(Seq<char>, X)>, key: Seq<char>, x: X) -> Seq<(Seq<char>, X)> {
    match position(s, key, 0) {
        Some(i) => s.update(i, (key, x)),
        None => s.push((key, x)),
    }
}

/// The list without the entries that have the key.
pub open spec fn without<X>(s: Seq<(Seq<char>, X)>, key: Seq<char>) -> Seq<(Seq<char>, X)>
    decreases s.len(),
{
    if s.len() == 0 {
        s
    } else if s.last().0 == key {
        without(s.drop_last(), key)
    } else {
        without(s.drop_last(), key).push(s.last())
    }
}

/// Every key stands once.
pub open spec fn distinct_keys<X>(s: Seq<(Seq<char>, X)>) -> bool {
    forall|i: int, j: int| 0 <= i < j < s.len() ==> (#[trigger] s[i]).0 != (#[trigger] s[j]).0
}

/// Some entry has the key.
pub open spec fn has_key<X>(s: Seq<(Seq<char>, X)>, key: Seq<char>) -> bool {
    exists|i: int| 0 <= i < s.len() && (#[trigger] s[i]).0 == key
}

/// Putting a value under a key leaves every key standing once.
pub proof fn lemma_put_keeps_distinct<X>(s: Seq<(Seq<char>, X)>, key: Seq<char>, x: X)
    requires
        distinct_keys(s),
    ensures
        distinct_keys(put(s, key, x)),
{
    lemma_position_bounds(s, key, 0);
    let p = put(s, key, x);
    match position(s, key, 0) {
        Some(k) => {
            assert forall|i: int, j: int| 0 <= i < j < p.len() implies (#[trigger] p[i]).0 != (#[trigger] p[j]).0 by {
                assert(p[i].0 == s[i].0);
                assert(p[j].0 == s[j].0);
            }
        },
        None => {
            assert forall|i: int, j: int| 0 <= i < j < p.len() implies (#[trigger] p[i]).0 != (#[trigger] p[j]).0 by {
                assert(p[i] == s[i]);
                if j < s.len() {
                    assert(p[j] == s[j]);
                }
            }
        },
    }
}

/// Taking a key out leaves only keys that were there, and every key
/// standing once.
pub proof fn lemma_without_keeps_distinct<X>(s: Seq<(Seq<char>, X)>, key: Seq<char>)
    ensures
        forall|k: Seq<char>| has_key(without(s, key), k) ==> has_key(s, k),
        distinct_keys(s) ==> distinct_keys(without(s, key)),
    decreases s.len(),
{
    if s.len() > 0 {
        let head = s.drop_last();
        let w = without(s, key);
        let wh = without(head, key);
        lemma_without_keeps_distinct(head, key);
        assert forall|k: Seq<char>| has_key(w, k) implies has_key(s, k) by {
            let i = choose|i: int| 0 <= i < w.len() && (#[trigger] w[i]).0 == k;
            if i < wh.len() {
                assert(w[i] == wh[i]);
                assert(wh[i].0 == k);
                assert(has_key(wh, k));
                assert(has_key(head, k));
                let j = choose|j: int| 0 <= j < head.len() && (#[trigger] head[j]).0 == k;
                assert(s[j] == head[j]);
                assert(s[j].0 == k);
            } else {
                assert(w[i] == s[s.len() - 1]);
                assert(s[s.len() - 1].0 == k);
            }
        }
        if distinct_keys(s) {
            assert forall|i: int, j: int| 0 <= i < j < head.len() implies (#[trigger] head[i]).0 != (
            #[trigger] head[j]).0 by {
                assert(head[i] == s[i]);
                assert(head[j] == s[j]);
            }
            assert forall|i: int, j: int| 0 <= i < j < w.len() implies (#[trigger] w[i]).0 != (#[trigger] w[j]).0 by {
                if j < wh.len() {
                    assert(w[i] == wh[i]);
                    assert(w[j] == wh[j]);
                } else {
                    assert(w[i] == wh[i]);
                    assert(has_key(wh, wh[i].0));
                    assert(has_key(head, wh[i].0));
                    let k = choose|k: int| 0 <= k < head.len() && (#[trigger] head[k]).0 == wh[i].0;
                    assert(s[k] == head[k]);
                    assert(w[j] == s[s.len() - 1]);
                }
            }
        }
    }
}

/// The entries as keys and values of the model.
pub open spec fn entries_view<V: View>(e: Seq<(String, V)>) -> Seq<(Seq<char>, V::V)> {
    Seq::new(e.len(), |i: int| (e[i].0@, e[i].1@))
}

/// What `position` gives is the first entry with the key.
pub proof fn lemma_position_bounds<X>(s: Seq<(Seq<char>, X)>, key: Seq<char>, from: int)
    requires
        0 <= from,
    ensures
        match position(s, key, from) {
            Some(i) => from <= i < s.len() && s[i].0 == key && forall|j: int|
                from <= j < i ==> (#[trigger] s[j]).0 != key,
            None => forall|j: int| from <= j < s.len() ==> (#[trigger] s[j]).0 != key,
        },
    decreases s.len() - from,
{
    if from < s.len() && s[from].0 != key {
        lemma_position_bounds(s, key, from + 1);
    }
}

/// The first entry with the key is what `position` gives.
pub proof fn lemma_position_first<X>(s: Seq<(Seq<char>, X)>, key: Seq<char>, from: int, i: int)
    requires
        0 <= from <= i < s.len(),
        s[i].0 == key,
        forall|j: int| from <= j < i ==> (#[trigger] s[j]).0 != key,
    ensures
        position(s, key, from) == Some(i),
    decreases i - from,
{
    if from < i {
        lemma_position_first(s, key, from + 1, i);
    }
}

/// Where no entry has the key, `position` gives nothing.
pub proof fn lemma_position_none<X>(s: Seq<(Seq<char>, X)>, key: Seq<char>, from: int)
    requires
        0 <= from,
        forall|j: int| from <= j < s.len() ==> (#[trigger] s[j]).0 != key,
    ensures
        position(s, key, from) is None,
    decreases s.len() - from,
{
    if from < s.len() {
        lemma_position_none(s, key, from + 1);
    }
}

proof fn lemma_without_removed<X>(s: Seq<(Seq<char>, X)>, key: Seq<char>, i: int)
    requires
        0 <= i < s.len(),
        s[i].0 == key,
    ensures
        without(s.remove(i), key) == without(s, key),
    decreases s.len(),
{
    if i == s.len() - 1 {
        assert(s.remove(i) =~= s.drop_last());
    } else {
        let r = s.remove(i);
        assert(r.last() == s.last());
        assert(r.drop_last() =~= s.drop_last().remove(i));
        lemma_without_removed(s.drop_last(), key, i);
    }
}

proof fn lemma_without_absent<X>(s: Seq<(Seq<char>, X)>, key: Seq<char>)
    requires
        forall|j: int| 0 <= j < s.len() ==> (#[trigger] s[j]).0 != key,
    ensures
        without(s, key) == s,
    decreases s.len(),
{
    if s.len() > 0 {
        lemma_without_absent(s.drop_last(), key);
        assert(s.drop_last().push(s.last()) =~= s);
    }
}

/// Nothing stands under a key that was taken out, and what stands under
/// another key stays.
pub proof fn lemma_without_value<X>(s: Seq<(Seq<char>, X)>, key: Seq<char>, other: Seq<char>)
    ensures
        value_of(without(s, key), key) is None,
        other != key ==> value_of(without(s, key), other) == value_of(s, other),
    decreases s.len(),
{
    let w = without(s, key);
    if s.len() == 0 {
    } else {
        let head = s.drop_last();
        lemma_without_value(head, key, other);
        lemma_position_bounds(without(head, key), key, 0);
        lemma_position_bounds(without(head, key), other, 0);
        lemma_position_bounds(head, other, 0);
        lemma_position_bounds(s, other, 0);
        assert forall|j: int| 0 <= j < head.len() implies #[trigger] s[j] == head[j] by {}
        if s.last().0 == key {
            if other != key {
                match position(head, other, 0) {
                    Some(i) => {
                        lemma_position_first(s, other, 0, i);
                    },
                    None => {
                        lemma_position_none(s, other, 0);
                    },
                }
            }
        } else {
            assert forall|j: int| 0 <= j < w.len() - 1 implies #[trigger] w[j] == without(head, key)[j] by {}
            lemma_position_none(w, key, 0);
            if other != key {
                match position(without(head, key), other, 0) {
                    Some(i) => {
                        lemma_position_first(w, other, 0, i);
                        let k = position(head, other, 0).unwrap();
                        lemma_position_first(s, other, 0, k);
                    },
                    None => {
                        if s.last().0 == other {
                            lemma_position_first(w, other, 0, w.len() - 1);
                            lemma_position_first(s, other, 0, s.len() - 1);
                        } else {
                            lemma_position_none(w, other, 0);
                            lemma_position_none(s, other, 0);
                        }
                    },
                }
            }
        }
    }
}

/// What was put under a key stands under it, and what stands under another
/// key stays.
pub proof fn lemma_put_value<X>(s: Seq<(Seq<char>, X)>, key: Seq<char>, x: X, other: Seq<char>)
    ensures
        value_of(put(s, key, x), key) == Some(x),
        other != key ==> value_of(put(s, key, x), other) == value_of(s, other),
{
    let p = put(s, key, x);
    lemma_position_bounds(s, key, 0);
    lemma_position_bounds(s, other, 0);
    match position(s, key, 0) {
        Some(i) => {
            lemma_position_first(p, key, 0, i);
            if other != key {
                match position(s, other, 0) {
                    Some(k) => {
                        lemma_position_first(p, other, 0, k);
                    },
                    None => {
                        lemma_position_none(p, other, 0);
                    },
                }
            }
        },
        None => {
            lemma_position_first(p, key, 0, s.len() as int);
            if other != key {
                match position(s, other, 0) {
                    Some(k) => {
                        lemma_position_first(p, other, 0, k);
                    },
                    None => {
                        lemma_position_none(p, other, 0);
                    },
                }
            }
        },
    }
}

/// The index of the first entry with the key.
pub fn find_key<V: View>(entries: &Vec<(String, V)>, key: &str) -> (r: Option<usize>)
    ensures
        match r {
            Some(i) => i < entries.len() && position(entries_view(entries@), key@, 0) == Some(i as int),
            None => position(entries_view(entries@), key@, 0) is None,
        },
{
    let ghost view = entries_view(entries@);
    let mut i: usize = 0;
    while i < entries.len()
        invariant
            i <= entries.len(),
            view == entries_view(entries@),
            forall|j: int| 0 <= j < i ==> (#[trigger] view[j]).0 != key@,
        decreases entries.len() - i,
    {
        if str_eq(entries[i].0.as_str(), key) {
            proof {
                lemma_position_first(view, key@, 0, i as int);
            }
            return Some(i);
        }
        i += 1;
    }
    proof {
        lemma_position_none(view, key@, 0);
    }
    None
}

/// Puts a value under a key.
pub fn put_entry<V: View>(entries: &mut Vec<(String, V)>, key: &str, value: V)
    ensures
        entries_view(final(entries)@) == put(entries_view(old(entries)@), key@, value@),
{
    let name = String::from_str(key);
    match find_key(entries, key) {
        Some(i) => {
            entries.set(i, (name, value));
            assert(entries_view(entries@) =~= put(entries_view(old(entries)@), key@, value@));
        },
        None => {
            entries.push((name, value));
            assert(entries_view(entries@) =~= put(entries_view(old(entries)@), key@, value@));
        },
    }
}

/// Takes out the entries that have the key.
pub fn drop_key<V: View>(entries: &mut Vec<(String, V)>, key: &str)
    ensures
        entries_view(final(entries)@) == without(entries_view(old(entries)@), key@),
{
    let mut i: usize = 0;
    while i < entries.len()
        invariant
            i <= entries.len(),
            forall|j: int| 0 <= j < i ==> (#[trigger] entries_view(entries@)[j]).0 != key@,
            without(entries_view(entries@), key@) == without(entries_view(old(entries)@), key@),
        decreases entries.len() - i,
    {
        if str_eq(entries[i].0.as_str(), key) {
            let ghost before = entries_view(entries@);
            proof {
                lemma_without_removed(before, key@, i as int);
            }
            entries.remove(i);
            assert(entries_view(entries@) =~= before.remove(i as int));
        } else {
            i += 1;
        }
    }
    proof {
        lemma_without_absent(entries_view(entries@), key@);
    }
}

} // verus!
