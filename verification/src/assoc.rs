//! A string-keyed association list with unique keys, viewed abstractly as
//! a map from character sequences to element views. The parser stores a
//! record's free-form fields in one, and the batch parser keys whole
//! records the same way; insertion order never shows through the view.

use vstd::prelude::*;

verus! {

/// Compare two string slices by their characters.
pub fn str_eq(a: &str, b: &str) -> (r: bool)
    ensures
        r == (a@ == b@),
{
    let sa: String = a.to_owned();
    let sb: String = b.to_owned();
    sa == sb
}

/// No two entries share a key.
pub open spec fn keys_unique<V>(s: Seq<(String, V)>) -> bool {
    forall|i: int, j: int| 0 <= i < j < s.len() ==> (#[trigger] s[i]).0@ != (#[trigger] s[j]).0@
}

/// The map the entries denote: each key to its value's view, later entries
/// overwriting earlier ones.
pub open spec fn assoc_map<V: View>(s: Seq<(String, V)>) -> Map<Seq<char>, V::V>
    decreases s.len(),
{
    if s.len() == 0 {
        Map::empty()
    } else {
        assoc_map(s.drop_last()).insert(s.last().0@, s.last().1@)
    }
}

/// A key is in the map exactly when some entry carries it.
pub proof fn lemma_assoc_contains_key<V: View>(s: Seq<(String, V)>, k: Seq<char>)
    ensures
        assoc_map(s).dom().contains(k) <==> (exists|i: int|
            0 <= i < s.len() && (#[trigger] s[i]).0@ == k),
    decreases s.len(),
{
    if s.len() == 0 {
    } else {
        lemma_assoc_contains_key(s.drop_last(), k);
        if s.last().0@ == k {
            assert(s[s.len() - 1].0@ == k);
        } else {
            if exists|i: int| 0 <= i < s.len() && (#[trigger] s[i]).0@ == k {
                let i = choose|i: int| 0 <= i < s.len() && (#[trigger] s[i]).0@ == k;
                assert(i < s.len() - 1);
                assert(s.drop_last()[i].0@ == k);
            }
            if exists|i: int| 0 <= i < s.drop_last().len() && (#[trigger] s.drop_last()[i]).0@
                == k {
                let i = choose|i: int|
                    0 <= i < s.drop_last().len() && (#[trigger] s.drop_last()[i]).0@ == k;
                assert(s[i].0@ == k);
            }
        }
    }
}

/// With unique keys, the map sends each entry's key to that entry's value.
pub proof fn lemma_assoc_value_at<V: View>(s: Seq<(String, V)>, i: int)
    requires
        keys_unique(s),
        0 <= i < s.len(),
    ensures
        assoc_map(s).dom().contains(s[i].0@),
        assoc_map(s)[s[i].0@] == s[i].1@,
    decreases s.len(),
{
    if i == s.len() - 1 {
    } else {
        assert(s[i].0@ != s.last().0@);
        assert(s.drop_last()[i] == s[i]);
        lemma_assoc_value_at(s.drop_last(), i);
    }
}

/// Overwriting the value at an entry updates the map at that entry's key.
proof fn lemma_assoc_update<V: View>(s: Seq<(String, V)>, i: int, e: (String, V))
    requires
        keys_unique(s),
        0 <= i < s.len(),
        e.0@ == s[i].0@,
    ensures
        assoc_map(s.update(i, e)) =~= assoc_map(s).insert(e.0@, e.1@),
    decreases s.len(),
{
    let s2 = s.update(i, e);
    if i == s.len() - 1 {
        assert(s2.drop_last() =~= s.drop_last());
        assert(s2.last() == e);
    } else {
        assert(s2.drop_last() =~= s.drop_last().update(i, e));
        assert(s2.last() == s.last());
        assert(s.drop_last()[i] == s[i]);
        lemma_assoc_update(s.drop_last(), i, e);
        assert(s.last().0@ != e.0@);
    }
}

/// Removing an entry removes exactly that entry's key from the map.
proof fn lemma_assoc_remove<V: View>(s: Seq<(String, V)>, i: int)
    requires
        keys_unique(s),
        0 <= i < s.len(),
    ensures
        assoc_map(s.remove(i)) =~= assoc_map(s).remove(s[i].0@),
    decreases s.len(),
{
    let s2 = s.remove(i);
    if i == s.len() - 1 {
        assert(s2 =~= s.drop_last());
        assert forall|k: Seq<char>| assoc_map(s.drop_last()).dom().contains(k) implies k
            != s.last().0@ by {
            lemma_assoc_contains_key(s.drop_last(), k);
            let j = choose|j: int|
                0 <= j < s.drop_last().len() && (#[trigger] s.drop_last()[j]).0@ == k;
            assert(s[j].0@ == k);
        }
    } else {
        assert(s2.drop_last() =~= s.drop_last().remove(i));
        assert(s2.last() == s.last());
        assert(s.drop_last()[i] == s[i]);
        lemma_assoc_remove(s.drop_last(), i);
        assert(s[i].0@ != s.last().0@);
    }
}

/// Insert or overwrite: afterwards the entries denote the old map with
/// `key` bound to `value`.
pub fn assoc_insert<V: View>(entries: &mut Vec<(String, V)>, key: String, value: V)
    requires
        keys_unique(old(entries)@),
    ensures
        keys_unique(final(entries)@),
        assoc_map(final(entries)@) == assoc_map(old(entries)@).insert(key@, value@),
{
    let n: usize = entries.len();
    let mut idx: usize = 0;
    while idx < n
        invariant
            idx <= n,
            n == entries@.len(),
            *entries == *old(entries),
            keys_unique(entries@),
            forall|j: int| 0 <= j < idx ==> (#[trigger] entries@[j]).0@ != key@,
        decreases n - idx,
    {
        if str_eq(entries[idx].0.as_str(), key.as_str()) {
            let ghost olds = entries@;
            entries[idx] = (key, value);
            proof {
                lemma_assoc_update(olds, idx as int, entries@[idx as int]);
                assert forall|i: int, j: int|
                    0 <= i < j < entries@.len() implies (#[trigger] entries@[i]).0@ != (
                #[trigger] entries@[j]).0@ by {
                    assert(olds[i].0@ != olds[j].0@);
                }
            }
            return ;
        }
        idx = idx + 1;
    }
    let ghost olds = entries@;
    entries.push((key, value));
    proof {
        assert(entries@.drop_last() =~= olds);
        assert forall|i: int, j: int| 0 <= i < j < entries@.len() implies (
        #[trigger] entries@[i]).0@ != (#[trigger] entries@[j]).0@ by {
            if j < olds.len() {
                assert(olds[i].0@ != olds[j].0@);
            } else {
                assert(entries@[j].0@ == key@);
            }
        }
    }
}

/// Remove the entry for `key`, if any, returning its value. The entries
/// afterwards denote the old map with `key` unbound.
pub fn assoc_remove<V: View>(entries: &mut Vec<(String, V)>, key: &str) -> (r: Option<V>)
    requires
        keys_unique(old(entries)@),
    ensures
        keys_unique(final(entries)@),
        match r {
            Some(v) => assoc_map(old(entries)@).dom().contains(key@) && v@ == assoc_map(
                old(entries)@,
            )[key@] && assoc_map(final(entries)@) == assoc_map(old(entries)@).remove(key@),
            None => !assoc_map(old(entries)@).dom().contains(key@) && *final(entries) == *old(
                entries,
            ),
        },
{
    let n: usize = entries.len();
    let mut idx: usize = 0;
    while idx < n
        invariant
            idx <= n,
            n == entries@.len(),
            *entries == *old(entries),
            keys_unique(entries@),
            forall|j: int| 0 <= j < idx ==> (#[trigger] entries@[j]).0@ != key@,
        decreases n - idx,
    {
        if str_eq(entries[idx].0.as_str(), key) {
            let ghost olds = entries@;
            let pair = entries.remove(idx);
            proof {
                lemma_assoc_value_at(olds, idx as int);
                lemma_assoc_remove(olds, idx as int);
                assert forall|i: int, j: int|
                    0 <= i < j < entries@.len() implies (#[trigger] entries@[i]).0@ != (
                #[trigger] entries@[j]).0@ by {
                    let oi = if i < idx { i } else { i + 1 };
                    let oj = if j < idx { j } else { j + 1 };
                    assert(entries@[i] == olds[oi]);
                    assert(entries@[j] == olds[oj]);
                    assert(olds[oi].0@ != olds[oj].0@);
                }
            }
            return Some(pair.1);
        }
        idx = idx + 1;
    }
    proof {
        lemma_assoc_contains_key(entries@, key@);
    }
    None
}

} // verus!
