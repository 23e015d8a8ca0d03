//! Association lists keyed by strings: an ordered list of entries in which a
//! key is found at its first occurrence.

use vstd::prelude::*;

verus! {

/// Position of the first entry of `s` with key `k`, or `s.len()` when there is none.
pub open spec fn find_key<W>(s: Seq<(Seq<char>, W)>, k: Seq<char>) -> int
    decreases s.len(),
{
    if s.len() == 0 {
        0
    } else if s[0].0 == k {
        0
    } else {
        1 + find_key(s.drop_first(), k)
    }
}

/// The value that `s` holds for `k`.
pub open spec fn lookup<W>(s: Seq<(Seq<char>, W)>, k: Seq<char>) -> Option<W> {
    let i = find_key(s, k);
    if 0 <= i < s.len() {
        Some(s[i].1)
    } else {
        None
    }
}

/// `s` with the value for `k` set to `w`: in place where `k` is present, at
/// the end where it is not.
pub open spec fn upsert<W>(s: Seq<(Seq<char>, W)>, k: Seq<char>, w: W) -> Seq<(Seq<char>, W)> {
    let i = find_key(s, k);
    if 0 <= i < s.len() {
        s.update(i, (k, w))
    } else {
        s.push((k, w))
    }
}

/// `s` without its first entry for `k`.
pub open spec fn without<W>(s: Seq<(Seq<char>, W)>, k: Seq<char>) -> Seq<(Seq<char>, W)> {
    let i = find_key(s, k);
    if 0 <= i < s.len() {
        s.remove(i)
    } else {
        s
    }
}

/// Whether no key occurs twice in `s`.
pub open spec fn distinct_keys<W>(s: Seq<(Seq<char>, W)>) -> bool {
    forall|i: int, j: int| 0 <= i < j < s.len() ==> s[i].0 != s[j].0
}

pub proof fn lemma_find_key_bounds<W>(s: Seq<(Seq<char>, W)>, k: Seq<char>)
    ensures
        0 <= find_key(s, k) <= s.len(),
        find_key(s, k) < s.len() ==> s[find_key(s, k)].0 == k,
        forall|j: int| 0 <= j < find_key(s, k) ==> s[j].0 != k,
    decreases s.len(),
{
    if s.len() > 0 && s[0].0 != k {
        let t = s.drop_first();
        lemma_find_key_bounds(t, k);
        assert forall|j: int| 0 <= j < find_key(s, k) implies s[j].0 != k by {
            if j > 0 {
                assert(s[j] == t[j - 1]);
            }
        }
    }
}

pub proof fn lemma_find_key_is<W>(s: Seq<(Seq<char>, W)>, k: Seq<char>, i: int)
    requires
        0 <= i <= s.len(),
        forall|j: int| 0 <= j < i ==> s[j].0 != k,
        i < s.len() ==> s[i].0 == k,
    ensures
        find_key(s, k) == i,
{
    lemma_find_key_bounds(s, k);
    let f = find_key(s, k);
    if f < i {
        assert(s[f].0 == k);
    } else if f > i {
        assert(s[i].0 == k);
    }
}

/// After `k` is set to `w`, looking up `k` gives `w` and every other key gives
/// what it gave before.
pub proof fn lemma_lookup_upsert<W>(s: Seq<(Seq<char>, W)>, k: Seq<char>, w: W, other: Seq<char>)
    ensures
        lookup(upsert(s, k, w), other) == if other == k {
            Some(w)
        } else {
            lookup(s, other)
        },
{
    lemma_find_key_bounds(s, k);
    lemma_find_key_bounds(s, other);
    let i = find_key(s, k);
    let t = upsert(s, k, w);
    if other == k {
        assert forall|j: int| 0 <= j < i implies t[j].0 != k by {
            assert(t[j] == s[j]);
        }
        lemma_find_key_is(t, k, i);
    } else {
        let f = find_key(s, other);
        assert forall|j: int| 0 <= j < f implies t[j].0 != other by {
            if j != i {
                assert(t[j] == s[j]);
            }
        }
        if f < s.len() {
            assert(f != i);
            assert(t[f] == s[f]);
            lemma_find_key_is(t, other, f);
        } else {
            assert forall|j: int| 0 <= j < t.len() implies t[j].0 != other by {
                if j != i {
                    assert(t[j] == s[j]);
                }
            }
            lemma_find_key_is(t, other, t.len() as int);
        }
    }
}

/// Setting a key keeps the keys distinct.
pub proof fn lemma_upsert_distinct<W>(s: Seq<(Seq<char>, W)>, k: Seq<char>, w: W)
    requires
        distinct_keys(s),
    ensures
        distinct_keys(upsert(s, k, w)),
{
    lemma_find_key_bounds(s, k);
    let i = find_key(s, k);
    let t = upsert(s, k, w);
    assert forall|a: int, b: int| 0 <= a < b < t.len() implies t[a].0 != t[b].0 by {
        if i < s.len() {
            assert(t[a].0 == s[a].0);
            assert(t[b].0 == s[b].0);
        } else {
            if b < s.len() {
                assert(t[a] == s[a] && t[b] == s[b]);
            } else {
                assert(t[a] == s[a]);
            }
        }
    }
}

/// Position of the first entry of `list` with key `key`, or `list.len()`.
pub fn position_of<V: DeepView>(list: &Vec<(String, V)>, key: &String) -> (i: usize)
    ensures
        i == find_key(list.deep_view(), key@),
        i <= list.len(),
        i < list.len() ==> list@[i as int].0@ == key@,
{
    let mut i: usize = 0;
    while i < list.len() && !(list[i].0 == *key)
        invariant
            i <= list.len(),
            forall|j: int| 0 <= j < i ==> list.deep_view()[j].0 != key@,
        decreases list.len() - i,
    {
        assert(list.deep_view()[i as int].0 == list@[i as int].0@);
        i += 1;
    }
    proof {
        if i < list.len() {
            assert(list.deep_view()[i as int].0 == list@[i as int].0@);
        }
        lemma_find_key_is(list.deep_view(), key@, i as int);
    }
    i
}

/// The value that `list` holds for `key`.
pub fn get<'a, V: DeepView>(list: &'a Vec<(String, V)>, key: &String) -> (r: Option<&'a V>)
    ensures
        match r {
            Some(v) => lookup(list.deep_view(), key@) == Some(v.deep_view()),
            None => lookup(list.deep_view(), key@) is None,
        },
{
    let i = position_of(list, key);
    if i < list.len() {
        assert(list.deep_view()[i as int].1 == list@[i as int].1.deep_view());
        Some(&list[i].1)
    } else {
        None
    }
}

/// Sets the value for `key`: in place where the key is present, at the end
/// where it is not.
pub fn put<V: DeepView>(list: &mut Vec<(String, V)>, key: String, value: V)
    ensures
        final(list).deep_view() == upsert(old(list).deep_view(), key@, value.deep_view()),
{
    let i = position_of(list, &key);
    let ghost before = list.deep_view();
    let ghost k = key@;
    let ghost w = value.deep_view();
    if i < list.len() {
        list.set(i, (key, value));
        assert(list.deep_view() =~= before.update(i as int, (k, w)));
    } else {
        list.push((key, value));
        assert(list.deep_view() =~= before.push((k, w)));
    }
}

/// Removes the first entry for `key` and returns its value.
pub fn take_out<V: DeepView>(list: &mut Vec<(String, V)>, key: &String) -> (r: Option<V>)
    ensures
        final(list).deep_view() == without(old(list).deep_view(), key@),
        match r {
            Some(v) => lookup(old(list).deep_view(), key@) == Some(v.deep_view()),
            None => lookup(old(list).deep_view(), key@) is None,
        },
{
    let i = position_of(list, key);
    let ghost before = list.deep_view();
    if i < list.len() {
        assert(before[i as int].1 == list@[i as int].1.deep_view());
        let entry = list.remove(i);
        assert(list.deep_view() =~= before.remove(i as int));
        Some(entry.1)
    } else {
        None
    }
}

} // verus!
