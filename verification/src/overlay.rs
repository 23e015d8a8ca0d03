//! Sparse settings indexed by block: a declaration made at one block stays in
//! force at every later block until the next declaration.

use vstd::prelude::*;

verus! {

/// Whether the keys of `s` increase strictly.
pub open spec fn increasing<W>(s: Seq<(nat, W)>) -> bool {
    forall|i: int, j: int| 0 <= i < j < s.len() ==> s[i].0 < s[j].0
}

/// `s` with `w` declared at block `k`; a declaration already made at `k` is replaced.
pub open spec fn declare<W>(s: Seq<(nat, W)>, k: nat, w: W) -> Seq<(nat, W)>
    decreases s.len(),
{
    if s.len() == 0 {
        seq![(k, w)]
    } else if s.last().0 < k {
        s.push((k, w))
    } else if s.last().0 == k {
        s.drop_last().push((k, w))
    } else {
        declare(s.drop_last(), k, w).push(s.last())
    }
}

/// The last declaration of `s` made at or before `index`.
pub open spec fn in_force<W>(s: Seq<(nat, W)>, index: nat) -> Option<(nat, W)>
    decreases s.len(),
{
    if s.len() == 0 {
        None
    } else if s.last().0 <= index {
        Some(s.last())
    } else {
        in_force(s.drop_last(), index)
    }
}

/// What `s` declares at exactly block `k`.
pub open spec fn declared_at<W>(s: Seq<(nat, W)>, k: nat) -> Option<W> {
    match in_force(s, k) {
        Some(e) => if e.0 == k {
            Some(e.1)
        } else {
            None
        },
        None => None,
    }
}

/// Whether `s` holds a declaration at block `k`.
pub open spec fn has_key<W>(s: Seq<(nat, W)>, k: nat) -> bool {
    exists|j: int| 0 <= j < s.len() && s[j].0 == k
}

/// Whether `k` is the greatest block at or before `index` at which `s` declares something.
pub open spec fn is_nearest<W>(s: Seq<(nat, W)>, index: nat, k: nat) -> bool {
    &&& has_key(s, k)
    &&& k <= index
    &&& forall|j: int| 0 <= j < s.len() && s[j].0 <= index ==> s[j].0 <= k
}

/// Every key of `declare(s, k, w)` is `k` or a key of `s`, and the other way round.
pub proof fn lemma_declare_keys<W>(s: Seq<(nat, W)>, k: nat, w: W)
    ensures
        forall|j: int|
            0 <= j < declare(s, k, w).len() ==> declare(s, k, w)[j].0 == k || has_key(
                s,
                #[trigger] declare(s, k, w)[j].0,
            ),
        has_key(declare(s, k, w), k),
        forall|i: int| 0 <= i < s.len() ==> has_key(declare(s, k, w), #[trigger] s[i].0),
        declare(s, k, w).len() >= 1,
    decreases s.len(),
{
    let d = declare(s, k, w);
    if s.len() == 0 {
        assert(d[0].0 == k);
    } else if s.last().0 < k {
        assert(d[s.len() as int].0 == k);
        assert forall|j: int| 0 <= j < d.len() implies d[j].0 == k || has_key(
            s,
            #[trigger] d[j].0,
        ) by {
            if j < s.len() {
                assert(s[j].0 == d[j].0);
            }
        }
        assert forall|i: int| 0 <= i < s.len() implies has_key(d, #[trigger] s[i].0) by {
            assert(d[i].0 == s[i].0);
        }
    } else if s.last().0 == k {
        assert(d[s.len() - 1].0 == k);
        assert forall|j: int| 0 <= j < d.len() implies d[j].0 == k || has_key(
            s,
            #[trigger] d[j].0,
        ) by {
            if j < s.len() - 1 {
                assert(s[j].0 == d[j].0);
            }
        }
        assert forall|i: int| 0 <= i < s.len() implies has_key(d, #[trigger] s[i].0) by {
            assert(d[i].0 == s[i].0);
        }
    } else {
        let t = s.drop_last();
        let dt = declare(t, k, w);
        lemma_declare_keys(t, k, w);
        assert forall|j: int| 0 <= j < d.len() implies d[j].0 == k || has_key(
            s,
            #[trigger] d[j].0,
        ) by {
            if j < dt.len() {
                assert(d[j] == dt[j]);
                if dt[j].0 != k {
                    let i = choose|i: int| 0 <= i < t.len() && t[i].0 == dt[j].0;
                    assert(s[i].0 == dt[j].0);
                }
            } else {
                assert(d[j] == s.last());
                assert(s[s.len() - 1].0 == d[j].0);
            }
        }
        let p = choose|p: int| 0 <= p < dt.len() && dt[p].0 == k;
        assert(d[p].0 == k);
        assert forall|i: int| 0 <= i < s.len() implies has_key(d, #[trigger] s[i].0) by {
            if i < t.len() {
                assert(t[i] == s[i]);
                let q = choose|q: int| 0 <= q < dt.len() && dt[q].0 == t[i].0;
                assert(d[q].0 == s[i].0);
            } else {
                assert(d[d.len() - 1].0 == s[i].0);
            }
        }
    }
}

/// Declaring keeps the keys in increasing order.
pub proof fn lemma_declare_increasing<W>(s: Seq<(nat, W)>, k: nat, w: W)
    requires
        increasing(s),
    ensures
        increasing(declare(s, k, w)),
    decreases s.len(),
{
    let d = declare(s, k, w);
    if s.len() == 0 {
    } else if s.last().0 < k {
        assert forall|i: int, j: int| 0 <= i < j < d.len() implies d[i].0 < d[j].0 by {
            if j < s.len() {
                assert(d[i] == s[i] && d[j] == s[j]);
            } else {
                assert(d[i] == s[i]);
                if i < s.len() - 1 {
                    assert(s[i].0 < s[s.len() - 1].0);
                }
            }
        }
    } else if s.last().0 == k {
        assert forall|i: int, j: int| 0 <= i < j < d.len() implies d[i].0 < d[j].0 by {
            assert(d[i] == s[i]);
            assert(d[j].0 == s[j].0);
        }
    } else {
        let t = s.drop_last();
        let dt = declare(t, k, w);
        assert(increasing(t)) by {
            assert forall|i: int, j: int| 0 <= i < j < t.len() implies t[i].0 < t[j].0 by {
                assert(t[i] == s[i] && t[j] == s[j]);
            }
        }
        lemma_declare_increasing(t, k, w);
        lemma_declare_keys(t, k, w);
        assert forall|i: int, j: int| 0 <= i < j < d.len() implies d[i].0 < d[j].0 by {
            if j < dt.len() {
                assert(d[i] == dt[i] && d[j] == dt[j]);
            } else {
                assert(d[i] == dt[i]);
                assert(d[j] == s.last());
                if dt[i].0 != k {
                    let q = choose|q: int| 0 <= q < t.len() && t[q].0 == dt[i].0;
                    assert(s[q].0 < s[s.len() - 1].0);
                }
            }
        }
    }
}

/// Among increasing keys, the declaration in force at `index` is the one with
/// the greatest key at or before `index`; none is in force exactly when every
/// key lies after `index`.
pub proof fn lemma_in_force_nearest<W>(s: Seq<(nat, W)>, index: nat)
    requires
        increasing(s),
    ensures
        match in_force(s, index) {
            Some(e) => s.contains(e) && is_nearest(s, index, e.0),
            None => forall|j: int| 0 <= j < s.len() ==> s[j].0 > index,
        },
    decreases s.len(),
{
    if s.len() == 0 {
    } else if s.last().0 <= index {
        let e = s.last();
        assert(s[s.len() - 1] == e);
        assert forall|j: int| 0 <= j < s.len() && s[j].0 <= index implies s[j].0 <= e.0 by {
            if j < s.len() - 1 {
                assert(s[j].0 < s[s.len() - 1].0);
            }
        }
    } else {
        let t = s.drop_last();
        assert(increasing(t)) by {
            assert forall|i: int, j: int| 0 <= i < j < t.len() implies t[i].0 < t[j].0 by {
                assert(t[i] == s[i] && t[j] == s[j]);
            }
        }
        lemma_in_force_nearest(t, index);
        match in_force(t, index) {
            Some(e) => {
                let p = choose|p: int| 0 <= p < t.len() && t[p] == e;
                assert(s[p] == e);
                let q = choose|q: int| 0 <= q < t.len() && t[q].0 == e.0;
                assert(s[q].0 == e.0);
                assert forall|j: int| 0 <= j < s.len() && s[j].0 <= index implies s[j].0
                    <= e.0 by {
                    if j < t.len() {
                        assert(t[j] == s[j]);
                    }
                }
            },
            None => {
                assert forall|j: int| 0 <= j < s.len() implies s[j].0 > index by {
                    if j < t.len() {
                        assert(t[j] == s[j]);
                    }
                }
            },
        }
    }
}

/// The declaration in force does not look at what is declared after `index`.
pub proof fn lemma_in_force_take<W>(s: Seq<(nat, W)>, index: nat, n: int)
    requires
        0 <= n <= s.len(),
        forall|j: int| n <= j < s.len() ==> s[j].0 > index,
    ensures
        in_force(s, index) == in_force(s.take(n), index),
    decreases s.len() - n,
{
    if n < s.len() {
        assert(s.drop_last().take(n) =~= s.take(n));
        lemma_in_force_take(s.drop_last(), index, n);
    } else {
        assert(s.take(n) =~= s);
    }
}

/// The declarations held in `v`, each with the model of its value.
pub open spec fn model<T: DeepView>(v: Seq<(usize, T)>) -> Seq<(nat, <T as DeepView>::V)> {
    Seq::new(v.len(), |i: int| (v[i].0 as nat, v[i].1.deep_view()))
}

/// Declares `value` at block `key` in a list kept in increasing order of block.
fn insert_sorted<T: DeepView>(entries: &mut Vec<(usize, T)>, key: usize, value: T)
    requires
        increasing(model(old(entries)@)),
    ensures
        model(final(entries)@) == declare(model(old(entries)@), key as nat, value.deep_view()),
        increasing(model(final(entries)@)),
    decreases old(entries).len(),
{
    let ghost before = model(entries@);
    let ghost w = value.deep_view();
    let n = entries.len();
    proof {
        lemma_declare_increasing(before, key as nat, w);
    }
    if n == 0 {
        entries.push((key, value));
        assert(model(entries@) =~= seq![(key as nat, w)]);
    } else if entries[n - 1].0 < key {
        entries.push((key, value));
        assert(model(entries@) =~= before.push((key as nat, w)));
    } else if entries[n - 1].0 == key {
        entries.set(n - 1, (key, value));
        assert(model(entries@) =~= before.drop_last().push((key as nat, w)));
    } else {
        let last = entries.pop().unwrap();
        assert(model(entries@) =~= before.drop_last());
        assert(increasing(model(entries@))) by {
            let m = model(entries@);
            assert forall|i: int, j: int| 0 <= i < j < m.len() implies m[i].0 < m[j].0 by {
                assert(m[i] == before[i] && m[j] == before[j]);
            }
        }
        insert_sorted(entries, key, value);
        let ghost mid = model(entries@);
        entries.push(last);
        assert(model(entries@) =~= mid.push(before.last()));
    }
}

/// A sparse, block-indexed setting. Its model is the list of declarations, each
/// a block index with the value declared there, in increasing order of block.
#[derive(Debug)]
pub struct Overlay<T: DeepView> {
    entries: Vec<(usize, T)>,
}

impl<T: DeepView> View for Overlay<T> {
    type V = Seq<(nat, <T as DeepView>::V)>;

    closed spec fn view(&self) -> Seq<(nat, <T as DeepView>::V)> {
        model(self.entries@)
    }
}

impl<T: DeepView> DeepView for Overlay<T> {
    type V = Seq<(nat, <T as DeepView>::V)>;

    open spec fn deep_view(&self) -> Seq<(nat, <T as DeepView>::V)> {
        self.view()
    }
}

impl<T: DeepView> Overlay<T> {
    #[verifier::type_invariant]
    spec fn ordered(self) -> bool {
        increasing(model(self.entries@))
    }

    /// An overlay without declarations.
    pub fn new() -> (r: Self)
        ensures
            r@ == Seq::<(nat, <T as DeepView>::V)>::empty(),
    {
        let r = Overlay { entries: Vec::new() };
        assert(r@ =~= Seq::<(nat, <T as DeepView>::V)>::empty());
        r
    }

    /// Number of declarations. Their blocks increase strictly.
    pub fn len(&self) -> (n: usize)
        ensures
            n == self@.len(),
            increasing(self@),
    {
        proof {
            use_type_invariant(self);
        }
        self.entries.len()
    }

    /// The block of the declaration at position `pos`.
    pub fn key_at(&self, pos: usize) -> (k: usize)
        requires
            pos < self@.len(),
        ensures
            k as nat == self@[pos as int].0,
    {
        self.entries[pos].0
    }

    /// The value of the declaration at position `pos`.
    pub fn value_at(&self, pos: usize) -> (v: &T)
        requires
            pos < self@.len(),
        ensures
            v.deep_view() == self@[pos as int].1,
    {
        &self.entries[pos].1
    }

    /// Declares `value` at block `key`, in place of what was declared there.
    pub fn set(&mut self, key: usize, value: T)
        ensures
            final(self)@ == declare(old(self)@, key as nat, value.deep_view()),
            increasing(final(self)@),
    {
        proof {
            use_type_invariant(&*self);
        }
        let mut taken: Overlay<T> = Overlay { entries: Vec::new() };
        std::mem::swap(self, &mut taken);
        let Overlay { entries } = taken;
        let mut entries = entries;
        insert_sorted(&mut entries, key, value);
        *self = Overlay { entries };
    }

    /// Position of the declaration in force at `index`, if there is one.
    pub fn position_in_force(&self, index: usize) -> (r: Option<usize>)
        ensures
            match r {
                Some(p) => p < self@.len() && in_force(self@, index as nat) == Some(self@[p as int])
                    && is_nearest(self@, index as nat, self@[p as int].0),
                None => in_force(self@, index as nat) is None && forall|j: int|
                    0 <= j < self@.len() ==> self@[j].0 > index,
            },
    {
        proof {
            use_type_invariant(self);
            lemma_in_force_nearest(self@, index as nat);
        }
        let mut p: usize = self.entries.len();
        while p > 0 && self.entries[p - 1].0 > index
            invariant
                p <= self.entries.len(),
                self.entries.len() == self@.len(),
                forall|j: int| p <= j < self@.len() ==> self@[j].0 > index,
            decreases p,
        {
            p -= 1;
        }
        proof {
            lemma_in_force_take(self@, index as nat, p as int);
            if p > 0 {
                assert(self@.take(p as int).last() == self@[p - 1]);
            }
        }
        if p > 0 {
            Some(p - 1)
        } else {
            None
        }
    }

    /// The declaration in force at `index`: the one made at the greatest block
    /// at or before `index`.
    pub fn nearest(&self, index: usize) -> (r: Option<(usize, &T)>)
        ensures
            match r {
                Some((k, v)) => in_force(self@, index as nat) == Some((k as nat, v.deep_view()))
                    && is_nearest(self@, index as nat, k as nat),
                None => in_force(self@, index as nat) is None && forall|j: int|
                    0 <= j < self@.len() ==> self@[j].0 > index,
            },
    {
        match self.position_in_force(index) {
            Some(p) => Some((self.entries[p].0, &self.entries[p].1)),
            None => None,
        }
    }

    /// What is declared at exactly block `key`.
    pub fn get(&self, key: usize) -> (r: Option<&T>)
        ensures
            match r {
                Some(v) => declared_at(self@, key as nat) == Some(v.deep_view()),
                None => declared_at(self@, key as nat) is None,
            },
    {
        match self.position_in_force(key) {
            Some(p) => {
                if self.entries[p].0 == key {
                    Some(&self.entries[p].1)
                } else {
                    None
                }
            },
            None => None,
        }
    }
}

} // verus!
