//! A small table from names to values, kept in insertion order with each
//! name at most once.

use crate::text::same_text;
use vstd::prelude::*;

verus! {

/// Entries keyed by name; `wf` holds when no name appears twice.
#[derive(Clone, Debug)]
pub struct NameMap<V> {
    pub entries: Vec<(String, V)>,
}

/// The index of the first entry of `es` at or after `from` named `key`.
pub open spec fn find_from<W>(es: Seq<(Seq<char>, W)>, key: Seq<char>, from: int) -> Option<int>
    decreases es.len() - from,
{
    if from < 0 || from >= es.len() {
        None
    } else if es[from].0 == key {
        Some(from)
    } else {
        find_from(es, key, from + 1)
    }
}

/// The value stored under `key` in `es`, if any (the first, should there be
/// several).
pub open spec fn lookup<W>(es: Seq<(Seq<char>, W)>, key: Seq<char>) -> Option<W> {
    match find_from(es, key, 0) {
        Some(i) => Some(es[i].1),
        None => None,
    }
}

/// `es` with `value` stored under `key`: in place of the first entry of that
/// name, or appended when there is none.
pub open spec fn stored<W>(es: Seq<(Seq<char>, W)>, key: Seq<char>, value: W) -> Seq<
    (Seq<char>, W),
> {
    match find_from(es, key, 0) {
        Some(i) => es.update(i, (key, value)),
        None => es.push((key, value)),
    }
}

/// Whether no name appears twice in `es`.
pub open spec fn names_unique<W>(es: Seq<(Seq<char>, W)>) -> bool {
    forall|i: int, j: int| 0 <= i < j < es.len() ==> es[i].0 != es[j].0
}

impl<V: View> View for NameMap<V> {
    type V = Seq<(Seq<char>, V::V)>;

    open spec fn view(&self) -> Seq<(Seq<char>, V::V)> {
        self.entries@.map_values(|e: (String, V)| (e.0@, e.1@))
    }
}

proof fn lemma_find_from<W>(es: Seq<(Seq<char>, W)>, key: Seq<char>, from: int)
    requires
        0 <= from,
    ensures
        find_from(es, key, from) is None ==> forall|j: int| from <= j < es.len() ==> es[j].0 != key,
        find_from(es, key, from) is Some ==> {
            let i = find_from(es, key, from)->0;
            &&& from <= i < es.len()
            &&& es[i].0 == key
            &&& forall|j: int| from <= j < i ==> es[j].0 != key
        },
    decreases es.len() - from,
{
    if from < es.len() && es[from].0 != key {
        lemma_find_from(es, key, from + 1);
    }
}

/// The first entry named `key` at or after `from` is at `i`.
proof fn lemma_find_at<W>(es: Seq<(Seq<char>, W)>, key: Seq<char>, from: int, i: int)
    requires
        0 <= from <= i < es.len(),
        es[i].0 == key,
        forall|j: int| from <= j < i ==> es[j].0 != key,
    ensures
        find_from(es, key, from) == Some(i),
    decreases i - from,
{
    if from < i {
        lemma_find_at(es, key, from + 1, i);
    }
}

/// Two tables with the same entries named `k` at the same indices find `k`
/// at the same index.
proof fn lemma_find_same<W>(a: Seq<(Seq<char>, W)>, b: Seq<(Seq<char>, W)>, k: Seq<char>, from: int)
    requires
        0 <= from,
        forall|j: int| from <= j < a.len() && a[j].0 == k ==> j < b.len() && b[j] == a[j],
        forall|j: int| from <= j < b.len() && b[j].0 == k ==> j < a.len() && a[j] == b[j],
    ensures
        find_from(a, k, from) == find_from(b, k, from),
    decreases a.len() + b.len() - from,
{
    if from < a.len() && a[from].0 != k && from < b.len() && b[from].0 != k {
        lemma_find_same(a, b, k, from + 1);
    } else if from < a.len() && a[from].0 != k && from >= b.len() {
        lemma_find_from(a, k, from + 1);
        lemma_find_from(a, k, from);
    } else if from < b.len() && b[from].0 != k && from >= a.len() {
        lemma_find_from(b, k, from + 1);
        lemma_find_from(b, k, from);
    }
}

/// What storing a value does to lookups, to the length and to uniqueness.
pub proof fn lemma_stored<W>(es: Seq<(Seq<char>, W)>, key: Seq<char>, value: W)
    ensures
        lookup(stored(es, key, value), key) == Some(value),
        lookup(es, key) is None ==> stored(es, key, value).len() == es.len() + 1,
        lookup(es, key) is Some ==> stored(es, key, value).len() == es.len(),
        names_unique(es) ==> names_unique(stored(es, key, value)),
        forall|k: Seq<char>| k != key ==> lookup(stored(es, key, value), k) == lookup(es, k),
{
    let t = stored(es, key, value);
    lemma_find_from(es, key, 0);
    match find_from(es, key, 0) {
        Some(i) => {
            lemma_find_at(t, key, 0, i);
        },
        None => {
            lemma_find_at(t, key, 0, es.len() as int);
        },
    }
    assert forall|k: Seq<char>| k != key implies lookup(t, k) == lookup(es, k) by {
        lemma_find_same(es, t, k, 0);
        lemma_find_from(es, k, 0);
    }
}

/// Storing the same value under the same name a second time changes nothing.
pub proof fn lemma_stored_twice<W>(es: Seq<(Seq<char>, W)>, key: Seq<char>, value: W)
    ensures
        stored(stored(es, key, value), key, value) == stored(es, key, value),
{
    let t = stored(es, key, value);
    lemma_stored(es, key, value);
    lemma_find_from(t, key, 0);
    let i = find_from(t, key, 0)->0;
    assert(t[i] == (key, value));
    assert(t.update(i, (key, value)) =~= t);
}

impl<V: View> NameMap<V> {
    pub open spec fn wf(&self) -> bool {
        names_unique(self@)
    }

    /// An empty table.
    pub fn new() -> (r: Self)
        ensures
            r@ == Seq::<(Seq<char>, V::V)>::empty(),
            r.wf(),
    {
        let r = NameMap { entries: Vec::new() };
        assert(r@ =~= Seq::<(Seq<char>, V::V)>::empty());
        r
    }

    /// The number of names in the table.
    pub fn len(&self) -> (r: usize)
        ensures
            r == self@.len(),
    {
        self.entries.len()
    }

    /// The index of the first entry named `key`, if any.
    fn position(&self, key: &str) -> (r: Option<usize>)
        ensures
            r is None <==> find_from(self@, key@, 0) is None,
            r is Some ==> find_from(self@, key@, 0) == Some(r->0 as int),
            r is Some ==> r->0 < self.entries@.len(),
    {
        let mut k: usize = 0;
        while k < self.entries.len()
            invariant
                k <= self@.len(),
                self@.len() == self.entries@.len(),
                forall|j: int| 0 <= j < k ==> self@[j].0 != key@,
            decreases self.entries.len() - k,
        {
            if same_text(self.entries[k].0.as_str(), key) {
                proof {
                    lemma_find_at(self@, key@, 0, k as int);
                }
                return Some(k);
            }
            k = k + 1;
        }
        proof {
            lemma_find_from(self@, key@, 0);
        }
        None
    }

    /// The value stored under `key`, if any.
    pub fn get(&self, key: &str) -> (r: Option<&V>)
        ensures
            r is None <==> lookup(self@, key@) is None,
            r is Some ==> lookup(self@, key@) == Some(r->0@),
    {
        match self.position(key) {
            Some(i) => Some(&self.entries[i].1),
            None => None,
        }
    }

    /// Stores `value` under `key`, replacing what was stored there.
    pub fn insert(&mut self, key: String, value: V)
        ensures
            final(self)@ == stored(old(self)@, key@, value@),
            old(self).wf() ==> final(self).wf(),
            lookup(final(self)@, key@) == Some(value@),
            lookup(old(self)@, key@) is None ==> final(self)@.len() == old(self)@.len() + 1,
            lookup(old(self)@, key@) is Some ==> final(self)@.len() == old(self)@.len(),
            forall|k: Seq<char>| k != key@ ==> lookup(final(self)@, k) == lookup(old(self)@, k),
    {
        let ghost kv = key@;
        let ghost vv = value@;
        let ghost before = self@;
        proof {
            lemma_stored(before, kv, vv);
        }
        match self.position(key.as_str()) {
            Some(i) => {
                self.entries[i] = (key, value);
                assert(self@ =~= before.update(i as int, (kv, vv)));
            },
            None => {
                self.entries.push((key, value));
                assert(self@ =~= before.push((kv, vv)));
            },
        }
    }
}

} // verus!
