//! A map from names to values kept as a vector sorted by name, so that it
//! lists its entries in the order a `BTreeMap<String, _>` walks them.

use vstd::prelude::*;
use crate::text::{chars_of, lemma_lex_irreflexive, lemma_lex_transitive, lemma_lex_trichotomy, lex_less, lex_lt};

verus! {

/// Entries are strictly increasing by name.
pub open spec fn sorted_by_name<V>(e: Seq<(Seq<char>, V)>) -> bool {
    forall|i: int, j: int| 0 <= i < j < e.len() ==> lex_lt(#[trigger] e[i].0, #[trigger] e[j].0)
}

/// Some entry is named `k`.
pub open spec fn has_name<V>(e: Seq<(Seq<char>, V)>, k: Seq<char>) -> bool {
    exists|i: int| 0 <= i < e.len() && #[trigger] e[i].0 == k
}

/// An index of an entry named `k`, when there is one.
pub open spec fn name_index<V>(e: Seq<(Seq<char>, V)>, k: Seq<char>) -> int {
    choose|i: int| 0 <= i < e.len() && #[trigger] e[i].0 == k
}

/// The map the entries describe.
pub open spec fn entries_map<V>(e: Seq<(Seq<char>, V)>) -> Map<Seq<char>, V> {
    Map::new(|k: Seq<char>| has_name(e, k), |k: Seq<char>| e[name_index(e, k)].1)
}

pub proof fn lemma_sorted_unique<V>(e: Seq<(Seq<char>, V)>, i: int, j: int)
    requires
        sorted_by_name(e),
        0 <= i < e.len(),
        0 <= j < e.len(),
        e[i].0 == e[j].0,
    ensures
        i == j,
{
    if i < j {
        lemma_lex_irreflexive(e[i].0);
    } else if j < i {
        lemma_lex_irreflexive(e[i].0);
    }
}

pub proof fn lemma_entries_map_at<V>(e: Seq<(Seq<char>, V)>, i: int)
    requires
        sorted_by_name(e),
        0 <= i < e.len(),
    ensures
        entries_map(e).contains_key(e[i].0),
        entries_map(e)[e[i].0] == e[i].1,
{
    let k = e[i].0;
    assert(has_name(e, k));
    let c = name_index(e, k);
    assert(0 <= c < e.len() && e[c].0 == k);
    lemma_sorted_unique(e, c, i);
    assert(entries_map(e)[k] == e[c].1);
}

/// Dropping the first entry of a sorted listing drops its name from the map.
proof fn lemma_entries_map_drop_first<V>(e: Seq<(Seq<char>, V)>)
    requires
        sorted_by_name(e),
        e.len() > 0,
    ensures
        sorted_by_name(e.drop_first()),
        entries_map(e.drop_first()) == entries_map(e).remove(e[0].0),
{
    let t = e.drop_first();
    assert forall|i: int, j: int| 0 <= i < j < t.len() implies lex_lt(
        #[trigger] t[i].0,
        #[trigger] t[j].0,
    ) by {
        assert(t[i] == e[i + 1] && t[j] == e[j + 1]);
    }
    let m = entries_map(e).remove(e[0].0);
    assert forall|k: Seq<char>| #[trigger] entries_map(t).contains_key(k) implies m.contains_key(k)
        && entries_map(t)[k] == m[k] by {
        let i = name_index(t, k);
        assert(t[i] == e[i + 1]);
        lemma_entries_map_at(t, i);
        lemma_entries_map_at(e, i + 1);
        assert(lex_lt(e[0].0, e[i + 1].0));
        lemma_lex_irreflexive(k);
    }
    assert forall|k: Seq<char>| #[trigger] m.contains_key(k) implies entries_map(t).contains_key(k) by {
        let c = name_index(e, k);
        assert(0 <= c < e.len() && e[c].0 == k);
        assert(c != 0);
        assert(t[c - 1].0 == k);
    }
    assert(entries_map(t) =~= m);
}

/// A sorted listing is fixed by the map it describes: two sorted listings
/// of the same map are the same listing.
pub proof fn lemma_sorted_entries_determined<V>(a: Seq<(Seq<char>, V)>, b: Seq<(Seq<char>, V)>)
    requires
        sorted_by_name(a),
        sorted_by_name(b),
        entries_map(a) == entries_map(b),
    ensures
        a == b,
    decreases a.len(),
{
    if a.len() == 0 {
        if b.len() > 0 {
            lemma_entries_map_at(b, 0);
            assert(has_name(a, b[0].0));
        }
        assert(a =~= b);
    } else {
        lemma_entries_map_at(a, 0);
        if b.len() == 0 {
            assert(has_name(b, a[0].0));
        }
        lemma_entries_map_at(b, 0);
        let x = a[0].0;
        let y = b[0].0;
        if x != y {
            lemma_lex_trichotomy(x, y);
            let j = name_index(b, x);
            assert(0 <= j < b.len() && b[j].0 == x);
            let i = name_index(a, y);
            assert(0 <= i < a.len() && a[i].0 == y);
            assert(j != 0);
            assert(i != 0);
            assert(lex_lt(y, x));
            assert(lex_lt(x, y));
        }
        lemma_entries_map_drop_first(a);
        lemma_entries_map_drop_first(b);
        lemma_sorted_entries_determined(a.drop_first(), b.drop_first());
        assert forall|i: int| 0 <= i < a.len() implies a[i] == b[i] by {
            if i > 0 {
                assert(a[i] == a.drop_first()[i - 1]);
                assert(b[i] == b.drop_first()[i - 1]);
            }
        }
        assert(a =~= b);
    }
}

/// Names mapped to values of type `V`.
pub struct NameTable<V> {
    entries: Vec<(String, V)>,
}

impl<V: Copy> NameTable<V> {
    /// The entries as (name, value) pairs, in name order.
    pub closed spec fn entries(&self) -> Seq<(Seq<char>, V)> {
        self.entries@.map_values(|e: (String, V)| (e.0@, e.1))
    }

    pub open spec fn wf(&self) -> bool {
        sorted_by_name(self.entries())
    }

    pub open spec fn map(&self) -> Map<Seq<char>, V> {
        entries_map(self.entries())
    }

    pub fn new() -> (r: Self)
        ensures
            r.wf(),
            r.entries().len() == 0,
    {
        NameTable { entries: Vec::new() }
    }

    /// Where `name` is (`Ok`) or would be inserted (`Err`).
    fn position(&self, name: &[char]) -> (r: Result<usize, usize>)
        requires
            self.wf(),
        ensures
            match r {
                Ok(i) => i < self.entries().len() && self.entries()[i as int].0 == name@,
                Err(p) => p <= self.entries().len() && (forall|j: int|
                    0 <= j < p ==> lex_lt(#[trigger] self.entries()[j].0, name@)) && (forall|j: int|
                    p <= j < self.entries().len() ==> lex_lt(name@, #[trigger] self.entries()[j].0)),
            },
    {
        let ghost e = self.entries();
        let mut i: usize = 0;
        while i < self.entries.len()
            invariant
                i <= self.entries@.len(),
                e == self.entries(),
                e.len() == self.entries@.len(),
                sorted_by_name(e),
                forall|j: int| 0 <= j < i ==> lex_lt(#[trigger] e[j].0, name@),
            decreases self.entries@.len() - i,
        {
            let key = chars_of(self.entries[i].0.as_str());
            assert(key@ == e[i as int].0);
            if lex_less(key.as_slice(), name) {
                i = i + 1;
            } else {
                proof {
                    lemma_lex_trichotomy(key@, name@);
                }
                if lex_less(name, key.as_slice()) {
                    proof {
                        assert forall|j: int| i <= j < e.len() implies lex_lt(
                            name@,
                            #[trigger] e[j].0,
                        ) by {
                            if j > i {
                                lemma_lex_transitive(name@, e[i as int].0, e[j].0);
                            }
                        }
                    }
                    return Err(i);
                } else {
                    return Ok(i);
                }
            }
        }
        Err(i)
    }

    /// The value stored under `name`.
    pub fn get(&self, name: &str) -> (r: Option<V>)
        requires
            self.wf(),
        ensures
            match r {
                Some(v) => self.map().contains_key(name@) && self.map()[name@] == v,
                None => !self.map().contains_key(name@),
            },
    {
        let key = chars_of(name);
        match self.position(key.as_slice()) {
            Ok(i) => {
                proof {
                    lemma_entries_map_at(self.entries(), i as int);
                }
                Some(self.entries[i].1)
            },
            Err(p) => {
                proof {
                    if has_name(self.entries(), name@) {
                        let j = choose|j: int| 0 <= j < self.entries().len() && #[trigger] self.entries()[j].0 == name@;
                        lemma_lex_irreflexive(name@);
                    }
                }
                None
            },
        }
    }

    /// Store `v` under `name`.
    pub fn set(&mut self, name: &str, v: V)
        requires
            old(self).wf(),
        ensures
            final(self).wf(),
            final(self).map() == old(self).map().insert(name@, v),
    {
        let key = chars_of(name);
        let ghost e0 = self.entries();
        assert(old(self).map() == entries_map(e0));
        match self.position(key.as_slice()) {
            Ok(i) => {
                let owned_name = name.to_owned();
                self.entries.set(i, (owned_name, v));
                proof {
                    let e1 = self.entries();
                    assert(e1 =~= e0.update(i as int, (name@, v)));
                    assert(sorted_by_name(e1));
                    assert forall|k: Seq<char>| #[trigger] entries_map(e1).contains_key(k)
                        == old(self).map().insert(name@, v).contains_key(k) by {
                        if k != name@ {
                            if has_name(e0, k) {
                                let j = choose|j: int| 0 <= j < e0.len() && #[trigger] e0[j].0 == k;
                                assert(e1[j].0 == k);
                            }
                            if has_name(e1, k) {
                                let j = choose|j: int| 0 <= j < e1.len() && #[trigger] e1[j].0 == k;
                                assert(e0[j].0 == k);
                            }
                        } else {
                            assert(e1[i as int].0 == k);
                        }
                    }
                    assert forall|k: Seq<char>| #[trigger] entries_map(e1).contains_key(k) implies entries_map(e1)[k]
                        == old(self).map().insert(name@, v)[k] by {
                        let j = name_index(e1, k);
                        assert(0 <= j < e1.len() && e1[j].0 == k);
                        lemma_entries_map_at(e1, j);
                        if k != name@ {
                            assert(e0[j].0 == k);
                            lemma_entries_map_at(e0, j);
                        } else {
                            lemma_sorted_unique(e1, j, i as int);
                        }
                    }
                    assert(entries_map(e1) =~= old(self).map().insert(name@, v));
                }
            },
            Err(p) => {
                let owned_name = name.to_owned();
                self.entries.insert(p, (owned_name, v));
                proof {
                    let e1 = self.entries();
                    assert(e1 =~= e0.insert(p as int, (name@, v)));
                    assert forall|a: int, b: int| 0 <= a < b < e1.len() implies lex_lt(
                        #[trigger] e1[a].0,
                        #[trigger] e1[b].0,
                    ) by {
                        if a < p && b == p {
                        } else if a < p && b > p {
                            assert(e1[b] == e0[b - 1]);
                        } else if a == p {
                            assert(e1[b] == e0[b - 1]);
                        } else if a > p {
                            assert(e1[a] == e0[a - 1]);
                            assert(e1[b] == e0[b - 1]);
                        }
                    }
                    assert forall|k: Seq<char>| #[trigger] entries_map(e1).contains_key(k)
                        == old(self).map().insert(name@, v).contains_key(k) by {
                        if k != name@ {
                            if has_name(e0, k) {
                                let j = choose|j: int| 0 <= j < e0.len() && #[trigger] e0[j].0 == k;
                                if j < p {
                                    assert(e1[j].0 == k);
                                } else {
                                    assert(e1[j + 1].0 == k);
                                }
                            }
                            if has_name(e1, k) {
                                let j = choose|j: int| 0 <= j < e1.len() && #[trigger] e1[j].0 == k;
                                if j < p {
                                    assert(e0[j].0 == k);
                                } else {
                                    assert(e0[j - 1].0 == k);
                                }
                            }
                        } else {
                            assert(e1[p as int].0 == k);
                        }
                    }
                    assert forall|k: Seq<char>| #[trigger] entries_map(e1).contains_key(k) implies entries_map(e1)[k]
                        == old(self).map().insert(name@, v)[k] by {
                        let j = name_index(e1, k);
                        assert(0 <= j < e1.len() && e1[j].0 == k);
                        lemma_entries_map_at(e1, j);
                        if k == name@ {
                            lemma_sorted_unique(e1, j, p as int);
                        } else {
                            if j < p {
                                assert(e0[j].0 == k);
                                lemma_entries_map_at(e0, j);
                            } else {
                                assert(e0[j - 1].0 == k);
                                lemma_entries_map_at(e0, j - 1);
                            }
                        }
                    }
                    assert(entries_map(e1) =~= old(self).map().insert(name@, v));
                }
            },
        }
    }

    /// Number of entries.
    pub fn len(&self) -> (r: usize)
        ensures
            r == self.entries().len(),
    {
        self.entries.len()
    }

    /// The `i`-th entry in name order.
    pub fn entry(&self, i: usize) -> (r: (String, V))
        requires
            i < self.entries().len(),
        ensures
            r.0@ == self.entries()[i as int].0,
            r.1 == self.entries()[i as int].1,
    {
        (self.entries[i].0.clone(), self.entries[i].1)
    }
}

} // verus!
