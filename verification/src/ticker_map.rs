//! A map from ticker symbols to values, for the tables and the findings
//! that are kept per queried entity.

use vstd::prelude::*;
use crate::domain::ticker::TickerSymbol;
use crate::text::str_eq;

verus! {

/// A map keyed by ticker symbol. It holds one value per symbol.
#[derive(Debug)]
pub struct TickerMap<V> {
    entries: Vec<(TickerSymbol, V)>,
}

/// No symbol occurs twice among `entries`.
pub open spec fn distinct_keys<V>(entries: Seq<(TickerSymbol, V)>) -> bool {
    forall|i: int, j: int|
        0 <= i < j < entries.len() ==> (#[trigger] entries[i]).0@ != (#[trigger] entries[j]).0@
}

/// Whether `entries` holds `k` at index `i`.
pub open spec fn key_at<V>(entries: Seq<(TickerSymbol, V)>, i: int, k: Seq<char>) -> bool {
    0 <= i < entries.len() && entries[i].0@ == k
}

/// The map that `entries` stands for.
pub open spec fn map_of<V: DeepView>(entries: Seq<(TickerSymbol, V)>) -> Map<Seq<char>, V::V> {
    Map::new(
        |k: Seq<char>| exists|i: int| key_at(entries, i, k),
        |k: Seq<char>| entries[choose|i: int| key_at(entries, i, k)].1.deep_view(),
    )
}

/// Each entry is found in the map under its symbol.
pub proof fn lemma_map_of_entry<V: DeepView>(entries: Seq<(TickerSymbol, V)>, i: int)
    requires
        distinct_keys(entries),
        0 <= i < entries.len(),
    ensures
        map_of(entries).dom().contains(entries[i].0@),
        map_of(entries)[entries[i].0@] == entries[i].1.deep_view(),
{
    let k = entries[i].0@;
    assert(key_at(entries, i, k));
    let j = choose|j: int| key_at(entries, j, k);
    assert(j == i);
}

impl<V: DeepView> View for TickerMap<V> {
    type V = Map<Seq<char>, V::V>;

    closed spec fn view(&self) -> Map<Seq<char>, V::V> {
        map_of(self.entries@)
    }
}

impl<V: DeepView> DeepView for TickerMap<V> {
    type V = Map<Seq<char>, V::V>;

    open spec fn deep_view(&self) -> Map<Seq<char>, V::V> {
        self.view()
    }
}

impl<V> TickerMap<V> {
    #[verifier::type_invariant]
    spec fn inv(&self) -> bool {
        distinct_keys(self.entries@)
    }

    /// The symbols, in the order in which they were first put in.
    pub closed spec fn spec_keys(&self) -> Seq<Seq<char>> {
        Seq::new(self.entries@.len(), |i: int| self.entries@[i].0@)
    }
}

impl<V> TickerMap<V> {
    /// The values as they are kept, each at the index of its symbol in
    /// `spec_keys`.
    pub closed spec fn spec_items(&self) -> Seq<V> {
        Seq::new(self.entries@.len(), |i: int| self.entries@[i].1)
    }
}

impl<V: Clone + DeepView> Clone for TickerMap<V> {
    /// Copies the map: the same symbols in the same order, and under each
    /// a clone of its value.
    fn clone(&self) -> (res: Self)
        ensures
            res.spec_keys() == self.spec_keys(),
            res@.dom() == self@.dom(),
            res.spec_items().len() == self.spec_items().len(),
            forall|i: int|
                0 <= i < self.spec_items().len() ==> vstd::pervasive::cloned::<V>(
                    #[trigger] self.spec_items()[i],
                    res.spec_items()[i],
                ),
    {
        proof {
            use_type_invariant(self);
        }
        let mut entries: Vec<(TickerSymbol, V)> = Vec::new();
        let mut i: usize = 0;
        while i < self.entries.len()
            invariant
                i <= self.entries@.len(),
                entries@.len() == i,
                forall|k: int| 0 <= k < i ==> (#[trigger] entries@[k]).0@ == self.entries@[k].0@,
                forall|k: int|
                    0 <= k < i ==> vstd::pervasive::cloned::<V>(
                        self.entries@[k].1,
                        (#[trigger] entries@[k]).1,
                    ),
            decreases self.entries@.len() - i,
        {
            let key = self.entries[i].0.duplicate();
            let value = self.entries[i].1.clone();
            entries.push((key, value));
            i += 1;
        }
        proof {
            assert forall|a: int, b: int| 0 <= a < b < entries@.len() implies (
            #[trigger] entries@[a]).0@ != (#[trigger] entries@[b]).0@ by {
                assert(self.entries@[a].0@ != self.entries@[b].0@);
            }
        }
        let res = TickerMap { entries };
        proof {
            assert(res.spec_keys() =~= self.spec_keys());
            self.lemma_indexed();
            res.lemma_indexed();
            assert forall|k: Seq<char>| res@.dom().contains(k) <==> self@.dom().contains(k) by {
                if res@.dom().contains(k) {
                    assert(res.spec_keys().contains(k));
                    let x = choose|x: int| 0 <= x < res.spec_keys().len() && res.spec_keys()[x] == k;
                    assert(self@.dom().contains(self.spec_keys()[x]));
                }
                if self@.dom().contains(k) {
                    assert(self.spec_keys().contains(k));
                    let x = choose|x: int|
                        0 <= x < self.spec_keys().len() && self.spec_keys()[x] == k;
                    assert(res@.dom().contains(res.spec_keys()[x]));
                }
            }
            assert(res@.dom() =~= self@.dom());
            assert forall|x: int| 0 <= x < self.spec_items().len() implies vstd::pervasive::cloned::<
                V,
            >(#[trigger] self.spec_items()[x], res.spec_items()[x]) by {
                assert(vstd::pervasive::cloned::<V>(self.entries@[x].1, res.entries@[x].1));
            }
        }
        res
    }
}

impl<V: DeepView> TickerMap<V> {
    /// The values, each at the index of its symbol in `spec_keys`.
    pub closed spec fn spec_values(&self) -> Seq<V::V> {
        Seq::new(self.entries@.len(), |i: int| self.entries@[i].1.deep_view())
    }

    /// The symbols are distinct, and the map holds exactly the pairs of a
    /// symbol and the value at its index.
    pub open spec fn indexed(&self) -> bool {
        &&& self.spec_keys().len() == self.spec_values().len()
        &&& forall|i: int, j: int|
            0 <= i < j < self.spec_keys().len() ==> #[trigger] self.spec_keys()[i]
                != #[trigger] self.spec_keys()[j]
        &&& forall|i: int|
            0 <= i < self.spec_keys().len() ==> self@.dom().contains(#[trigger] self.spec_keys()[i])
                && self@[self.spec_keys()[i]] == self.spec_values()[i]
        &&& forall|k: Seq<char>| self@.dom().contains(k) ==> self.spec_keys().contains(k)
    }

    proof fn lemma_indexed(&self)
        requires
            distinct_keys(self.entries@),
        ensures
            self.indexed(),
    {
        let entries = self.entries@;
        assert forall|i: int| 0 <= i < self.spec_keys().len() implies self@.dom().contains(
            #[trigger] self.spec_keys()[i],
        ) && self@[self.spec_keys()[i]] == self.spec_values()[i] by {
            lemma_map_of_entry(entries, i);
        }
        assert forall|k: Seq<char>| self@.dom().contains(k) implies self.spec_keys().contains(k) by {
            let i = choose|i: int| key_at(entries, i, k);
            assert(self.spec_keys()[i] == k);
        }
    }

    /// An empty map.
    pub fn new() -> (m: Self)
        ensures
            m@ == Map::<Seq<char>, V::V>::empty(),
            m.spec_keys().len() == 0,
            m.indexed(),
    {
        let m = TickerMap { entries: Vec::new() };
        proof {
            assert(m@ =~= Map::<Seq<char>, V::V>::empty());
            m.lemma_indexed();
        }
        m
    }

    /// The number of symbols.
    pub fn len(&self) -> (n: usize)
        ensures
            n == self.spec_keys().len(),
            n == self@.dom().len(),
            self@.dom().finite(),
            self.indexed(),
    {
        proof {
            use_type_invariant(self);
            self.lemma_indexed();
            self.lemma_domain_size();
        }
        self.entries.len()
    }

    proof fn lemma_domain_size(&self)
        requires
            distinct_keys(self.entries@),
        ensures
            self@.dom().finite(),
            self@.dom().len() == self.entries@.len(),
    {
        Self::lemma_domain_size_of(self.entries@);
    }

    proof fn lemma_domain_size_of(entries: Seq<(TickerSymbol, V)>)
        requires
            distinct_keys(entries),
        ensures
            map_of(entries).dom().finite(),
            map_of(entries).dom().len() == entries.len(),
        decreases entries.len(),
    {
        if entries.len() == 0 {
            assert(map_of(entries).dom() =~= Set::<Seq<char>>::empty());
        } else {
            let front = entries.drop_last();
            let k = entries.last().0@;
            assert forall|i: int, j: int| 0 <= i < j < front.len() implies (#[trigger] front[i]).0@
                != (#[trigger] front[j]).0@ by {
                assert(entries[i].0@ != entries[j].0@);
            }
            Self::lemma_domain_size_of(front);
            assert(map_of(entries).dom() =~= map_of(front).dom().insert(k)) by {
                assert forall|x: Seq<char>| map_of(entries).dom().contains(x) <==> map_of(
                    front,
                ).dom().insert(k).contains(x) by {
                    if map_of(entries).dom().contains(x) {
                        let i = choose|i: int| key_at(entries, i, x);
                        if i < front.len() {
                            assert(key_at(front, i, x));
                        }
                    }
                    if map_of(front).dom().contains(x) {
                        let i = choose|i: int| key_at(front, i, x);
                        assert(key_at(entries, i, x));
                    }
                    if x == k {
                        assert(key_at(entries, entries.len() - 1, x));
                    }
                }
            }
            if map_of(front).dom().contains(k) {
                let i = choose|i: int| key_at(front, i, k);
                assert(entries[i].0@ != entries[entries.len() - 1].0@);
            }
        }
    }

    /// Whether the map holds nothing.
    pub fn is_empty(&self) -> (r: bool)
        ensures
            r == (self@.dom().len() == 0),
            r == (self.spec_keys().len() == 0),
    {
        self.len() == 0
    }

    /// The symbol at index `i`.
    pub fn key(&self, i: usize) -> (k: &TickerSymbol)
        requires
            i < self.spec_keys().len(),
        ensures
            k@ == self.spec_keys()[i as int],
    {
        &self.entries[i].0
    }

    /// The value at index `i`.
    pub fn value(&self, i: usize) -> (v: &V)
        requires
            i < self.spec_keys().len(),
        ensures
            v.deep_view() == self.spec_values()[i as int],
    {
        &self.entries[i].1
    }

    fn position(&self, key: &TickerSymbol) -> (r: Option<usize>)
        ensures
            match r {
                Some(i) => key_at(self.entries@, i as int, key@),
                None => forall|i: int| !key_at(self.entries@, i, key@),
            },
    {
        let mut i: usize = 0;
        while i < self.entries.len()
            invariant
                i <= self.entries@.len(),
                forall|k: int| 0 <= k < i ==> !key_at(self.entries@, k, key@),
            decreases self.entries@.len() - i,
        {
            if str_eq(self.entries[i].0.as_str(), key.as_str()) {
                return Some(i);
            }
            i += 1;
        }
        None
    }

    /// The value kept for `key`, if there is one.
    pub fn get(&self, key: &TickerSymbol) -> (r: Option<&V>)
        ensures
            r is Some <==> self@.dom().contains(key@),
            r matches Some(v) ==> v.deep_view() == self@[key@],
    {
        proof {
            use_type_invariant(self);
        }
        match self.position(key) {
            Some(i) => {
                proof {
                    lemma_map_of_entry(self.entries@, i as int);
                }
                Some(&self.entries[i].1)
            },
            None => None,
        }
    }

    /// Whether a value is kept for `key`.
    pub fn contains_key(&self, key: &TickerSymbol) -> (r: bool)
        ensures
            r == self@.dom().contains(key@),
    {
        self.position(key).is_some()
    }

    /// Keeps `value` for `key` and hands back what was kept for it before.
    pub fn insert(&mut self, key: TickerSymbol, value: V) -> (previous: Option<V>)
        ensures
            final(self)@ == old(self)@.insert(key@, value.deep_view()),
            previous is Some <==> old(self)@.dom().contains(key@),
            previous matches Some(p) ==> p.deep_view() == old(self)@[key@],
            old(self)@.dom().contains(key@) ==> final(self).spec_keys() == old(self).spec_keys(),
            !old(self)@.dom().contains(key@) ==> final(self).spec_keys() == old(self).spec_keys().push(
                key@,
            ),
    {
        proof {
            use_type_invariant(&*self);
        }
        let ghost before = self.entries@;
        let ghost kv = key@;
        let ghost vv = value.deep_view();
        match self.position(&key) {
            Some(i) => {
                proof {
                    lemma_map_of_entry(before, i as int);
                    assert forall|a: int, b: int|
                        0 <= a < b < before.update(i as int, (key, value)).len() implies (
                    #[trigger] before.update(i as int, (key, value))[a]).0@ != (
                    #[trigger] before.update(i as int, (key, value))[b]).0@ by {
                        assert(before[a].0@ != before[b].0@);
                    }
                }
                let mut slot = (key, value);
                let mut entries = Vec::new();
                std::mem::swap(&mut entries, &mut self.entries);
                std::mem::swap(&mut slot, &mut entries[i]);
                self.entries = entries;
                proof {
                    let after = self.entries@;
                    assert(after =~= before.update(i as int, after[i as int]));
                    assert(self.spec_keys() =~= old(self).spec_keys());
                    lemma_update(before, after, i as int);
                }
                Some(slot.1)
            },
            None => {
                proof {
                    assert forall|a: int, b: int|
                        0 <= a < b < before.push((key, value)).len() implies (
                    #[trigger] before.push((key, value))[a]).0@ != (#[trigger] before.push(
                        (key, value),
                    )[b]).0@ by {
                        if b == before.len() {
                            assert(!key_at(before, a, kv));
                        } else {
                            assert(before[a].0@ != before[b].0@);
                        }
                    }
                }
                let mut entries = Vec::new();
                std::mem::swap(&mut entries, &mut self.entries);
                entries.push((key, value));
                self.entries = entries;
                proof {
                    let after = self.entries@;
                    assert(self.spec_keys() =~= old(self).spec_keys().push(kv));
                    lemma_push(before, after);
                    assert(!old(self)@.dom().contains(kv)) by {
                        if old(self)@.dom().contains(kv) {
                            let i = choose|i: int| key_at(before, i, kv);
                            assert(!key_at(before, i, kv));
                        }
                    }
                }
                None
            },
        }
    }
}

/// Replacing the value of one entry replaces it in the map.
proof fn lemma_update<V: DeepView>(
    before: Seq<(TickerSymbol, V)>,
    after: Seq<(TickerSymbol, V)>,
    i: int,
)
    requires
        distinct_keys(before),
        0 <= i < before.len(),
        after.len() == before.len(),
        after[i].0@ == before[i].0@,
        forall|k: int| 0 <= k < before.len() && k != i ==> after[k] == before[k],
    ensures
        distinct_keys(after),
        map_of(after) == map_of(before).insert(before[i].0@, after[i].1.deep_view()),
{
    assert forall|a: int, b: int| 0 <= a < b < after.len() implies (#[trigger] after[a]).0@ != (
    #[trigger] after[b]).0@ by {
        assert(before[a].0@ != before[b].0@);
    }
    let target = map_of(before).insert(before[i].0@, after[i].1.deep_view());
    assert forall|k: Seq<char>| map_of(after).dom().contains(k) <==> target.dom().contains(k) by {
        if map_of(after).dom().contains(k) {
            let j = choose|j: int| key_at(after, j, k);
            assert(key_at(before, j, k));
        }
        if map_of(before).dom().contains(k) {
            let j = choose|j: int| key_at(before, j, k);
            assert(key_at(after, j, k));
        }
        if k == before[i].0@ {
            assert(key_at(after, i, k));
        }
    }
    assert forall|k: Seq<char>| map_of(after).dom().contains(k) implies map_of(after)[k]
        == target[k] by {
        let j = choose|j: int| key_at(after, j, k);
        lemma_map_of_entry(after, j);
        if j != i {
            lemma_map_of_entry(before, j);
            assert(before[j].0@ != before[i].0@);
        }
    }
    assert(map_of(after) =~= target);
}

/// Adding an entry under a new symbol adds it to the map.
proof fn lemma_push<V: DeepView>(before: Seq<(TickerSymbol, V)>, after: Seq<(TickerSymbol, V)>)
    requires
        distinct_keys(after),
        after.len() == before.len() + 1,
        forall|k: int| 0 <= k < before.len() ==> after[k] == before[k],
    ensures
        distinct_keys(before),
        map_of(after) == map_of(before).insert(after.last().0@, after.last().1.deep_view()),
{
    assert forall|a: int, b: int| 0 <= a < b < before.len() implies (#[trigger] before[a]).0@ != (
    #[trigger] before[b]).0@ by {
        assert(after[a].0@ != after[b].0@);
    }
    let n = before.len() as int;
    let target = map_of(before).insert(after[n].0@, after[n].1.deep_view());
    assert forall|k: Seq<char>| map_of(after).dom().contains(k) <==> target.dom().contains(k) by {
        if map_of(after).dom().contains(k) {
            let j = choose|j: int| key_at(after, j, k);
            if j < n {
                assert(key_at(before, j, k));
            }
        }
        if map_of(before).dom().contains(k) {
            let j = choose|j: int| key_at(before, j, k);
            assert(key_at(after, j, k));
        }
        if k == after[n].0@ {
            assert(key_at(after, n, k));
        }
    }
    assert forall|k: Seq<char>| map_of(after).dom().contains(k) implies map_of(after)[k]
        == target[k] by {
        let j = choose|j: int| key_at(after, j, k);
        lemma_map_of_entry(after, j);
        if j < n {
            lemma_map_of_entry(before, j);
            assert(after[j].0@ != after[n].0@);
        }
    }
    assert(map_of(after) =~= target);
}

} // verus!
