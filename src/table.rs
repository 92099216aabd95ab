//! A table of values keyed by item identifier, with at most one entry per
//! identifier.
use vstd::prelude::*;
use crate::item::ItemId;

verus! {

/// Whether entry `i` of `v` is the one of `id`.
pub open spec fn keyed<T>(v: Seq<(ItemId, T)>, id: ItemId, i: int) -> bool {
    0 <= i < v.len() && v[i].0 == id
}

/// The value held for `id`, if any.
pub open spec fn lookup<T>(v: Seq<(ItemId, T)>, id: ItemId) -> Option<T> {
    if exists|i: int| #[trigger] keyed(v, id, i) {
        Some(v[choose|i: int| #[trigger] keyed(v, id, i)].1)
    } else {
        None
    }
}

/// No two entries share an identifier.
pub open spec fn distinct_keys<T>(v: Seq<(ItemId, T)>) -> bool {
    forall|i: int, j: int| 0 <= i < v.len() && 0 <= j < v.len() && v[i].0 == v[j].0 ==> i == j
}

/// In a table with distinct keys, the value at the entry of `id` is the
/// value looked up for `id`.
pub proof fn lemma_lookup_entry<T>(v: Seq<(ItemId, T)>, id: ItemId, i: int)
    requires
        distinct_keys(v),
        keyed(v, id, i),
    ensures
        lookup(v, id) == Some(v[i].1),
{
    let j = choose|j: int| #[trigger] keyed(v, id, j);
    assert(i == j);
}

/// The value of the last entry of `v` for `id`, if any.
pub open spec fn last_for<T>(v: Seq<(ItemId, T)>, id: ItemId) -> Option<T>
    decreases v.len(),
{
    if v.len() == 0 {
        None
    } else if v.last().0 == id {
        Some(v.last().1)
    } else {
        last_for(v.drop_last(), id)
    }
}

pub struct Table<T> {
    entries: Vec<(ItemId, T)>,
}

impl<T> View for Table<T> {
    type V = Seq<(ItemId, T)>;

    closed spec fn view(&self) -> Seq<(ItemId, T)> {
        self.entries@
    }
}

impl<T> Table<T> {
    pub open spec fn wf(&self) -> bool {
        distinct_keys(self@)
    }

    pub fn new() -> (r: Table<T>)
        ensures
            r.wf(),
            forall|id: ItemId| lookup(r@, id) is None,
    {
        Table { entries: Vec::new() }
    }

    fn position(&self, id: ItemId) -> (r: Option<usize>)
        requires
            self.wf(),
        ensures
            r is None <==> lookup(self@, id) is None,
            r matches Some(i) ==> keyed(self@, id, i as int),
    {
        let mut i: usize = 0;
        while i < self.entries.len()
            invariant
                0 <= i <= self.entries@.len(),
                forall|j: int| 0 <= j < i ==> !(#[trigger] keyed(self@, id, j)),
            decreases self.entries@.len() - i,
        {
            if self.entries[i].0 == id {
                assert(keyed(self@, id, i as int));
                return Some(i);
            }
            i = i + 1;
        }
        None
    }

    /// The value held for `id`, if any.
    pub fn get(&self, id: ItemId) -> (r: Option<&T>)
        requires
            self.wf(),
        ensures
            r is None <==> lookup(self@, id) is None,
            r matches Some(x) ==> lookup(self@, id) == Some(*x),
    {
        match self.position(id) {
            Some(i) => {
                proof {
                    lemma_lookup_entry(self@, id, i as int);
                }
                Some(&self.entries[i].1)
            },
            None => None,
        }
    }

    /// Holds `value` for `id`, in place of any earlier value.
    pub fn insert(&mut self, id: ItemId, value: T)
        requires
            old(self).wf(),
        ensures
            final(self).wf(),
            lookup(final(self)@, id) == Some(value),
            forall|k: ItemId| k != id ==> lookup(final(self)@, k) == lookup(old(self)@, k),
    {
        let ghost v = self@;
        match self.position(id) {
            Some(i) => {
                self.entries.set(i, (id, value));
                proof {
                    let w = self@;
                    assert forall|p: int, q: int| 0 <= p < w.len() && 0 <= q < w.len() && w[p].0 == w[q].0 implies p == q by {
                        assert(v[p].0 == w[p].0 && v[q].0 == w[q].0);
                    }
                    lemma_lookup_entry(w, id, i as int);
                    assert forall|k: ItemId| k != id implies lookup(w, k) == lookup(v, k) by {
                        if exists|j: int| #[trigger] keyed(v, k, j) {
                            let j = choose|j: int| #[trigger] keyed(v, k, j);
                            lemma_lookup_entry(v, k, j);
                            assert(keyed(w, k, j));
                            lemma_lookup_entry(w, k, j);
                        } else {
                            assert forall|j: int| !(#[trigger] keyed(w, k, j)) by {
                                if keyed(w, k, j) {
                                    assert(keyed(v, k, j));
                                }
                            }
                        }
                    }
                }
            },
            None => {
                self.entries.push((id, value));
                proof {
                    let w = self@;
                    assert forall|p: int, q: int| 0 <= p < w.len() && 0 <= q < w.len() && w[p].0 == w[q].0 implies p == q by {
                        if p < v.len() && q < v.len() {
                            assert(v[p].0 == w[p].0 && v[q].0 == w[q].0);
                        } else if p < v.len() {
                            assert(keyed(v, id, p));
                        } else if q < v.len() {
                            assert(keyed(v, id, q));
                        }
                    }
                    lemma_lookup_entry(w, id, v.len() as int);
                    assert forall|k: ItemId| k != id implies lookup(w, k) == lookup(v, k) by {
                        if exists|j: int| #[trigger] keyed(v, k, j) {
                            let j = choose|j: int| #[trigger] keyed(v, k, j);
                            lemma_lookup_entry(v, k, j);
                            assert(keyed(w, k, j));
                            lemma_lookup_entry(w, k, j);
                        } else {
                            assert forall|j: int| !(#[trigger] keyed(w, k, j)) by {
                                if keyed(w, k, j) && j < v.len() {
                                    assert(keyed(v, k, j));
                                }
                            }
                        }
                    }
                }
            },
        }
    }

    /// Drops the value held for `id`; returns whether there was one.
    pub fn remove(&mut self, id: ItemId) -> (r: bool)
        requires
            old(self).wf(),
        ensures
            final(self).wf(),
            r == (lookup(old(self)@, id) is Some),
            lookup(final(self)@, id) is None,
            forall|k: ItemId| k != id ==> lookup(final(self)@, k) == lookup(old(self)@, k),
    {
        let ghost v = self@;
        match self.position(id) {
            None => false,
            Some(i) => {
                self.entries.remove(i);
                proof {
                    let w = self@;
                    assert(w == v.remove(i as int));
                    assert forall|p: int| 0 <= p < w.len() implies #[trigger] w[p] == if p < i { v[p] } else { v[p + 1] } by {}
                    assert forall|p: int, q: int| 0 <= p < w.len() && 0 <= q < w.len() && w[p].0 == w[q].0 implies p == q by {
                        let pp = if p < i { p } else { p + 1 };
                        let qq = if q < i { q } else { q + 1 };
                        assert(v[pp].0 == w[p].0 && v[qq].0 == w[q].0);
                    }
                    assert forall|j: int| !(#[trigger] keyed(w, id, j)) by {
                        if keyed(w, id, j) {
                            let jj = if j < i { j } else { j + 1 };
                            assert(keyed(v, id, jj));
                        }
                    }
                    assert forall|k: ItemId| k != id implies lookup(w, k) == lookup(v, k) by {
                        if exists|j: int| #[trigger] keyed(v, k, j) {
                            let j = choose|j: int| #[trigger] keyed(v, k, j);
                            lemma_lookup_entry(v, k, j);
                            let jj = if j < i { j } else { j - 1 };
                            assert(keyed(w, k, jj));
                            lemma_lookup_entry(w, k, jj);
                        } else {
                            assert forall|j: int| !(#[trigger] keyed(w, k, j)) by {
                                if keyed(w, k, j) {
                                    let jj = if j < i { j } else { j + 1 };
                                    assert(keyed(v, k, jj));
                                }
                            }
                        }
                    }
                }
                true
            },
        }
    }

    /// The identifiers held, in table order.
    pub fn ids(&self) -> (r: Vec<ItemId>)
        ensures
            r@ == self@.map_values(|e: (ItemId, T)| e.0),
    {
        let mut r: Vec<ItemId> = Vec::new();
        let mut i: usize = 0;
        while i < self.entries.len()
            invariant
                0 <= i <= self.entries@.len(),
                r@ == self@.take(i as int).map_values(|e: (ItemId, T)| e.0),
            decreases self.entries@.len() - i,
        {
            r.push(self.entries[i].0);
            i = i + 1;
            assert(r@ =~= self@.take(i as int).map_values(|e: (ItemId, T)| e.0));
        }
        assert(self@.take(i as int) =~= self@);
        r
    }

    /// The entry at position `i`.
    pub fn entry(&self, i: usize) -> (r: &(ItemId, T))
        requires
            i < self@.len(),
        ensures
            *r == self@[i as int],
    {
        &self.entries[i]
    }

    pub fn len(&self) -> (r: usize)
        ensures
            r == self@.len(),
    {
        self.entries.len()
    }

    /// Builds a table from a list; a later entry for an identifier replaces
    /// an earlier one.
    pub fn from_entries(list: Vec<(ItemId, T)>) -> (r: Table<T>)
        ensures
            r.wf(),
            forall|id: ItemId| lookup(r@, id) == last_for(list@, id),
    {
        let ghost whole = list@;
        let mut table = Table::new();
        let mut rest = list;
        let mut i: usize = 0;
        let n = rest.len();
        while rest.len() > 0
            invariant
                table.wf(),
                n == whole.len(),
                rest@.len() + i == whole.len(),
                rest@ == whole.skip(i as int),
                forall|id: ItemId| lookup(table@, id) == last_for(whole.take(i as int), id),
            decreases rest@.len(),
        {
            let (id, value) = rest.remove(0);
            assert(whole[i as int] == (id, value));
            table.insert(id, value);
            i = i + 1;
            assert(rest@ =~= whole.skip(i as int));
            assert(whole.take(i as int).drop_last() =~= whole.take(i - 1));
        }
        assert(whole.take(i as int) =~= whole);
        table
    }
}

} // verus!
