//! A table of per-validator records, kept in insertion order with at most
//! one record per validator.
use vstd::prelude::*;
use crate::types::ValidatorID;

verus! {

/// The map that a sequence of (key, record) pairs stands for: a later pair
/// for the same key wins (the tables below never hold two).
pub open spec fn seq_to_map<R>(s: Seq<(Seq<u8>, R)>) -> Map<Seq<u8>, R>
    decreases s.len(),
{
    if s.len() == 0 {
        Map::empty()
    } else {
        seq_to_map(s.drop_last()).insert(s.last().0, s.last().1)
    }
}

/// No two pairs share a key.
pub open spec fn keys_unique<R>(s: Seq<(Seq<u8>, R)>) -> bool {
    forall|i: int, j: int| 0 <= i < s.len() && 0 <= j < s.len() && i != j ==> s[i].0 != s[j].0
}

/// A key is in the map exactly when some pair carries it.
pub proof fn lemma_seq_to_map_dom<R>(s: Seq<(Seq<u8>, R)>, k: Seq<u8>)
    ensures
        seq_to_map(s).dom().contains(k) <==> exists|i: int| 0 <= i < s.len() && s[i].0 == k,
    decreases s.len(),
{
    if s.len() > 0 {
        lemma_seq_to_map_dom(s.drop_last(), k);
        if seq_to_map(s).dom().contains(k) && k != s.last().0 {
            let i = choose|i: int| 0 <= i < s.drop_last().len() && s.drop_last()[i].0 == k;
            assert(s[i].0 == k);
        }
        if exists|i: int| 0 <= i < s.len() && s[i].0 == k {
            let i = choose|i: int| 0 <= i < s.len() && s[i].0 == k;
            if i < s.len() - 1 {
                assert(s.drop_last()[i].0 == k);
            }
        }
    }
}

/// With unique keys, the map sends each pair's key to that pair's record.
pub proof fn lemma_seq_to_map_value<R>(s: Seq<(Seq<u8>, R)>, i: int)
    requires
        keys_unique(s),
        0 <= i < s.len(),
    ensures
        seq_to_map(s).dom().contains(s[i].0),
        seq_to_map(s)[s[i].0] == s[i].1,
    decreases s.len(),
{
    if i < s.len() - 1 {
        assert(keys_unique(s.drop_last()));
        assert(s.drop_last()[i] == s[i]);
        lemma_seq_to_map_value(s.drop_last(), i);
    }
}

/// Replacing the record of pair `i` replaces the key's record in the map.
pub proof fn lemma_seq_to_map_update<R>(s: Seq<(Seq<u8>, R)>, i: int, v: R)
    requires
        keys_unique(s),
        0 <= i < s.len(),
    ensures
        keys_unique(s.update(i, (s[i].0, v))),
        seq_to_map(s.update(i, (s[i].0, v))) =~= seq_to_map(s).insert(s[i].0, v),
    decreases s.len(),
{
    let t = s.update(i, (s[i].0, v));
    if i == s.len() - 1 {
        assert(t.drop_last() =~= s.drop_last());
    } else {
        assert(keys_unique(s.drop_last()));
        assert(t.drop_last() =~= s.drop_last().update(i, (s[i].0, v)));
        lemma_seq_to_map_update(s.drop_last(), i, v);
        assert(s.last().0 != s[i].0);
    }
}

/// Replacing the record of any pair replaces the key's record in the map.
pub proof fn lemma_seq_to_map_update_all<R>(s: Seq<(Seq<u8>, R)>)
    requires
        keys_unique(s),
    ensures
        forall|i: int, v: R|
            0 <= i < s.len() ==> keys_unique(#[trigger] s.update(i, (s[i].0, v))) && seq_to_map(
                s.update(i, (s[i].0, v)),
            ) == seq_to_map(s).insert(s[i].0, v),
{
    assert forall|i: int, v: R| 0 <= i < s.len() implies keys_unique(#[trigger] s.update(i, (s[i].0, v)))
        && seq_to_map(s.update(i, (s[i].0, v))) == seq_to_map(s).insert(s[i].0, v) by {
        lemma_seq_to_map_update(s, i, v);
    }
}

/// Removing pair `i` removes its key from the map.
pub proof fn lemma_seq_to_map_remove<R>(s: Seq<(Seq<u8>, R)>, i: int)
    requires
        keys_unique(s),
        0 <= i < s.len(),
    ensures
        keys_unique(s.remove(i)),
        seq_to_map(s.remove(i)) =~= seq_to_map(s).remove(s[i].0),
    decreases s.len(),
{
    let t = s.remove(i);
    assert(keys_unique(t)) by {
        assert forall|a: int, b: int| 0 <= a < t.len() && 0 <= b < t.len() && a != b implies t[a].0
            != t[b].0 by {
            let a2 = if a < i { a } else { a + 1 };
            let b2 = if b < i { b } else { b + 1 };
            assert(t[a] == s[a2]);
            assert(t[b] == s[b2]);
        }
    }
    if i == s.len() - 1 {
        assert(t =~= s.drop_last());
        lemma_seq_to_map_dom(s.drop_last(), s.last().0);
    } else {
        assert(keys_unique(s.drop_last()));
        assert(t.drop_last() =~= s.drop_last().remove(i));
        assert(t.last() == s.last());
        lemma_seq_to_map_remove(s.drop_last(), i);
        assert(s.last().0 != s[i].0);
    }
}

/// Appending a pair with a fresh key inserts it into the map.
pub proof fn lemma_seq_to_map_push<R>(s: Seq<(Seq<u8>, R)>, k: Seq<u8>, v: R)
    requires
        keys_unique(s),
        !seq_to_map(s).dom().contains(k),
    ensures
        keys_unique(s.push((k, v))),
        seq_to_map(s.push((k, v))) == seq_to_map(s).insert(k, v),
{
    let t = s.push((k, v));
    assert(t.drop_last() =~= s);
    assert forall|a: int, b: int| 0 <= a < t.len() && 0 <= b < t.len() && a != b implies t[a].0
        != t[b].0 by {
        if a == s.len() {
            lemma_seq_to_map_dom(s, k);
            assert(s[b].0 != k);
        } else if b == s.len() {
            lemma_seq_to_map_dom(s, k);
            assert(s[a].0 != k);
        }
    }
}

/// The map of a table with unique keys is finite, with one entry per pair.
pub proof fn lemma_seq_to_map_len<R>(s: Seq<(Seq<u8>, R)>)
    requires
        keys_unique(s),
    ensures
        seq_to_map(s).dom().finite(),
        seq_to_map(s).dom().len() == s.len(),
    decreases s.len(),
{
    if s.len() > 0 {
        assert(keys_unique(s.drop_last()));
        lemma_seq_to_map_len(s.drop_last());
        lemma_seq_to_map_dom(s.drop_last(), s.last().0);
        if seq_to_map(s.drop_last()).dom().contains(s.last().0) {
            let j = choose|j: int|
                0 <= j < s.drop_last().len() && s.drop_last()[j].0 == s.last().0;
            assert(s[j].0 == s[s.len() - 1].0);
        }
    }
}

/// Per-validator records, one per validator, in the order they were added.
pub struct IdTable<R> {
    entries: Vec<(ValidatorID, R)>,
}

impl<R> IdTable<R> {
    /// The (identifier bytes, record) pairs, in order.
    pub closed spec fn pairs(&self) -> Seq<(Seq<u8>, R)> {
        self.entries@.map_values(|e: (ValidatorID, R)| (e.0@, e.1))
    }

    /// The records by identifier.
    pub open spec fn map(&self) -> Map<Seq<u8>, R> {
        seq_to_map(self.pairs())
    }

    /// At most one record per validator.
    pub open spec fn wf(&self) -> bool {
        keys_unique(self.pairs())
    }

    /// An empty table.
    pub fn new() -> (t: Self)
        ensures
            t.wf(),
            t.pairs() == Seq::<(Seq<u8>, R)>::empty(),
            t.map() == Map::<Seq<u8>, R>::empty(),
    {
        let t = IdTable { entries: Vec::new() };
        assert(t.pairs() =~= Seq::<(Seq<u8>, R)>::empty());
        t
    }

    /// The number of records.
    pub fn len(&self) -> (n: usize)
        ensures
            n == self.pairs().len(),
    {
        self.entries.len()
    }

    /// The identifier of the record at position `i`.
    pub fn id_at(&self, i: usize) -> (r: &ValidatorID)
        requires
            i < self.pairs().len(),
        ensures
            r@ == self.pairs()[i as int].0,
    {
        &self.entries[i].0
    }

    /// The record at position `i`.
    pub fn value_at(&self, i: usize) -> (r: &R)
        requires
            i < self.pairs().len(),
        ensures
            *r == self.pairs()[i as int].1,
    {
        &self.entries[i].1
    }

    /// The position of the record for `id`, if there is one.
    pub fn find(&self, id: &ValidatorID) -> (r: Option<usize>)
        requires
            self.wf(),
        ensures
            r is None <==> !self.map().dom().contains(id@),
            r matches Some(i) ==> i < self.pairs().len() && self.pairs()[i as int].0 == id@
                && self.map()[id@] == self.pairs()[i as int].1,
    {
        let mut i: usize = 0;
        while i < self.entries.len()
            invariant
                self.wf(),
                i <= self.pairs().len(),
                self.pairs().len() == self.entries@.len(),
                forall|j: int| 0 <= j < i ==> self.pairs()[j].0 != id@,
            decreases self.entries@.len() - i,
        {
            if self.entries[i].0.same_as(id) {
                proof {
                    lemma_seq_to_map_value(self.pairs(), i as int);
                }
                return Some(i);
            }
            i = i + 1;
        }
        proof {
            lemma_seq_to_map_dom(self.pairs(), id@);
        }
        None
    }

    /// Whether `id` has a record.
    pub fn contains(&self, id: &ValidatorID) -> (r: bool)
        requires
            self.wf(),
        ensures
            r == self.map().dom().contains(id@),
    {
        self.find(id).is_some()
    }

    /// The record for `id`, if there is one.
    pub fn get(&self, id: &ValidatorID) -> (r: Option<&R>)
        requires
            self.wf(),
        ensures
            r is None <==> !self.map().dom().contains(id@),
            r matches Some(v) ==> *v == self.map()[id@],
    {
        match self.find(id) {
            Some(i) => Some(&self.entries[i].1),
            None => None,
        }
    }

    /// Adds a record for a validator that has none.
    pub fn push(&mut self, id: ValidatorID, v: R)
        requires
            old(self).wf(),
            !old(self).map().dom().contains(id@),
        ensures
            final(self).wf(),
            final(self).pairs() == old(self).pairs().push((id@, v)),
            final(self).map() == old(self).map().insert(id@, v),
    {
        proof {
            lemma_seq_to_map_push(self.pairs(), id@, v);
        }
        let ghost k = id@;
        self.entries.push((id, v));
        assert(self.pairs() =~= old(self).pairs().push((k, v)));
    }

    /// Files `v` under `id`: replaces the validator's record in place, or
    /// appends one if it has none.
    pub fn upsert(&mut self, id: ValidatorID, v: R)
        requires
            old(self).wf(),
        ensures
            final(self).wf(),
            final(self).map() == old(self).map().insert(id@, v),
            old(self).map().dom().contains(id@) ==> exists|i: int|
                0 <= i < old(self).pairs().len() && old(self).pairs()[i].0 == id@ && final(self).pairs()
                    == old(self).pairs().update(i, (id@, v)),
            !old(self).map().dom().contains(id@) ==> final(self).pairs() == old(self).pairs().push(
                (id@, v),
            ),
    {
        match self.find(&id) {
            Some(i) => {
                self.set_value(i, v);
            },
            None => {
                self.push(id, v);
            },
        }
    }

    /// Mutable access to the record at position `i`.
    pub fn value_mut(&mut self, i: usize) -> (r: &mut R)
        requires
            i < old(self).pairs().len(),
        ensures
            *r == old(self).pairs()[i as int].1,
            final(self).pairs() == old(self).pairs().update(
                i as int,
                (old(self).pairs()[i as int].0, *final(r)),
            ),
    {
        &mut self.entries[i].1
    }

    /// Mutable access to the record for `id`, if there is one.
    pub fn get_mut(&mut self, id: &ValidatorID) -> (r: Option<&mut R>)
        requires
            old(self).wf(),
        ensures
            r is None <==> !old(self).map().dom().contains(id@),
            r is None ==> final(self).pairs() == old(self).pairs(),
            r is Some ==> *r->Some_0 == old(self).map()[id@],
            r is Some ==> exists|i: int|
                0 <= i < old(self).pairs().len() && old(self).pairs()[i].0 == id@ && final(self).pairs()
                    == old(self).pairs().update(i, (id@, *final(r->Some_0))),
            r is Some ==> final(self).map() == old(self).map().insert(id@, *final(r->Some_0)),
            r is Some ==> final(self).wf(),
    {
        proof {
            lemma_seq_to_map_update_all(self.pairs());
        }
        match self.find(id) {
            Some(i) => Some(self.value_mut(i)),
            None => None,
        }
    }

    /// Replaces the record at position `i`.
    pub fn set_value(&mut self, i: usize, v: R)
        requires
            old(self).wf(),
            i < old(self).pairs().len(),
        ensures
            final(self).wf(),
            final(self).pairs() == old(self).pairs().update(
                i as int,
                (old(self).pairs()[i as int].0, v),
            ),
            final(self).map() == old(self).map().insert(old(self).pairs()[i as int].0, v),
    {
        proof {
            lemma_seq_to_map_update(self.pairs(), i as int, v);
        }
        let ghost v2 = v;
        let r = self.value_mut(i);
        *r = v;
        assert(self.pairs() =~= old(self).pairs().update(i as int, (old(self).pairs()[i as int].0, v2)));
    }

    /// Removes the record at position `i`, keeping the others in order.
    pub fn remove_at(&mut self, i: usize) -> (r: (ValidatorID, R))
        requires
            old(self).wf(),
            i < old(self).pairs().len(),
        ensures
            final(self).wf(),
            (r.0@, r.1) == old(self).pairs()[i as int],
            final(self).pairs() == old(self).pairs().remove(i as int),
            final(self).map() == old(self).map().remove(old(self).pairs()[i as int].0),
    {
        proof {
            lemma_seq_to_map_remove(self.pairs(), i as int);
        }
        let r = self.entries.remove(i);
        assert(self.pairs() =~= old(self).pairs().remove(i as int));
        r
    }

    /// Removes every record.
    pub fn clear(&mut self)
        ensures
            final(self).wf(),
            final(self).pairs() == Seq::<(Seq<u8>, R)>::empty(),
            final(self).map() == Map::<Seq<u8>, R>::empty(),
    {
        self.entries.clear();
        assert(self.pairs() =~= Seq::<(Seq<u8>, R)>::empty());
    }

    /// The map has one entry per record.
    pub proof fn lemma_len(&self)
        requires
            self.wf(),
        ensures
            self.map().dom().finite(),
            self.map().dom().len() == self.pairs().len(),
    {
        lemma_seq_to_map_len(self.pairs());
    }

    /// The record at position `i` is the map's record for its key.
    pub proof fn lemma_at(&self, i: int)
        requires
            self.wf(),
            0 <= i < self.pairs().len(),
        ensures
            self.map().dom().contains(self.pairs()[i].0),
            self.map()[self.pairs()[i].0] == self.pairs()[i].1,
    {
        lemma_seq_to_map_value(self.pairs(), i);
    }

    /// A key is in the map exactly when some record carries it.
    pub proof fn lemma_dom(&self, k: Seq<u8>)
        ensures
            self.map().dom().contains(k) <==> exists|i: int|
                0 <= i < self.pairs().len() && self.pairs()[i].0 == k,
    {
        lemma_seq_to_map_dom(self.pairs(), k);
    }
}

} // verus!
