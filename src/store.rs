//! The schedule store: the last value each client id was given, kept as a
//! list of pairs with distinct ids in the order the ids first arrived.

use vstd::prelude::*;
use crate::model::{
    apply_sets, has_key, keys_unique, lemma_map_of_domain, lemma_map_of_index,
    lemma_map_of_push, lemma_map_of_update, map_of, Entry,
};

verus! {

/// The view of a list of owned pairs.
pub open spec fn entries_of(v: Seq<(String, String)>) -> Seq<Entry> {
    v.map_values(|e: (String, String)| (e.0@, e.1@))
}

/// The table of client id to schedule value.
#[derive(Debug)]
pub struct ScheduleStore {
    entries: Vec<(String, String)>,
}

impl View for ScheduleStore {
    type V = Map<Seq<char>, Seq<char>>;

    open spec fn view(&self) -> Map<Seq<char>, Seq<char>> {
        map_of(self.entries())
    }
}

impl ScheduleStore {
    /// The stored pairs, in the order their ids first arrived.
    pub closed spec fn entries(&self) -> Seq<Entry> {
        entries_of(self.entries@)
    }

    /// Every id occurs in one pair only.
    pub open spec fn wf(&self) -> bool {
        keys_unique(self.entries())
    }

    /// An empty store.
    pub fn new() -> (r: ScheduleStore)
        ensures
            r.wf(),
            r.entries() == Seq::<Entry>::empty(),
            r@ == Map::<Seq<char>, Seq<char>>::empty(),
    {
        let r = ScheduleStore { entries: Vec::new() };
        assert(r.entries() =~= Seq::<Entry>::empty());
        r
    }

    /// The position of the pair with id `id`, if any.
    fn find(&self, id: &String) -> (r: Option<usize>)
        requires
            self.wf(),
        ensures
            match r {
                Some(i) => i < self.entries().len() && self.entries()[i as int].0 == id@,
                None => !has_key(self.entries(), id@),
            },
    {
        let mut i: usize = 0;
        while i < self.entries.len()
            invariant
                i <= self.entries@.len(),
                forall|j: int| 0 <= j < i ==> self.entries()[j].0 != id@,
            decreases self.entries@.len() - i,
        {
            if self.entries[i].0 == *id {
                return Some(i);
            }
            i = i + 1;
        }
        None
    }

    /// The number of stored pairs.
    pub fn len(&self) -> (r: usize)
        ensures
            r == self.entries().len(),
    {
        self.entries.len()
    }

    /// The pair at position `i`.
    pub fn entry_at(&self, i: usize) -> (r: &(String, String))
        requires
            i < self.entries().len(),
        ensures
            r.0@ == self.entries()[i as int].0,
            r.1@ == self.entries()[i as int].1,
    {
        &self.entries[i]
    }

    /// The value last set for `id`, or `None` if it was never set.
    pub fn get_schedule(&self, id: &String) -> (r: Option<String>)
        requires
            self.wf(),
        ensures
            match r {
                Some(v) => self@.contains_key(id@) && v@ == self@[id@],
                None => !self@.contains_key(id@),
            },
    {
        proof {
            lemma_map_of_domain(self.entries(), id@);
        }
        match self.find(id) {
            Some(i) => {
                proof {
                    lemma_map_of_index(self.entries(), i as int);
                }
                Some(self.entries[i].1.clone())
            },
            None => None,
        }
    }

    /// Overwrites the value of `id`, adding the id if it is new.
    pub fn set_schedule(&mut self, id: String, schedule: String)
        requires
            old(self).wf(),
        ensures
            final(self).wf(),
            final(self)@ == old(self)@.insert(id@, schedule@),
            forall|i: int|
                0 <= i < old(self).entries().len() && old(self).entries()[i].0 == id@
                    ==> final(self).entries() == old(self).entries().update(
                    i,
                    (id@, schedule@),
                ),
            !has_key(old(self).entries(), id@) ==> final(self).entries() == old(
                self,
            ).entries().push((id@, schedule@)),
    {
        let ghost es = self.entries();
        match self.find(&id) {
            Some(i) => {
                proof {
                    lemma_map_of_update(es, i as int, schedule@);
                }
                self.entries.set(i, (id, schedule));
                assert(self.entries() =~= es.update(i as int, (es[i as int].0, schedule@)));
            },
            None => {
                proof {
                    lemma_map_of_push(es, (id@, schedule@));
                }
                self.entries.push((id, schedule));
                assert(self.entries() =~= es.push((id@, schedule@)));
            },
        }
    }

    /// The ids in the store, each once, in the order they first arrived.
    pub fn keys(&self) -> (r: Vec<String>)
        requires
            self.wf(),
        ensures
            r@.len() == self.entries().len(),
            forall|i: int| 0 <= i < r@.len() ==> r@[i]@ == self.entries()[i].0,
            forall|k: Seq<char>|
                self@.contains_key(k) <==> exists|i: int| 0 <= i < r@.len() && r@[i]@ == k,
    {
        let mut r: Vec<String> = Vec::new();
        let mut i: usize = 0;
        while i < self.entries.len()
            invariant
                i <= self.entries@.len(),
                r@.len() == i,
                forall|j: int| 0 <= j < i ==> r@[j]@ == self.entries()[j].0,
            decreases self.entries@.len() - i,
        {
            r.push(self.entries[i].0.clone());
            i = i + 1;
        }
        proof {
            assert forall|k: Seq<char>|
                self@.contains_key(k) <==> exists|i: int| 0 <= i < r@.len() && r@[i]@ == k by {
                lemma_map_of_domain(self.entries(), k);
                if has_key(self.entries(), k) {
                    let j = choose|j: int| 0 <= j < self.entries().len() && self.entries()[j].0 == k;
                    assert(r@[j]@ == k);
                }
            }
        }
        r
    }

    /// Writes each pair of `batch` in order, as `set_schedule` does.
    pub fn apply_batch(&mut self, batch: &Vec<(String, String)>)
        requires
            old(self).wf(),
        ensures
            final(self).wf(),
            final(self)@ == apply_sets(old(self)@, entries_of(batch@)),
    {
        let mut i: usize = 0;
        while i < batch.len()
            invariant
                i <= batch@.len(),
                self.wf(),
                self@ == apply_sets(old(self)@, entries_of(batch@).take(i as int)),
            decreases batch@.len() - i,
        {
            let id = batch[i].0.clone();
            let value = batch[i].1.clone();
            self.set_schedule(id, value);
            assert(entries_of(batch@).take(i + 1).drop_last() =~= entries_of(batch@).take(
                i as int,
            ));
            i = i + 1;
        }
        assert(entries_of(batch@).take(i as int) =~= entries_of(batch@));
    }
}

} // verus!
