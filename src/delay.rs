use vstd::prelude::*;

verus! {

/// Ticks left for one entity in one production action.
#[derive(Clone, Copy, Debug, PartialEq, Eq)]
pub struct DelayEntry {
    pub action: u8,
    pub entity: usize,
    pub remaining: u32,
}

/// The production countdowns, keyed by (action, entity).
pub struct DelayTable {
    entries: Vec<DelayEntry>,
}

/// The key an entry is stored under.
pub open spec fn entry_key(e: DelayEntry) -> (u8, usize) {
    (e.action, e.entity)
}

impl DelayTable {
    /// No two entries share a key.
    pub closed spec fn wf(&self) -> bool {
        forall|i: int, j: int|
            0 <= i < self.entries@.len() && 0 <= j < self.entries@.len() && i != j
                ==> entry_key(#[trigger] self.entries@[i]) != entry_key(#[trigger] self.entries@[j])
    }

    closed spec fn holds(&self, k: (u8, usize)) -> bool {
        exists|i: int| 0 <= i < self.entries@.len() && entry_key(#[trigger] self.entries@[i]) == k
    }

    closed spec fn slot(&self, k: (u8, usize)) -> int {
        choose|i: int| 0 <= i < self.entries@.len() && entry_key(#[trigger] self.entries@[i]) == k
    }

    pub closed spec fn view(&self) -> Map<(u8, usize), u32> {
        Map::new(|k: (u8, usize)| self.holds(k), |k: (u8, usize)| self.entries@[self.slot(k)].remaining)
    }

    proof fn lemma_at(&self, i: int)
        requires
            self.wf(),
            0 <= i < self.entries@.len(),
        ensures
            self@.contains_key(entry_key(self.entries@[i])),
            self@[entry_key(self.entries@[i])] == self.entries@[i].remaining,
    {
        let k = entry_key(self.entries@[i]);
        assert(self.holds(k));
        let j = self.slot(k);
        assert(entry_key(self.entries@[j]) == k);
    }

    /// An empty table.
    pub fn new() -> (r: DelayTable)
        ensures
            r.wf(),
            r@ == Map::<(u8, usize), u32>::empty(),
    {
        let r = DelayTable { entries: Vec::new() };
        assert(r@ =~= Map::<(u8, usize), u32>::empty());
        r
    }

    fn find(&self, action: u8, entity: usize) -> (r: Option<usize>)
        requires
            self.wf(),
        ensures
            match r {
                Some(i) => i < self.entries@.len() && entry_key(self.entries@[i as int]) == (action, entity),
                None => !self@.contains_key((action, entity)),
            },
    {
        let mut i: usize = 0;
        while i < self.entries.len()
            invariant
                i <= self.entries@.len(),
                forall|j: int| 0 <= j < i ==> entry_key(#[trigger] self.entries@[j]) != (action, entity),
            decreases self.entries@.len() - i,
        {
            let e = self.entries[i];
            if e.action == action && e.entity == entity {
                return Some(i);
            }
            i = i + 1;
        }
        None
    }

    /// The countdown of `entity` in `action`, if one is running.
    pub fn get(&self, action: u8, entity: usize) -> (r: Option<u32>)
        requires
            self.wf(),
        ensures
            r == if self@.contains_key((action, entity)) {
                Some(self@[(action, entity)])
            } else {
                None::<u32>
            },
    {
        match self.find(action, entity) {
            Some(i) => {
                proof { self.lemma_at(i as int); }
                Some(self.entries[i].remaining)
            },
            None => None,
        }
    }

    /// Sets the countdown of `entity` in `action`.
    pub fn set(&mut self, action: u8, entity: usize, remaining: u32)
        requires
            old(self).wf(),
        ensures
            final(self).wf(),
            final(self)@ == old(self)@.insert((action, entity), remaining),
    {
        let k = (action, entity);
        let ghost before = *self;
        let e = DelayEntry { action, entity, remaining };
        match self.find(action, entity) {
            Some(i) => {
                self.entries[i] = e;
                proof {
                    assert forall|k2: (u8, usize)| #[trigger] self@.contains_key(k2)
                        == before@.insert(k, remaining).contains_key(k2) by {
                        if k2 != k && self.holds(k2) {
                            let j = self.slot(k2);
                            assert(before.entries@[j] == self.entries@[j]);
                        }
                        if k2 != k && before.holds(k2) {
                            let j = before.slot(k2);
                            assert(before.entries@[j] == self.entries@[j]);
                        }
                        if k2 == k {
                            assert(entry_key(self.entries@[i as int]) == k);
                        }
                    }
                    assert forall|k2: (u8, usize)| #[trigger] self@.contains_key(k2) implies
                        self@[k2] == before@.insert(k, remaining)[k2] by {
                        let j = self.slot(k2);
                        self.lemma_at(j);
                        if k2 != k {
                            before.lemma_at(j);
                        }
                    }
                    assert(self@ =~= before@.insert(k, remaining));
                }
            },
            None => {
                self.entries.push(e);
                proof {
                    let n = before.entries@.len() as int;
                    assert forall|k2: (u8, usize)| #[trigger] self@.contains_key(k2)
                        == before@.insert(k, remaining).contains_key(k2) by {
                        if k2 != k && self.holds(k2) {
                            let j = self.slot(k2);
                            assert(j < n);
                            assert(before.entries@[j] == self.entries@[j]);
                        }
                        if k2 != k && before.holds(k2) {
                            let j = before.slot(k2);
                            assert(before.entries@[j] == self.entries@[j]);
                        }
                        if k2 == k {
                            assert(entry_key(self.entries@[n]) == k);
                        }
                    }
                    assert forall|k2: (u8, usize)| #[trigger] self@.contains_key(k2) implies
                        self@[k2] == before@.insert(k, remaining)[k2] by {
                        let j = self.slot(k2);
                        self.lemma_at(j);
                        if k2 != k {
                            assert(j < n);
                            before.lemma_at(j);
                        }
                    }
                    assert(self@ =~= before@.insert(k, remaining));
                }
            },
        }
    }

    /// Ends the countdown of `entity` in `action`.
    pub fn remove(&mut self, action: u8, entity: usize)
        requires
            old(self).wf(),
        ensures
            final(self).wf(),
            final(self)@ == old(self)@.remove((action, entity)),
    {
        let k = (action, entity);
        let ghost before = *self;
        match self.find(action, entity) {
            Some(i) => {
                self.entries.remove(i);
                proof {
                    let old_index = |j: int| if j < i { j } else { j + 1 };
                    assert forall|j: int| 0 <= j < self.entries@.len() implies
                        #[trigger] self.entries@[j] == before.entries@[old_index(j)] by {}
                    assert forall|k2: (u8, usize)| #[trigger] self@.contains_key(k2)
                        == before@.remove(k).contains_key(k2) by {
                        if self.holds(k2) {
                            let j = self.slot(k2);
                            assert(before.entries@[old_index(j)] == self.entries@[j]);
                        }
                        if k2 != k && before.holds(k2) {
                            let j = before.slot(k2);
                            assert(j != i);
                            let nj = if j < i { j } else { j - 1 };
                            assert(self.entries@[nj] == before.entries@[j]);
                        }
                    }
                    assert forall|k2: (u8, usize)| #[trigger] self@.contains_key(k2) implies
                        self@[k2] == before@.remove(k)[k2] by {
                        let j = self.slot(k2);
                        self.lemma_at(j);
                        before.lemma_at(old_index(j));
                    }
                    assert(self@ =~= before@.remove(k));
                }
            },
            None => {
                assert(self@ =~= before@.remove(k));
            },
        }
    }
}

} // verus!
