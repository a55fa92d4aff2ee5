//! A small map from project ids to per-project controls (cancel flags, pause
//! flags, concurrency), for the runs that can be stopped from outside.
use vstd::prelude::*;
use vstd::string::StringExecFns;

verus! {

/// Controls keyed by project id, each id at most once.
pub struct Registry<C> {
    entries: Vec<(String, C)>,
    contents: Ghost<Map<Seq<char>, C>>,
}

impl<C> Registry<C> {
    /// The controls by project id.
    pub closed spec fn view(&self) -> Map<Seq<char>, C> {
        self.contents@
    }

    /// The entries list each key once, and exactly the keys of the view
    /// with their controls.
    pub closed spec fn wf(&self) -> bool {
        &&& forall|i: int, j: int|
            0 <= i < j < self.entries@.len() ==> #[trigger] self.entries@[i].0@
                != #[trigger] self.entries@[j].0@
        &&& forall|i: int|
            0 <= i < self.entries@.len() ==> #[trigger] self.contents@.contains_key(
                self.entries@[i].0@,
            ) && self.contents@[self.entries@[i].0@] == self.entries@[i].1
        &&& forall|k: Seq<char>|
            #[trigger] self.contents@.contains_key(k) ==> exists|i: int|
                0 <= i < self.entries@.len() && #[trigger] self.entries@[i].0@ == k
    }

    /// An empty registry.
    pub fn new() -> (r: Registry<C>)
        ensures
            r.wf(),
            r.view() == Map::<Seq<char>, C>::empty(),
    {
        Registry { entries: Vec::new(), contents: Ghost(Map::empty()) }
    }

    fn index_of(&self, key: &str) -> (res: Option<usize>)
        requires
            self.wf(),
        ensures
            match res {
                Some(i) => i < self.entries@.len() && self.entries@[i as int].0@ == key@,
                None => !self.view().contains_key(key@),
            },
    {
        let k = String::from_str(key);
        let mut i: usize = 0;
        while i < self.entries.len()
            invariant
                i <= self.entries@.len(),
                k@ == key@,
                forall|j: int| 0 <= j < i ==> self.entries@[j].0@ != key@,
            decreases self.entries.len() - i,
        {
            if self.entries[i].0 == k {
                return Some(i);
            }
            i += 1;
        }
        None
    }

    /// Whether `key` has a control.
    pub fn contains(&self, key: &str) -> (b: bool)
        requires
            self.wf(),
        ensures
            b == self.view().contains_key(key@),
    {
        self.index_of(key).is_some()
    }

    /// The control of `key`, if it has one.
    pub fn get(&self, key: &str) -> (res: Option<&C>)
        requires
            self.wf(),
        ensures
            match res {
                Some(c) => self.view().contains_key(key@) && *c == self.view()[key@],
                None => !self.view().contains_key(key@),
            },
    {
        match self.index_of(key) {
            Some(i) => {
                assert(self.contents@.contains_key(self.entries@[i as int].0@));
                Some(&self.entries[i].1)
            },
            None => None,
        }
    }

    /// Sets the control of `key`, replacing any it had.
    pub fn insert(&mut self, key: String, value: C)
        requires
            old(self).wf(),
        ensures
            final(self).wf(),
            final(self).view() == old(self).view().insert(key@, value),
    {
        let ghost k = key@;
        let ghost new_map = self.contents@.insert(k, value);
        match self.index_of(key.as_str()) {
            Some(i) => {
                let ghost old_entries = self.entries@;
                self.entries.set(i, (key, value));
                self.contents = Ghost(new_map);
                assert forall|j: int|
                    0 <= j < self.entries@.len() implies #[trigger] self.contents@.contains_key(
                    self.entries@[j].0@,
                ) && self.contents@[self.entries@[j].0@] == self.entries@[j].1 by {
                    if j != i {
                        assert(old_entries[j].0@ != old_entries[i as int].0@);
                        assert(old(self).contents@.contains_key(old_entries[j].0@));
                    }
                }
                assert forall|a: int, b: int|
                    0 <= a < b < self.entries@.len() implies #[trigger] self.entries@[a].0@
                    != #[trigger] self.entries@[b].0@ by {
                    assert(old_entries[a].0@ != old_entries[b].0@);
                }
                assert forall|k2: Seq<char>| #[trigger] self.contents@.contains_key(k2) implies exists|
                    j: int,
                |
                    0 <= j < self.entries@.len() && #[trigger] self.entries@[j].0@ == k2 by {
                    if k2 != k {
                        let j = choose|j: int|
                            0 <= j < old(self).entries@.len() && #[trigger] old(
                                self,
                            ).entries@[j].0@ == k2;
                        assert(self.entries@[j].0@ == k2);
                    } else {
                        assert(self.entries@[i as int].0@ == k2);
                    }
                }
            },
            None => {
                let ghost old_entries = self.entries@;
                self.entries.push((key, value));
                self.contents = Ghost(new_map);
                assert forall|j: int|
                    0 <= j < old_entries.len() implies old_entries[j].0@ != k by {
                    assert(old(self).contents@.contains_key(old_entries[j].0@));
                }
                assert forall|j: int|
                    0 <= j < self.entries@.len() implies #[trigger] self.contents@.contains_key(
                    self.entries@[j].0@,
                ) && self.contents@[self.entries@[j].0@] == self.entries@[j].1 by {
                    if j < old_entries.len() {
                        assert(self.entries@[j] == old_entries[j]);
                        assert(old(self).contents@.contains_key(old_entries[j].0@));
                    }
                }
                assert forall|a: int, b: int|
                    0 <= a < b < self.entries@.len() implies #[trigger] self.entries@[a].0@
                    != #[trigger] self.entries@[b].0@ by {
                    if b < old_entries.len() {
                        assert(old_entries[a].0@ != old_entries[b].0@);
                    } else {
                        assert(self.entries@[a] == old_entries[a]);
                    }
                }
                assert forall|k2: Seq<char>| #[trigger] self.contents@.contains_key(k2) implies exists|
                    j: int,
                |
                    0 <= j < self.entries@.len() && #[trigger] self.entries@[j].0@ == k2 by {
                    if k2 != k {
                        let j = choose|j: int|
                            0 <= j < old(self).entries@.len() && #[trigger] old(
                                self,
                            ).entries@[j].0@ == k2;
                        assert(self.entries@[j].0@ == k2);
                    } else {
                        assert(self.entries@[self.entries@.len() - 1].0@ == k2);
                    }
                }
            },
        }
    }

    /// Removes the control of `key` and hands it back, if it had one.
    pub fn remove(&mut self, key: &str) -> (res: Option<C>)
        requires
            old(self).wf(),
        ensures
            final(self).wf(),
            final(self).view() == old(self).view().remove(key@),
            match res {
                Some(c) => old(self).view().contains_key(key@) && c == old(self).view()[key@],
                None => !old(self).view().contains_key(key@),
            },
    {
        match self.index_of(key) {
            Some(i) => {
                let ghost old_entries = self.entries@;
                let ghost new_map = self.contents@.remove(key@);
                assert(self.contents@.contains_key(old_entries[i as int].0@));
                let (_, value) = self.entries.remove(i);
                self.contents = Ghost(new_map);
                assert forall|j: int|
                    0 <= j < self.entries@.len() implies #[trigger] self.contents@.contains_key(
                    self.entries@[j].0@,
                ) && self.contents@[self.entries@[j].0@] == self.entries@[j].1 by {
                    if j < i {
                        assert(self.entries@[j] == old_entries[j]);
                    } else {
                        assert(self.entries@[j] == old_entries[j + 1]);
                    }
                }
                assert forall|k2: Seq<char>| #[trigger] self.contents@.contains_key(k2) implies exists|
                    j: int,
                |
                    0 <= j < self.entries@.len() && #[trigger] self.entries@[j].0@ == k2 by {
                    let j = choose|j: int|
                        0 <= j < old_entries.len() && #[trigger] old_entries[j].0@ == k2;
                    assert(j != i);
                    if j < i {
                        assert(self.entries@[j].0@ == k2);
                    } else {
                        assert(self.entries@[j - 1].0@ == k2);
                    }
                }
                assert forall|a: int, b: int|
                    0 <= a < b < self.entries@.len() implies #[trigger] self.entries@[a].0@
                    != #[trigger] self.entries@[b].0@ by {
                    let oa = if a < i {
                        a
                    } else {
                        a + 1
                    };
                    let ob = if b < i {
                        b
                    } else {
                        b + 1
                    };
                    assert(self.entries@[a] == old_entries[oa]);
                    assert(self.entries@[b] == old_entries[ob]);
                }
                Some(value)
            },
            None => {
                assert(self.contents@.remove(key@) =~= self.contents@);
                None
            },
        }
    }
}

} // verus!
