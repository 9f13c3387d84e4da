use vstd::prelude::*;
use crate::text::same_text;

verus! {

/// The live instances, keyed by server identifier, each with the process
/// identifier of its process: at most one per server identifier, with
/// insertion that fails on a taken identifier, and removal that takes an
/// instance out only for a report about that same process, only once.
pub struct Registry<V> {
    entries: Vec<(String, (u32, V))>,
    model: Ghost<Map<Seq<char>, (u32, V)>>,
}

impl<V> View for Registry<V> {
    type V = Map<Seq<char>, (u32, V)>;

    closed spec fn view(&self) -> Map<Seq<char>, (u32, V)> {
        self.model@
    }
}

impl<V> Registry<V> {
    /// Entries have distinct keys and hold exactly the pairs of the view.
    pub closed spec fn wf(&self) -> bool {
        &&& forall|i: int, j: int|
            0 <= i < self.entries@.len() && 0 <= j < self.entries@.len() && i != j
                ==> self.entries@[i].0@ != self.entries@[j].0@
        &&& forall|i: int|
            0 <= i < self.entries@.len() ==> #[trigger] self.model@.contains_key(
                self.entries@[i].0@,
            ) && self.model@[self.entries@[i].0@] == self.entries@[i].1
        &&& forall|k: Seq<char>|
            #[trigger] self.model@.contains_key(k) ==> exists|i: int|
                0 <= i < self.entries@.len() && self.entries@[i].0@ == k
    }

    /// An empty registry.
    pub fn new() -> (r: Registry<V>)
        ensures
            r.wf(),
            r@ == Map::<Seq<char>, (u32, V)>::empty(),
    {
        Registry { entries: Vec::new(), model: Ghost(Map::empty()) }
    }

    fn position(&self, id: &str) -> (r: Option<usize>)
        requires
            self.wf(),
        ensures
            match r {
                Some(i) => i < self.entries@.len() && self.entries@[i as int].0@ == id@
                    && self@.contains_key(id@) && self@[id@] == self.entries@[i as int].1,
                None => !self@.contains_key(id@),
            },
    {
        let mut i: usize = 0;
        while i < self.entries.len()
            invariant
                self.wf(),
                i <= self.entries@.len(),
                forall|j: int| 0 <= j < i ==> self.entries@[j].0@ != id@,
            decreases self.entries@.len() - i,
        {
            if same_text(self.entries[i].0.as_str(), id) {
                assert(self.model@.contains_key(self.entries@[i as int].0@));
                return Some(i);
            }
            i = i + 1;
        }
        None
    }

    /// Whether an instance is registered under `id`.
    pub fn contains_key(&self, id: &str) -> (r: bool)
        requires
            self.wf(),
        ensures
            r == self@.contains_key(id@),
    {
        self.position(id).is_some()
    }

    /// The instance registered under `id`, if any.
    pub fn get(&self, id: &str) -> (r: Option<&V>)
        requires
            self.wf(),
        ensures
            match r {
                Some(v) => self@.contains_key(id@) && *v == self@[id@].1,
                None => !self@.contains_key(id@),
            },
    {
        match self.position(id) {
            Some(i) => Some(&self.entries[i].1.1),
            None => None,
        }
    }

    /// The process identifier of the instance registered under `id`, if any.
    pub fn pid_of(&self, id: &str) -> (r: Option<u32>)
        requires
            self.wf(),
        ensures
            match r {
                Some(p) => self@.contains_key(id@) && p == self@[id@].0,
                None => !self@.contains_key(id@),
            },
    {
        match self.position(id) {
            Some(i) => Some(self.entries[i].1.0),
            None => None,
        }
    }

    /// Registers `value`, the instance of process `pid`, under `id` unless
    /// that identifier is taken, in which case the registry is unchanged and
    /// `value` is handed back.
    pub fn insert_new(&mut self, id: String, pid: u32, value: V) -> (r: Result<(), V>)
        requires
            old(self).wf(),
        ensures
            final(self).wf(),
            old(self)@.contains_key(id@) ==> r == Err::<(), V>(value) && final(self)@ == old(
                self,
            )@,
            !old(self)@.contains_key(id@) ==> r is Ok && final(self)@ == old(self)@.insert(
                id@,
                (pid, value),
            ),
    {
        if self.position(id.as_str()).is_some() {
            return Err(value);
        }
        let ghost key = id@;
        let ghost old_entries = self.entries@;
        let ghost old_model = self.model@;
        self.entries.push((id, (pid, value)));
        self.model = Ghost(self.model@.insert(key, (pid, value)));
        proof {
            assert forall|k: Seq<char>| #[trigger] self.model@.contains_key(k) implies exists|i: int|
                0 <= i < self.entries@.len() && self.entries@[i].0@ == k by {
                if k == key {
                    assert(self.entries@[old_entries.len() as int].0@ == k);
                } else {
                    assert(old_model.contains_key(k));
                    let i = choose|i: int| 0 <= i < old_entries.len() && old_entries[i].0@ == k;
                    assert(self.entries@[i] == old_entries[i]);
                }
            }
            assert forall|i: int| 0 <= i < self.entries@.len() implies #[trigger] self.model@.contains_key(
                self.entries@[i].0@,
            ) && self.model@[self.entries@[i].0@] == self.entries@[i].1 by {
                if i < old_entries.len() {
                    assert(self.entries@[i] == old_entries[i]);
                    assert(old_model.contains_key(old_entries[i].0@));
                }
            }
        }
        Ok(())
    }

    /// Removes and returns the instance under `id` where it is the instance
    /// of process `pid`; else `None`, with nothing changed: a report about an
    /// earlier process never removes a later instance.
    pub fn remove_instance(&mut self, id: &str, pid: u32) -> (r: Option<V>)
        requires
            old(self).wf(),
        ensures
            final(self).wf(),
            old(self)@.contains_key(id@) && old(self)@[id@].0 == pid ==> r == Some(
                old(self)@[id@].1,
            ) && final(self)@ == old(self)@.remove(id@),
            !(old(self)@.contains_key(id@) && old(self)@[id@].0 == pid) ==> r is None
                && final(self)@ == old(self)@,
    {
        match self.position(id) {
            None => None,
            Some(i) => {
                if self.entries[i].1.0 != pid {
                    return None;
                }
                let ghost old_entries = self.entries@;
                let ghost old_model = self.model@;
                let ghost key = id@;
                let (_, (_, v)) = self.entries.remove(i);
                self.model = Ghost(self.model@.remove(key));
                proof {
                    assert forall|a: int, b: int|
                        0 <= a < self.entries@.len() && 0 <= b < self.entries@.len() && a != b
                            implies self.entries@[a].0@ != self.entries@[b].0@ by {
                        let a0 = if a < i { a } else { a + 1 };
                        let b0 = if b < i { b } else { b + 1 };
                        assert(self.entries@[a] == old_entries[a0]);
                        assert(self.entries@[b] == old_entries[b0]);
                    }
                    assert forall|j: int| 0 <= j < self.entries@.len() implies #[trigger] self.model@.contains_key(
                        self.entries@[j].0@,
                    ) && self.model@[self.entries@[j].0@] == self.entries@[j].1 by {
                        let j0 = if j < i { j } else { j + 1 };
                        assert(self.entries@[j] == old_entries[j0]);
                        assert(old_model.contains_key(old_entries[j0].0@));
                        assert(old_entries[j0].0@ != old_entries[i as int].0@);
                    }
                    assert forall|k: Seq<char>| #[trigger] self.model@.contains_key(k) implies exists|j: int|
                        0 <= j < self.entries@.len() && self.entries@[j].0@ == k by {
                        assert(old_model.contains_key(k));
                        let j0 = choose|j: int| 0 <= j < old_entries.len() && old_entries[j].0@ == k;
                        assert(j0 != i);
                        let j = if j0 < i { j0 } else { j0 - 1 };
                        assert(self.entries@[j] == old_entries[j0]);
                    }
                }
                Some(v)
            },
        }
    }

    /// The identifiers of all registered instances.
    pub fn ids(&self) -> (r: Vec<String>)
        requires
            self.wf(),
        ensures
            forall|i: int| 0 <= i < r@.len() ==> self@.contains_key(#[trigger] r@[i]@),
            forall|k: Seq<char>| #[trigger] self@.contains_key(k) ==> exists|i: int|
                0 <= i < r@.len() && r@[i]@ == k,
    {
        let mut out: Vec<String> = Vec::new();
        let mut i: usize = 0;
        while i < self.entries.len()
            invariant
                self.wf(),
                i <= self.entries@.len(),
                out@.len() == i,
                forall|j: int| 0 <= j < i ==> out@[j]@ == self.entries@[j].0@,
            decreases self.entries@.len() - i,
        {
            out.push(self.entries[i].0.clone());
            i = i + 1;
        }
        proof {
            assert forall|j: int| 0 <= j < out@.len() implies self@.contains_key(#[trigger] out@[j]@) by {
                assert(self.model@.contains_key(self.entries@[j].0@));
            }
            assert forall|k: Seq<char>| #[trigger] self@.contains_key(k) implies exists|j: int|
                0 <= j < out@.len() && out@[j]@ == k by {
                let j = choose|j: int| 0 <= j < self.entries@.len() && self.entries@[j].0@ == k;
                assert(out@[j]@ == k);
            }
        }
        out
    }
}

} // verus!
