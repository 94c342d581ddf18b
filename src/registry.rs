//! The path -> entry mapping, owned by one actor and changed by one command at a time.

use vstd::prelude::*;

verus! {

/// The abstract registry: each registered path maps to its file and display name.
pub type Model<F> = Map<Seq<char>, (F, Seq<char>)>;

/// The registry after `path` was registered with `file` under `name`.
pub open spec fn registered<F>(m: Model<F>, path: Seq<char>, file: F, name: Seq<char>) -> Model<F> {
    m.insert(path, (file, name))
}

/// The registry after a request for `path`: its entry, if any, is consumed.
pub open spec fn dispatched<F>(m: Model<F>, path: Seq<char>) -> Model<F> {
    m.remove(path)
}

/// What a request for `path` finds in `m`.
pub open spec fn lookup<F>(m: Model<F>, path: Seq<char>) -> Option<(F, Seq<char>)> {
    if m.contains_key(path) {
        Some(m[path])
    } else {
        None
    }
}

/// A file handed in for download, with the name the client is offered.
pub struct Entry<F> {
    pub file: F,
    pub name: String,
}

/// The mapping from path to entry; at most one entry per path.
pub struct Registry<F> {
    entries: Vec<(String, Entry<F>)>,
    model: Ghost<Model<F>>,
}

impl<F> View for Registry<F> {
    type V = Model<F>;

    closed spec fn view(&self) -> Model<F> {
        self.model@
    }
}

impl<F> Registry<F> {
    /// Paths are unique, and the entries are exactly the model.
    pub closed spec fn wf(&self) -> bool {
        &&& forall|i: int, j: int|
            0 <= i < j < self.entries@.len() ==> #[trigger] self.entries@[i].0@
                != #[trigger] self.entries@[j].0@
        &&& forall|i: int|
            0 <= i < self.entries@.len() ==> {
                let (p, e) = #[trigger] self.entries@[i];
                &&& self.model@.contains_key(p@)
                &&& self.model@[p@] == (e.file, e.name@)
            }
        &&& forall|p: Seq<char>|
            #[trigger] self.model@.contains_key(p) ==> exists|i: int|
                0 <= i < self.entries@.len() && #[trigger] self.entries@[i].0@ == p
    }

    /// An empty registry.
    pub fn new() -> (r: Registry<F>)
        ensures
            r.wf(),
            r@ == Model::<F>::empty(),
    {
        Registry { entries: Vec::new(), model: Ghost(Map::empty()) }
    }

    /// The number of registered paths.
    pub fn len(&self) -> (n: usize)
        requires
            self.wf(),
        ensures
            n == self@.len(),
    {
        proof {
            self.lemma_len();
        }
        self.entries.len()
    }

    proof fn lemma_len(&self)
        requires
            self.wf(),
        ensures
            self@.len() == self.entries@.len(),
            self@.dom().finite(),
    {
        let keys = Seq::new(self.entries@.len(), |i: int| self.entries@[i].0@);
        assert(keys.no_duplicates());
        assert(self@.dom() =~= keys.to_set()) by {
            assert forall|p: Seq<char>| self@.dom().contains(p) implies keys.to_set().contains(p) by {
                let i = choose|i: int|
                    0 <= i < self.entries@.len() && #[trigger] self.entries@[i].0@ == p;
                assert(keys[i] == p);
            }
            assert forall|p: Seq<char>| keys.to_set().contains(p) implies self@.dom().contains(p) by {
                let i = choose|i: int| 0 <= i < keys.len() && keys[i] == p;
                let _ = self.entries@[i];
            }
        }
        keys.unique_seq_to_set();
    }

    /// Where `path` stands among the entries, if it is registered.
    fn position(&self, path: &String) -> (r: Option<usize>)
        requires
            self.wf(),
        ensures
            match r {
                Some(i) => i < self.entries@.len() && self.entries@[i as int].0@ == path@,
                None => !self@.contains_key(path@),
            },
    {
        let mut i: usize = 0;
        while i < self.entries.len()
            invariant
                self.wf(),
                i <= self.entries@.len(),
                forall|k: int| 0 <= k < i ==> #[trigger] self.entries@[k].0@ != path@,
            decreases self.entries@.len() - i,
        {
            if self.entries[i].0 == *path {
                return Some(i);
            }
            i = i + 1;
        }
        None
    }

    /// Whether a request for `path` would find an entry now.
    pub fn contains(&self, path: &String) -> (b: bool)
        requires
            self.wf(),
        ensures
            b == self@.contains_key(path@),
    {
        match self.position(path) {
            Some(i) => {
                proof {
                    let _ = self.entries@[i as int];
                }
                true
            },
            None => false,
        }
    }

    /// Registers `file` under `path` with display `name`, replacing any
    /// entry that `path` had.
    pub fn register(&mut self, path: String, file: F, name: String)
        requires
            old(self).wf(),
        ensures
            final(self).wf(),
            final(self)@ == registered(old(self)@, path@, file, name@),
    {
        let ghost key = path@;
        let ghost value = (file, name@);
        let ghost at: int;
        match self.position(&path) {
            Some(i) => {
                self.entries.set(i, (path, Entry { file, name }));
                proof {
                    at = i as int;
                }
            },
            None => {
                self.entries.push((path, Entry { file, name }));
                proof {
                    at = self.entries@.len() - 1;
                }
            },
        }
        assert(self.entries@[at].0@ == key);
        proof {
            self.model@ = self.model@.insert(key, value);
        }
        assert(self.wf()) by {
            assert forall|p: Seq<char>| #[trigger] self.model@.contains_key(p) implies exists|
                i: int,
            |
                0 <= i < self.entries@.len() && #[trigger] self.entries@[i].0@ == p by {
                if p != key {
                    let i = choose|i: int|
                        0 <= i < old(self).entries@.len() && #[trigger] old(self).entries@[i].0@
                            == p;
                    assert(self.entries@[i].0@ == p);
                } else {
                    assert(self.entries@[at].0@ == p);
                }
            }
        }
    }

    /// Takes the entry for `path` out of the registry, if there is one:
    /// a registration is served once.
    pub fn dispatch(&mut self, path: &String) -> (r: Option<Entry<F>>)
        requires
            old(self).wf(),
        ensures
            final(self).wf(),
            final(self)@ == dispatched(old(self)@, path@),
            match r {
                Some(e) => lookup(old(self)@, path@) == Some((e.file, e.name@)),
                None => lookup(old(self)@, path@) is None,
            },
    {
        match self.position(path) {
            Some(i) => {
                proof {
                    let _ = self.entries@[i as int];
                }
                let (_, entry) = self.entries.remove(i);
                proof {
                    self.model@ = self.model@.remove(path@);
                }
                assert(self.wf()) by {
                    assert forall|p: Seq<char>| #[trigger] self.model@.contains_key(p) implies exists|
                        k: int,
                    |
                        0 <= k < self.entries@.len() && #[trigger] self.entries@[k].0@ == p by {
                        let k = choose|k: int|
                            0 <= k < old(self).entries@.len() && #[trigger] old(
                                self,
                            ).entries@[k].0@ == p;
                        if k < i {
                            assert(self.entries@[k].0@ == p);
                        } else {
                            assert(self.entries@[k - 1].0@ == p);
                        }
                    }
                }
                Some(entry)
            },
            None => {
                assert(self@ =~= dispatched(old(self)@, path@));
                None
            },
        }
    }
}

} // verus!
