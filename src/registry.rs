use vstd::prelude::*;
use crate::error::Error;

verus! {

/// Pools of connections, each registered under the logical name of its database.
pub struct Registry<P> {
    entries: Vec<(String, P)>,
    model: Ghost<Map<Seq<char>, P>>,
}

impl<P> View for Registry<P> {
    type V = Map<Seq<char>, P>;

    closed spec fn view(&self) -> Map<Seq<char>, P> {
        self.model@
    }
}

impl<P> Registry<P> {
    /// The entries hold each name once, and the model maps each name to its pool.
    pub closed spec fn wf(&self) -> bool {
        &&& forall|i: int, j: int|
            0 <= i < j < self.entries@.len() ==> self.entries@[i].0@ != self.entries@[j].0@
        &&& forall|i: int|
            0 <= i < self.entries@.len() ==> #[trigger] self.model@.contains_key(self.entries@[i].0@)
                && self.model@[self.entries@[i].0@] == self.entries@[i].1
        &&& forall|k: Seq<char>|
            #[trigger] self.model@.contains_key(k) ==> exists|i: int|
                0 <= i < self.entries@.len() && self.entries@[i].0@ == k
    }

    /// An empty registry.
    pub fn new() -> (r: Self)
        ensures
            r.wf(),
            r@ == Map::<Seq<char>, P>::empty(),
    {
        Registry { entries: Vec::new(), model: Ghost(Map::empty()) }
    }

    /// Index of the entry registered under `name`, if any.
    fn position(&self, name: &String) -> (r: Option<usize>)
        requires
            self.wf(),
        ensures
            r matches Some(i) ==> i < self.entries@.len() && self.entries@[i as int].0@ == name@,
            r is None ==> !self@.contains_key(name@),
    {
        let mut i: usize = 0;
        while i < self.entries.len()
            invariant
                self.wf(),
                i <= self.entries@.len(),
                forall|j: int| 0 <= j < i ==> self.entries@[j].0@ != name@,
            decreases self.entries@.len() - i,
        {
            if self.entries[i].0 == *name {
                return Some(i);
            }
            i = i + 1;
        }
        None
    }

    /// Registers `pool` under `name`, replacing any pool registered there before.
    pub fn load(&mut self, name: String, pool: P)
        requires
            old(self).wf(),
        ensures
            final(self).wf(),
            final(self)@ == old(self)@.insert(name@, pool),
    {
        let ghost key = name@;
        let ghost m = self.model@.insert(key, pool);
        match self.position(&name) {
            Some(i) => {
                self.entries.set(i, (name, pool));
                self.model = Ghost(m);
                assert forall|k: Seq<char>| #[trigger] self.model@.contains_key(k) implies exists|j: int|
                    0 <= j < self.entries@.len() && self.entries@[j].0@ == k by {
                    if k != key {
                        let j = choose|j: int| 0 <= j < old(self).entries@.len() && old(self).entries@[j].0@ == k;
                        assert(self.entries@[j].0@ == k);
                    } else {
                        assert(self.entries@[i as int].0@ == k);
                    }
                }
            },
            None => {
                proof {
                    assert forall|j: int| 0 <= j < self.entries@.len() implies self.entries@[j].0@ != key by {
                        assert(self.model@.contains_key(self.entries@[j].0@));
                    }
                }
                self.entries.push((name, pool));
                self.model = Ghost(m);
                assert forall|k: Seq<char>| #[trigger] self.model@.contains_key(k) implies exists|j: int|
                    0 <= j < self.entries@.len() && self.entries@[j].0@ == k by {
                    if k != key {
                        let j = choose|j: int| 0 <= j < old(self).entries@.len() && old(self).entries@[j].0@ == k;
                        assert(self.entries@[j].0@ == k);
                    } else {
                        assert(self.entries@[self.entries@.len() - 1].0@ == k);
                    }
                }
            },
        }
    }

    /// The pool registered under `name`; `DatabaseNotLoaded` with that name if there is none.
    pub fn resolve(&self, name: &String) -> (r: Result<&P, Error>)
        requires
            self.wf(),
        ensures
            r.is_ok() <==> self@.contains_key(name@),
            r matches Ok(p) ==> *p == self@[name@],
            r matches Err(e) ==> e matches Error::DatabaseNotLoaded(n) && n@ == name@,
    {
        match self.position(name) {
            Some(i) => {
                assert(self.model@.contains_key(self.entries@[i as int].0@));
                Ok(&self.entries[i].1)
            },
            None => Err(Error::DatabaseNotLoaded(name.clone())),
        }
    }

    /// Whether a pool is registered under `name`.
    pub fn is_loaded(&self, name: &String) -> (r: bool)
        requires
            self.wf(),
        ensures
            r == self@.contains_key(name@),
    {
        match self.position(name) {
            Some(i) => {
                assert(self.model@.contains_key(self.entries@[i as int].0@));
                true
            },
            None => false,
        }
    }
}

/// Loading a name twice leaves one pool under that name, the second one, and
/// the rest of the registry as a single load of the second pool would.
pub proof fn lemma_load_twice<P>(m: Map<Seq<char>, P>, name: Seq<char>, first: P, second: P)
    ensures
        m.insert(name, first).insert(name, second) == m.insert(name, second),
        m.insert(name, first).insert(name, second).contains_key(name),
        m.insert(name, first).insert(name, second)[name] == second,
{
    assert(m.insert(name, first).insert(name, second) =~= m.insert(name, second));
}

} // verus!
