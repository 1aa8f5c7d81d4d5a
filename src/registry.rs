//! The sessions, one per server, kept under the server's extended name.

use vstd::prelude::*;

use crate::alias::{has_key, lookup, put};

verus! {

/// Sessions of type `S`, each under a key of its own.
pub struct SessionRegistry<S> {
    keys: Vec<String>,
    sessions: Vec<S>,
}

/// Each key with the session at the same position.
spec fn pairs<S>(keys: Seq<String>, sessions: Seq<S>) -> Seq<(Seq<char>, S)> {
    Seq::new(keys.len(), |i: int| (keys[i]@, sessions[i]))
}

proof fn lemma_pairs_update<S>(keys: Seq<String>, sessions: Seq<S>, i: int, v: S)
    requires
        0 <= i < keys.len() == sessions.len(),
    ensures
        pairs(keys, sessions.update(i, v)) == pairs(keys, sessions).update(i, (keys[i]@, v)),
{
    assert(pairs(keys, sessions.update(i, v)) =~= pairs(keys, sessions).update(i, (keys[i]@, v)));
}

impl<S> View for SessionRegistry<S> {
    type V = Seq<(Seq<char>, S)>;

    closed spec fn view(&self) -> Seq<(Seq<char>, S)> {
        pairs(self.keys@, self.sessions@)
    }
}

impl<S> SessionRegistry<S> {
    /// Keys are unique and each has its session.
    pub closed spec fn wf(&self) -> bool {
        &&& self.keys@.len() == self.sessions@.len()
        &&& forall|i: int, j: int|
            0 <= i < j < self.keys@.len() ==> self.keys@[i]@ != self.keys@[j]@
    }

    /// A registry without sessions.
    pub fn new() -> (r: SessionRegistry<S>)
        ensures
            r.wf(),
            r@ == Seq::<(Seq<char>, S)>::empty(),
    {
        let r = SessionRegistry { keys: Vec::new(), sessions: Vec::new() };
        assert(r@ =~= Seq::<(Seq<char>, S)>::empty());
        r
    }

    /// The number of sessions.
    pub fn len(&self) -> (r: usize)
        requires
            self.wf(),
        ensures
            r == self@.len(),
    {
        self.keys.len()
    }

    fn position(&self, key: &String) -> (r: Option<usize>)
        requires
            self.wf(),
        ensures
            match r {
                Some(i) => i < self@.len() && self@[i as int].0 == key@,
                None => !has_key(self@, key@),
            },
    {
        let mut i: usize = 0;
        while i < self.keys.len()
            invariant
                self.wf(),
                i <= self.keys@.len(),
                forall|j: int| 0 <= j < i ==> self@[j].0 != key@,
            decreases self.keys@.len() - i,
        {
            if self.keys[i] == *key {
                return Some(i);
            }
            i = i + 1;
        }
        None
    }

    /// Keeps `session` under `key`, in place of the session that was there.
    pub fn insert(&mut self, key: String, session: S)
        requires
            old(self).wf(),
        ensures
            final(self).wf(),
            final(self)@ == put(old(self)@, key@, session),
    {
        let ghost k = key@;
        match self.position(&key) {
            Some(i) => {
                self.sessions.set(i, session);
                assert(self@ =~= old(self)@.update(i as int, (k, session)));
            },
            None => {
                assert forall|j: int| 0 <= j < self.keys@.len() implies self.keys@[j]@ != k by {
                    assert(self@[j].0 == self.keys@[j]@);
                }
                self.keys.push(key);
                self.sessions.push(session);
                assert(self@ =~= old(self)@.push((k, session)));
            },
        }
    }

    /// Whether a session is kept under `key`.
    pub fn contains(&self, key: &String) -> (r: bool)
        requires
            self.wf(),
        ensures
            r == has_key(self@, key@),
    {
        self.position(key).is_some()
    }

    /// The session kept under `key`, to work with, if there is one.
    pub fn get_mut(&mut self, key: &String) -> (r: Option<&mut S>)
        requires
            old(self).wf(),
        ensures
            final(self).wf(),
            match r {
                Some(s) => lookup(old(self)@, key@) == Some(*s) && final(self)@ == put(
                    old(self)@,
                    key@,
                    *final(s),
                ),
                None => lookup(old(self)@, key@) is None && final(self)@ == old(self)@,
            },
    {
        match self.position(key) {
            Some(i) => {
                let ghost before = self.sessions@;
                let s = &mut self.sessions[i];
                proof {
                    lemma_pairs_update(self.keys@, before, i as int, *final(s));
                }
                Some(s)
            },
            None => None,
        }
    }
}

} // verus!
