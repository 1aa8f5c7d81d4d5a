//! The alias table: mailboxes, each with its ordered list of destinations.

use vstd::prelude::*;

verus! {

/// The characters of each string of `v`.
pub open spec fn views(v: Seq<String>) -> Seq<Seq<char>> {
    v.map_values(|s: String| s@)
}

/// One mailbox and the addresses its mail is redirected to.
#[derive(Clone, Debug)]
pub struct AliasEntry {
    pub mailbox: String,
    pub destinations: Vec<String>,
}

impl View for AliasEntry {
    type V = (Seq<char>, Seq<Seq<char>>);

    open spec fn view(&self) -> (Seq<char>, Seq<Seq<char>>) {
        (self.mailbox@, views(self.destinations@))
    }
}

/// The model of a table: its entries, in the order in which they were first added.
pub type Entries = Seq<(Seq<char>, Seq<Seq<char>>)>;

/// No two entries share a key.
pub open spec fn keys_unique<V>(es: Seq<(Seq<char>, V)>) -> bool {
    forall|i: int, j: int| 0 <= i < j < es.len() ==> es[i].0 != es[j].0
}

/// Whether some entry has key `k`.
pub open spec fn has_key<V>(es: Seq<(Seq<char>, V)>, k: Seq<char>) -> bool {
    exists|i: int| 0 <= i < es.len() && es[i].0 == k
}

/// `es` with the value of `k` set to `v`: the entry of `k` is replaced in
/// place where there is one, and a new entry is appended otherwise.
pub open spec fn put<V>(es: Seq<(Seq<char>, V)>, k: Seq<char>, v: V) -> Seq<(Seq<char>, V)> {
    if has_key(es, k) {
        es.update(choose|i: int| 0 <= i < es.len() && es[i].0 == k, (k, v))
    } else {
        es.push((k, v))
    }
}

/// The value of `k` in `es`, if `k` has an entry.
pub open spec fn lookup<V>(es: Seq<(Seq<char>, V)>, k: Seq<char>) -> Option<V> {
    if has_key(es, k) {
        Some(es[choose|i: int| 0 <= i < es.len() && es[i].0 == k].1)
    } else {
        None
    }
}

/// `es` without the entry of `k`.
pub open spec fn without(es: Entries, k: Seq<char>) -> Entries {
    if has_key(es, k) {
        es.remove(choose|i: int| 0 <= i < es.len() && es[i].0 == k)
    } else {
        es
    }
}

/// Some mailbox of `es` has no destination.
pub open spec fn has_empty_list(es: Entries) -> bool {
    exists|i: int| 0 <= i < es.len() && es[i].1.len() == 0
}

/// A copy of the strings of `v`.
pub fn copy_strings(v: &Vec<String>) -> (r: Vec<String>)
    ensures
        r@ == v@,
{
    let mut r: Vec<String> = Vec::new();
    let mut i: usize = 0;
    while i < v.len()
        invariant
            i <= v@.len(),
            r@ == v@.take(i as int),
        decreases v@.len() - i,
    {
        r.push(v[i].clone());
        i = i + 1;
        assert(r@ =~= v@.take(i as int));
    }
    assert(v@.take(v@.len() as int) =~= v@);
    r
}

/// A table of redirections keyed by mailbox.
#[derive(Clone, Debug)]
pub struct AliasTable {
    entries: Vec<AliasEntry>,
}

impl View for AliasTable {
    type V = Entries;

    closed spec fn view(&self) -> Entries {
        self.entries@.map_values(|e: AliasEntry| e@)
    }
}

impl AliasTable {
    /// Mailboxes are unique.
    pub open spec fn wf(&self) -> bool {
        keys_unique(self@)
    }

    /// An empty table.
    pub fn new() -> (r: AliasTable)
        ensures
            r.wf(),
            r@ == Seq::<(Seq<char>, Seq<Seq<char>>)>::empty(),
    {
        let r = AliasTable { entries: Vec::new() };
        assert(r@ =~= Seq::<(Seq<char>, Seq<Seq<char>>)>::empty());
        r
    }

    /// The number of mailboxes.
    pub fn len(&self) -> (r: usize)
        ensures
            r == self@.len(),
    {
        self.entries.len()
    }

    /// The entries, in order.
    pub fn entries(&self) -> (r: &Vec<AliasEntry>)
        ensures
            r@.map_values(|e: AliasEntry| e@) == self@,
    {
        &self.entries
    }

    /// A copy of the table.
    pub fn duplicate(&self) -> (r: AliasTable)
        ensures
            r@ == self@,
    {
        let mut entries: Vec<AliasEntry> = Vec::new();
        let mut i: usize = 0;
        while i < self.entries.len()
            invariant
                i <= self.entries@.len(),
                entries@.map_values(|e: AliasEntry| e@) == self@.take(i as int),
            decreases self.entries@.len() - i,
        {
            let e = &self.entries[i];
            let ghost before = entries@;
            let c = AliasEntry {
                mailbox: e.mailbox.clone(),
                destinations: copy_strings(&e.destinations),
            };
            assert(c@ == self@[i as int]);
            entries.push(c);
            assert(entries@ == before.push(c));
            assert(entries@.map_values(|e: AliasEntry| e@) =~= before.map_values(
                |e: AliasEntry| e@,
            ).push(c@));
            i = i + 1;
            assert(entries@.map_values(|e: AliasEntry| e@) =~= self@.take(i as int));
        }
        let r = AliasTable { entries };
        assert(self@.take(self.entries@.len() as int) =~= self@);
        r
    }

    /// Sets the destinations of `mailbox`, replacing those it had.
    pub fn insert(&mut self, mailbox: String, destinations: Vec<String>)
        requires
            old(self).wf(),
        ensures
            final(self).wf(),
            final(self)@ == put(old(self)@, mailbox@, views(destinations@)),
    {
        let ghost k = mailbox@;
        let ghost v = views(destinations@);
        match self.position(&mailbox) {
            Some(i) => {
                self.entries.set(i, AliasEntry { mailbox, destinations });
                assert(self@ =~= old(self)@.update(i as int, (k, v)));
            },
            None => {
                self.entries.push(AliasEntry { mailbox, destinations });
                assert(self@ =~= old(self)@.push((k, v)));
            },
        }
    }

    /// The destinations of `mailbox`, if it has an entry.
    pub fn get(&self, mailbox: &str) -> (r: Option<&Vec<String>>)
        requires
            self.wf(),
        ensures
            match r {
                Some(v) => lookup(self@, mailbox@) == Some(views(v@)),
                None => lookup(self@, mailbox@) is None,
            },
    {
        let key = <String as vstd::string::StringExecFns>::from_str(mailbox);
        match self.position(&key) {
            Some(i) => Some(&self.entries[i].destinations),
            None => None,
        }
    }

    /// Removes the entry of `mailbox` and returns its destinations, if it had one.
    pub fn remove(&mut self, mailbox: &str) -> (r: Option<Vec<String>>)
        requires
            old(self).wf(),
        ensures
            final(self).wf(),
            final(self)@ == without(old(self)@, mailbox@),
            match r {
                Some(v) => lookup(old(self)@, mailbox@) == Some(views(v@)),
                None => lookup(old(self)@, mailbox@) is None,
            },
    {
        let key = <String as vstd::string::StringExecFns>::from_str(mailbox);
        match self.position(&key) {
            Some(i) => {
                let e = self.entries.remove(i);
                assert(self@ =~= old(self)@.remove(i as int));
                Some(e.destinations)
            },
            None => None,
        }
    }

    /// Whether some mailbox has no destination left.
    pub fn has_empty_destinations(&self) -> (r: bool)
        ensures
            r == has_empty_list(self@),
    {
        let mut i: usize = 0;
        while i < self.entries.len()
            invariant
                i <= self.entries@.len(),
                forall|j: int| 0 <= j < i ==> self@[j].1.len() != 0,
            decreases self.entries@.len() - i,
        {
            if self.entries[i].destinations.len() == 0 {
                assert(self@[i as int].1.len() == 0);
                return true;
            }
            i = i + 1;
        }
        false
    }

    /// The position of the entry of `mailbox`, if there is one.
    fn position(&self, mailbox: &String) -> (r: Option<usize>)
        requires
            self.wf(),
        ensures
            match r {
                Some(i) => i < self@.len() && self@[i as int].0 == mailbox@,
                None => !has_key(self@, mailbox@),
            },
    {
        let mut i: usize = 0;
        while i < self.entries.len()
            invariant
                i <= self.entries@.len(),
                forall|j: int| 0 <= j < i ==> self@[j].0 != mailbox@,
            decreases self.entries@.len() - i,
        {
            if self.entries[i].mailbox == *mailbox {
                return Some(i);
            }
            i = i + 1;
        }
        None
    }
}

} // verus!
