//! The authoritative mapping from process name to live handle.
//!
//! The registry is a plain owned value: the embedding program constructs one
//! at startup, wraps it in whatever mutual exclusion it uses, and passes it to
//! every command handler. Its mathematical content is the finite map from
//! names to handle views, and every operation is specified against that map.

use vstd::prelude::*;

use crate::handle::HandleView;
use crate::handle::ProcessHandle;

verus! {

/// No two entries carry the same name.
pub open spec fn unique_names(s: Seq<ProcessHandle>) -> bool {
    forall|i: int, j: int| 0 <= i < j < s.len() ==> s[i].name@ != s[j].name@
}

/// Some entry carries the name `k`.
pub open spec fn has_name(s: Seq<ProcessHandle>, k: Seq<char>) -> bool {
    exists|i: int| 0 <= i < s.len() && s[i].name@ == k
}

/// The map an entry sequence denotes: later entries win, though under
/// `unique_names` no two entries ever compete.
pub open spec fn as_map(s: Seq<ProcessHandle>) -> Map<Seq<char>, HandleView>
    decreases s.len(),
{
    if s.len() == 0 {
        Map::empty()
    } else {
        as_map(s.drop_last()).insert(s.last().name@, s.last()@)
    }
}

/// A name is in the denoted map exactly when some entry carries it.
pub proof fn lemma_as_map_contains(s: Seq<ProcessHandle>, k: Seq<char>)
    ensures
        as_map(s).dom().contains(k) <==> has_name(s, k),
    decreases s.len(),
{
    if s.len() > 0 {
        lemma_as_map_contains(s.drop_last(), k);
        if has_name(s.drop_last(), k) {
            let i = choose|i: int| 0 <= i < s.drop_last().len() && s.drop_last()[i].name@ == k;
            assert(s[i].name@ == k);
        }
        if has_name(s, k) && s.last().name@ != k {
            let i = choose|i: int| 0 <= i < s.len() && s[i].name@ == k;
            assert(s.drop_last()[i].name@ == k);
        }
    }
}

/// Under unique names, the denoted map sends each entry's name to that
/// entry's view.
pub proof fn lemma_as_map_index(s: Seq<ProcessHandle>, i: int)
    requires
        unique_names(s),
        0 <= i < s.len(),
    ensures
        as_map(s).dom().contains(s[i].name@),
        as_map(s)[s[i].name@] == s[i]@,
    decreases s.len(),
{
    if i < s.len() - 1 {
        assert(s.drop_last()[i] == s[i]);
        lemma_as_map_index(s.drop_last(), i);
    }
}

/// Appending an entry inserts its name into the denoted map.
pub proof fn lemma_as_map_push(s: Seq<ProcessHandle>, h: ProcessHandle)
    ensures
        as_map(s.push(h)) == as_map(s).insert(h.name@, h@),
{
    assert(s.push(h).drop_last() =~= s);
}

/// Removing the entry at `i` removes its name from the denoted map.
pub proof fn lemma_as_map_remove(s: Seq<ProcessHandle>, i: int)
    requires
        unique_names(s),
        0 <= i < s.len(),
    ensures
        as_map(s.remove(i)) == as_map(s).remove(s[i].name@),
    decreases s.len(),
{
    if i == s.len() - 1 {
        assert(s.remove(i) =~= s.drop_last());
        lemma_as_map_contains(s.drop_last(), s[i].name@);
        assert(!has_name(s.drop_last(), s[i].name@)) by {
            if has_name(s.drop_last(), s[i].name@) {
                let j = choose|j: int|
                    0 <= j < s.drop_last().len() && s.drop_last()[j].name@ == s[i].name@;
                assert(s[j].name@ == s[i].name@);
            }
        }
        assert(as_map(s.drop_last()).insert(s.last().name@, s.last()@).remove(s[i].name@)
            =~= as_map(s.drop_last()));
    } else {
        let t = s.remove(i);
        assert(t.drop_last() =~= s.drop_last().remove(i));
        assert(t.len() == s.len() - 1);
        assert(t.last() == s.last());
        assert(unique_names(s.drop_last())) by {
            assert(forall|p: int, q: int|
                0 <= p < q < s.drop_last().len() ==> s.drop_last()[p] == s[p]
                    && s.drop_last()[q] == s[q]);
        }
        lemma_as_map_remove(s.drop_last(), i);
        assert(s[i].name@ != s.last().name@);
        assert(as_map(s.drop_last()).remove(s[i].name@).insert(s.last().name@, s.last()@)
            =~= as_map(s.drop_last()).insert(s.last().name@, s.last()@).remove(s[i].name@));
    }
}

/// Under unique names, the denoted map is finite and has one key per entry.
pub proof fn lemma_as_map_len(s: Seq<ProcessHandle>)
    requires
        unique_names(s),
    ensures
        as_map(s).dom().finite(),
        as_map(s).dom().len() == s.len(),
    decreases s.len(),
{
    if s.len() > 0 {
        assert(unique_names(s.drop_last())) by {
            assert(forall|p: int, q: int|
                0 <= p < q < s.drop_last().len() ==> s.drop_last()[p] == s[p]
                    && s.drop_last()[q] == s[q]);
        }
        lemma_as_map_len(s.drop_last());
        lemma_as_map_contains(s.drop_last(), s.last().name@);
        assert(!has_name(s.drop_last(), s.last().name@)) by {
            if has_name(s.drop_last(), s.last().name@) {
                let j = choose|j: int|
                    0 <= j < s.drop_last().len() && s.drop_last()[j].name@ == s.last().name@;
                assert(s[j].name@ == s[s.len() - 1].name@);
            }
        }
    }
}

/// The shared mapping `name -> ProcessHandle`: the single source of truth for
/// which servers are running.
pub struct Registry {
    entries: Vec<ProcessHandle>,
}

impl View for Registry {
    type V = Map<Seq<char>, HandleView>;

    closed spec fn view(&self) -> Map<Seq<char>, HandleView> {
        as_map(self.entries@)
    }
}

impl Registry {
    /// Entries carry pairwise distinct, non-empty names.
    pub closed spec fn wf(&self) -> bool {
        &&& unique_names(self.entries@)
        &&& forall|i: int| 0 <= i < self.entries@.len() ==> #[trigger] self.entries@[i].wf()
    }

    /// An empty registry: no server is running.
    pub fn new() -> (r: Registry)
        ensures
            r.wf(),
            r@ == Map::<Seq<char>, HandleView>::empty(),
            r@.dom().len() == 0,
    {
        let r = Registry { entries: Vec::new() };
        proof {
            lemma_as_map_len(r.entries@);
        }
        r
    }

    /// The index of the entry named `name`, if one exists.
    fn position(&self, name: &String) -> (r: Option<usize>)
        ensures
            match r {
                Some(i) => i < self.entries@.len() && self.entries@[i as int].name@ == name@,
                None => !has_name(self.entries@, name@),
            },
    {
        let n = self.entries.len();
        for i in 0..n
            invariant
                n == self.entries@.len(),
                forall|j: int| 0 <= j < i ==> self.entries@[j].name@ != name@,
        {
            if self.entries[i].name.eq(name) {
                return Some(i);
            }
        }
        None
    }

    /// How many servers are registered.
    pub fn len(&self) -> (r: usize)
        requires
            self.wf(),
        ensures
            r == self@.dom().len(),
    {
        proof {
            lemma_as_map_len(self.entries@);
        }
        self.entries.len()
    }

    /// Whether a server is registered under `name`.
    pub fn contains_name(&self, name: &String) -> (r: bool)
        ensures
            r == self@.dom().contains(name@),
    {
        proof {
            lemma_as_map_contains(self.entries@, name@);
        }
        self.position(name).is_some()
    }

    /// The handle registered under `name`, if any.
    pub fn get(&self, name: &String) -> (r: Option<&ProcessHandle>)
        requires
            self.wf(),
        ensures
            match r {
                Some(h) => {
                    &&& self@.dom().contains(name@)
                    &&& h@ == self@[name@]
                    &&& h.name@ == name@
                    &&& h.wf()
                },
                None => !self@.dom().contains(name@),
            },
    {
        proof {
            lemma_as_map_contains(self.entries@, name@);
        }
        match self.position(name) {
            Some(i) => {
                proof {
                    lemma_as_map_index(self.entries@, i as int);
                }
                Some(&self.entries[i])
            },
            None => None,
        }
    }

    /// Registers a handle under its (fresh) name.
    pub fn insert(&mut self, h: ProcessHandle)
        requires
            old(self).wf(),
            h.wf(),
            !old(self)@.dom().contains(h.name@),
        ensures
            final(self).wf(),
            final(self)@ == old(self)@.insert(h.name@, h@),
    {
        proof {
            lemma_as_map_contains(self.entries@, h.name@);
            lemma_as_map_push(self.entries@, h);
        }
        self.entries.push(h);
    }

    /// Unregisters and returns the handle under `name`; the registry is
    /// untouched when no entry carries that name.
    pub fn remove(&mut self, name: &String) -> (r: Option<ProcessHandle>)
        requires
            old(self).wf(),
        ensures
            final(self).wf(),
            match r {
                Some(h) => {
                    &&& old(self)@.dom().contains(name@)
                    &&& h@ == old(self)@[name@]
                    &&& h.wf()
                    &&& final(self)@ == old(self)@.remove(name@)
                },
                None => {
                    &&& !old(self)@.dom().contains(name@)
                    &&& final(self)@ == old(self)@
                },
            },
    {
        proof {
            lemma_as_map_contains(self.entries@, name@);
        }
        match self.position(name) {
            Some(i) => {
                proof {
                    lemma_as_map_index(self.entries@, i as int);
                    lemma_as_map_remove(self.entries@, i as int);
                    self.entries@.remove_ensures(i as int);
                }
                let h = self.entries.remove(i);
                Some(h)
            },
            None => None,
        }
    }
}

} // verus!
