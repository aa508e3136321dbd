//! The editor's option store: option names to their string values, one
//! value per name.

use vstd::prelude::*;
use crate::text::{owned, str_eq};
use crate::assoc::{assoc_map, keys_unique, lemma_assoc_index, lemma_assoc_push, lemma_assoc_update, lemma_assoc_dom};

verus! {

/// Each entry as its name and value.
pub open spec fn entry_views(es: Seq<(String, String)>) -> Seq<(Seq<char>, Seq<char>)> {
    es.map_values(|e: (String, String)| (e.0@, e.1@))
}

/// Option names and their values; setting a name again replaces its value.
#[derive(Debug, Clone, Default)]
pub struct OptionStore {
    entries: Vec<(String, String)>,
}

impl OptionStore {
    /// The entries, each name once.
    pub closed spec fn spec_entries(&self) -> Seq<(Seq<char>, Seq<char>)> {
        entry_views(self.entries@)
    }

    /// What each name is set to.
    pub open spec fn spec_map(&self) -> Map<Seq<char>, Seq<char>> {
        assoc_map(self.spec_entries())
    }

    /// No name occurs twice.
    pub open spec fn wf(&self) -> bool {
        keys_unique(self.spec_entries())
    }

    pub fn new() -> (s: Self)
        ensures
            s.wf(),
            s.spec_map() == Map::<Seq<char>, Seq<char>>::empty(),
    {
        let s = Self { entries: Vec::new() };
        assert(s.spec_entries() =~= Seq::<(Seq<char>, Seq<char>)>::empty());
        s
    }

    fn index_of(&self, name: &str) -> (r: Option<usize>)
        ensures
            match r {
                Some(i) => i < self.spec_entries().len() && self.spec_entries()[i as int].0 == name@,
                None => forall|k: int| 0 <= k < self.spec_entries().len() ==> (#[trigger] self.spec_entries()[k]).0 != name@,
            },
    {
        let mut i: usize = 0;
        while i < self.entries.len()
            invariant
                i <= self.entries@.len(),
                forall|k: int| 0 <= k < i ==> (#[trigger] self.spec_entries()[k]).0 != name@,
            decreases self.entries@.len() - i,
        {
            if str_eq(self.entries[i].0.as_str(), name) {
                return Some(i);
            }
            i += 1;
        }
        None
    }

    /// The value `name` is set to.
    pub fn get(&self, name: &str) -> (r: Option<&str>)
        requires
            self.wf(),
        ensures
            match r {
                Some(v) => self.spec_map().dom().contains(name@) && self.spec_map()[name@] == v@,
                None => !self.spec_map().dom().contains(name@),
            },
    {
        proof {
            lemma_assoc_dom(self.spec_entries(), name@);
        }
        match self.index_of(name) {
            Some(i) => {
                proof {
                    lemma_assoc_index(self.spec_entries(), i as int);
                }
                Some(self.entries[i].1.as_str())
            },
            None => None,
        }
    }

    /// Set `name` to `value`; says whether `name` was already set.
    pub fn set(&mut self, name: &str, value: &str) -> (had: bool)
        requires
            old(self).wf(),
        ensures
            final(self).wf(),
            final(self).spec_map() == old(self).spec_map().insert(name@, value@),
            had == old(self).spec_map().dom().contains(name@),
    {
        proof {
            lemma_assoc_dom(self.spec_entries(), name@);
        }
        let ghost es = self.spec_entries();
        match self.index_of(name) {
            Some(i) => {
                let ghost raw = self.entries@;
                self.entries.set(i, (owned(name), owned(value)));
                proof {
                    assert(self.spec_entries() =~= es.update(i as int, (es[i as int].0, value@)));
                    lemma_assoc_update(es, i as int, value@);
                }
                true
            },
            None => {
                self.entries.push((owned(name), owned(value)));
                proof {
                    assert(self.spec_entries() =~= es.push((name@, value@)));
                    lemma_assoc_push(es, name@, value@);
                }
                false
            },
        }
    }
}

} // verus!
