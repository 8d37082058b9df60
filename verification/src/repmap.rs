//! The replacement map: a transient, insertion-ordered mapping from
//! placeholder name to substituted string, where a later entry for the
//! same name wins.
use vstd::prelude::*;
use crate::strx::str_eq;

verus! {

/// The mapping that a run of inserts leaves behind.
pub open spec fn entries_map(s: Seq<(String, String)>) -> Map<Seq<char>, Seq<char>>
    decreases s.len(),
{
    if s.len() == 0 {
        Map::empty()
    } else {
        entries_map(s.drop_last()).insert(s.last().0@, s.last().1@)
    }
}

pub struct RepMap {
    entries: Vec<(String, String)>,
}

impl View for RepMap {
    type V = Map<Seq<char>, Seq<char>>;

    closed spec fn view(&self) -> Map<Seq<char>, Seq<char>> {
        entries_map(self.entries@)
    }
}

proof fn lemma_entries_no_match(s: Seq<(String, String)>, key: Seq<char>)
    requires
        forall|k: int| 0 <= k < s.len() ==> s[k].0@ != key,
    ensures
        !entries_map(s).contains_key(key),
    decreases s.len(),
{
    if s.len() > 0 {
        assert(forall|k: int| 0 <= k < s.drop_last().len() ==> s.drop_last()[k].0@ != key);
        lemma_entries_no_match(s.drop_last(), key);
    }
}

proof fn lemma_entries_last_match(s: Seq<(String, String)>, j: int)
    requires
        0 <= j < s.len(),
        forall|k: int| j < k < s.len() ==> s[k].0@ != s[j].0@,
    ensures
        entries_map(s).contains_key(s[j].0@),
        entries_map(s)[s[j].0@] == s[j].1@,
    decreases s.len(),
{
    if j == s.len() - 1 {
    } else {
        assert(s.drop_last()[j] == s[j]);
        assert(forall|k: int|
            j < k < s.drop_last().len() ==> s.drop_last()[k].0@ != s.drop_last()[j].0@);
        lemma_entries_last_match(s.drop_last(), j);
    }
}

impl RepMap {
    /// An empty map.
    pub fn new() -> (r: RepMap)
        ensures
            r@ == Map::<Seq<char>, Seq<char>>::empty(),
    {
        RepMap { entries: Vec::new() }
    }

    /// Adds one entry; an existing entry of the same name is shadowed.
    pub fn insert(&mut self, name: String, value: String)
        ensures
            final(self)@ == old(self)@.insert(name@, value@),
    {
        let ghost before = self.entries@;
        self.entries.push((name, value));
        proof {
            assert(self.entries@.drop_last() =~= before);
        }
    }

    /// Looks a name up: the value of the latest entry under that name.
    pub fn get(&self, key: &str) -> (r: Option<&String>)
        ensures
            r is Some <==> self@.contains_key(key@),
            r matches Some(v) ==> self@[key@] == v@,
    {
        let mut i: usize = self.entries.len();
        while i > 0
            invariant
                i <= self.entries.len(),
                forall|k: int| i <= k < self.entries@.len() ==> self.entries@[k].0@ != key@,
            decreases i,
        {
            i = i - 1;
            if str_eq(self.entries[i].0.as_str(), key) {
                proof {
                    lemma_entries_last_match(self.entries@, i as int);
                }
                return Some(&self.entries[i].1);
            }
        }
        proof {
            lemma_entries_no_match(self.entries@, key@);
        }
        None
    }

    /// Whether a name is present.
    pub fn contains(&self, key: &str) -> (r: bool)
        ensures
            r == self@.contains_key(key@),
    {
        match self.get(key) {
            Some(_) => true,
            None => false,
        }
    }
}

} // verus!
