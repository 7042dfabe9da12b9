use vstd::prelude::*;
use vstd::hash_map::StringHashMap;
use vstd::multiset::Multiset;

verus! {

/// A tally of text units: each distinct unit once, with the number of times
/// it was seen.
///
/// Its view is the multiset of the units seen; the count of a unit that was
/// never seen is zero, and such a unit has no entry.
pub struct FrequencyMap {
    entries: Vec<(String, usize)>,
    index: StringHashMap<usize>,
    total: usize,
    tally: Ghost<Multiset<Seq<char>>>,
}

impl View for FrequencyMap {
    type V = Multiset<Seq<char>>;

    closed spec fn view(&self) -> Multiset<Seq<char>> {
        self.tally@
    }
}

impl FrequencyMap {
    /// The entries hold distinct units with their exact, nonzero counts,
    /// every unit of the tally has an entry, and the index maps each unit to
    /// the position of its entry.
    pub closed spec fn wf(&self) -> bool {
        &&& forall|i: int|
            0 <= i < self.entries@.len() ==> #[trigger] self.index@.contains_key(
                self.entries@[i].0@,
            ) && self.index@[self.entries@[i].0@] == i
        &&& forall|k: Seq<char>|
            #[trigger] self.index@.contains_key(k) ==> self.index@[k] < self.entries@.len()
                && self.entries@[self.index@[k] as int].0@ == k
        &&& forall|i: int, j: int|
            0 <= i < j < self.entries@.len() ==> self.entries@[i].0@ != self.entries@[j].0@
        &&& forall|i: int|
            0 <= i < self.entries@.len() ==> {
                &&& #[trigger] self.entries@[i].1 > 0
                &&& self.entries@[i].1 as nat == self.tally@.count(self.entries@[i].0@)
            }
        &&& forall|k: Seq<char>|
            #[trigger] self.tally@.count(k) > 0 ==> exists|i: int|
                0 <= i < self.entries@.len() && self.entries@[i].0@ == k
        &&& self.total as nat == self.tally@.len()
    }

    /// An empty tally.
    pub fn new() -> (r: FrequencyMap)
        ensures
            r.wf(),
            r@ =~= Multiset::empty(),
    {
        FrequencyMap {
            entries: Vec::new(),
            index: StringHashMap::new(),
            total: 0,
            tally: Ghost(Multiset::empty()),
        }
    }

    /// The index of the entry for `key`, if there is one.
    fn position(&self, key: &String) -> (r: Option<usize>)
        requires
            self.wf(),
        ensures
            match r {
                Some(i) => i < self.entries@.len() && self.entries@[i as int].0@ == key@,
                None => forall|i: int|
                    0 <= i < self.entries@.len() ==> self.entries@[i].0@ != key@,
            },
    {
        match self.index.get(key.as_str()) {
            Some(i) => Some(*i),
            None => {
                assert forall|i: int| 0 <= i < self.entries@.len() implies self.entries@[i].0@
                    != key@ by {
                    assert(self.index@.contains_key(self.entries@[i].0@));
                }
                None
            },
        }
    }

    /// Counts one more occurrence of `key`.
    pub fn add(&mut self, key: String)
        requires
            old(self).wf(),
            old(self)@.len() < usize::MAX,
        ensures
            final(self).wf(),
            final(self)@ == old(self)@.insert(key@),
    {
        let ghost k = key@;
        let ghost before = self.tally@;
        broadcast use vstd::multiset::group_multiset_axioms;

        let ghost mut at: int = 0;
        match self.position(&key) {
            Some(i) => {
                let c = self.entries[i].1;
                assert(c as nat == before.count(k));
                self.entries[i] = (key, c + 1);
                proof {
                    at = i as int;
                }
            },
            None => {
                assert(before.count(k) == 0);
                let n = self.entries.len();
                self.index.insert(key.clone(), n);
                self.entries.push((key, 1));
                proof {
                    at = self.entries@.len() - 1;
                }
            },
        }
        assert(self.entries@[at].0@ == k);
        self.total = self.total + 1;
        self.tally = Ghost(before.insert(k));
        assert forall|k2: Seq<char>| #[trigger] self.tally@.count(k2) > 0 implies exists|i: int|
            0 <= i < self.entries@.len() && self.entries@[i].0@ == k2 by {
            if k2 != k {
                assert(before.count(k2) > 0);
                let j = choose|j: int| 0 <= j < old(self).entries@.len() && old(self).entries@[j].0@ == k2;
                assert(self.entries@[j].0@ == k2);
            } else {
                assert(self.entries@[at].0@ == k2);
            }
        }
    }

    /// How often `key` was seen, or `None` for a unit that never was.
    pub fn get(&self, key: &str) -> (r: Option<usize>)
        requires
            self.wf(),
        ensures
            match r {
                Some(c) => c > 0 && c as nat == self@.count(key@),
                None => self@.count(key@) == 0,
            },
    {
        let owned = key.to_owned();
        match self.position(&owned) {
            Some(i) => Some(self.entries[i].1),
            None => {
                proof {
                    if self@.count(key@) > 0 {
                        let j = choose|j: int| 0 <= j < self.entries@.len() && self.entries@[j].0@ == key@;
                    }
                }
                None
            },
        }
    }

    /// The sum of all counts: the number of units seen.
    pub fn total(&self) -> (r: usize)
        requires
            self.wf(),
        ensures
            r as nat == self@.len(),
    {
        self.total
    }

    /// The number of units seen fits in a `usize`.
    pub proof fn lemma_total_fits(&self)
        requires
            self.wf(),
        ensures
            self@.len() <= usize::MAX,
    {
    }

    /// The entries, each distinct unit once with its count, in no set order.
    pub fn into_entries(self) -> (r: Vec<(String, usize)>)
        requires
            self.wf(),
        ensures
            forall|i: int, j: int| 0 <= i < j < r@.len() ==> r@[i].0@ != r@[j].0@,
            forall|i: int|
                0 <= i < r@.len() ==> #[trigger] r@[i].1 > 0 && r@[i].1 as nat == self@.count(
                    r@[i].0@,
                ),
            forall|k: Seq<char>|
                #[trigger] self@.count(k) > 0 ==> exists|i: int| 0 <= i < r@.len() && r@[i].0@ == k,
    {
        self.entries
    }
}

} // verus!
