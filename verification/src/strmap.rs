//! A map from strings to strings, kept as a vector of key/value pairs with
//! pairwise-distinct keys. It stands in for the unordered string maps that
//! carry labels, annotations, environment variables and verbose status
//! information, and its view is a mathematical map over character sequences.
use vstd::prelude::*;

verus! {

/// The mathematical contents of a pair list: later pairs win.
pub open spec fn map_of(entries: Seq<(String, String)>) -> Map<Seq<char>, Seq<char>>
    decreases entries.len(),
{
    if entries.len() == 0 {
        Map::empty()
    } else {
        map_of(entries.drop_last()).insert(entries.last().0@, entries.last().1@)
    }
}

/// No two pairs share a key.
pub open spec fn keys_unique(entries: Seq<(String, String)>) -> bool {
    forall|i: int, j: int|
        0 <= i < j < entries.len() ==> entries[i].0@ != entries[j].0@
}

pub proof fn lemma_map_of_contains(entries: Seq<(String, String)>, k: Seq<char>)
    ensures
        map_of(entries).contains_key(k) <==> exists|i: int|
            0 <= i < entries.len() && entries[i].0@ == k,
    decreases entries.len(),
{
    if entries.len() > 0 {
        lemma_map_of_contains(entries.drop_last(), k);
        if entries.last().0@ == k {
            assert(entries[entries.len() - 1].0@ == k);
        } else if map_of(entries).contains_key(k) {
            let i = choose|i: int| 0 <= i < entries.drop_last().len() && entries.drop_last()[i].0@ == k;
            assert(entries[i].0@ == k);
        } else if exists|i: int| 0 <= i < entries.len() && entries[i].0@ == k {
            let i = choose|i: int| 0 <= i < entries.len() && entries[i].0@ == k;
            assert(entries.drop_last()[i].0@ == k);
        }
    }
}

pub proof fn lemma_map_of_index(entries: Seq<(String, String)>, i: int)
    requires
        keys_unique(entries),
        0 <= i < entries.len(),
    ensures
        map_of(entries).contains_key(entries[i].0@),
        map_of(entries)[entries[i].0@] == entries[i].1@,
    decreases entries.len(),
{
    if i == entries.len() - 1 {
    } else {
        assert(entries.drop_last()[i] == entries[i]);
        lemma_map_of_index(entries.drop_last(), i);
        assert(entries[entries.len() - 1].0@ != entries[i].0@);
    }
}

pub proof fn lemma_map_of_dom_finite(entries: Seq<(String, String)>)
    ensures
        map_of(entries).dom().finite(),
    decreases entries.len(),
{
    if entries.len() > 0 {
        lemma_map_of_dom_finite(entries.drop_last());
    }
}

pub proof fn lemma_map_of_dom_len(entries: Seq<(String, String)>)
    requires
        keys_unique(entries),
    ensures
        map_of(entries).dom().finite(),
        map_of(entries).dom().len() == entries.len(),
    decreases entries.len(),
{
    lemma_map_of_dom_finite(entries);
    if entries.len() > 0 {
        lemma_map_of_dom_len(entries.drop_last());
        lemma_map_of_dom_finite(entries.drop_last());
        lemma_map_of_contains(entries.drop_last(), entries.last().0@);
        assert(forall|i: int| 0 <= i < entries.drop_last().len() ==>
            entries.drop_last()[i].0@ != entries.last().0@);
        assert(!map_of(entries.drop_last()).contains_key(entries.last().0@));
        vstd::set::axiom_set_insert_len(map_of(entries.drop_last()).dom(), entries.last().0@);
        assert(map_of(entries).dom() =~= map_of(entries.drop_last()).dom().insert(
            entries.last().0@,
        ));
    }
}

/// Replacing the pair at a key's index updates that key alone.
pub proof fn lemma_map_of_update(entries: Seq<(String, String)>, i: int, p: (String, String))
    requires
        keys_unique(entries),
        0 <= i < entries.len(),
        entries[i].0@ == p.0@,
    ensures
        map_of(entries.update(i, p)) =~= map_of(entries).insert(p.0@, p.1@),
        keys_unique(entries.update(i, p)),
    decreases entries.len(),
{
    let updated = entries.update(i, p);
    assert(forall|j: int| 0 <= j < entries.len() && j != i ==> updated[j] == entries[j]);
    if i == entries.len() - 1 {
        assert(updated.drop_last() =~= entries.drop_last());
    } else {
        assert(updated.drop_last() =~= entries.drop_last().update(i, p));
        lemma_map_of_update(entries.drop_last(), i, p);
        assert(entries.last().0@ != p.0@);
        assert(updated.last() == entries.last());
        assert(map_of(updated) =~= map_of(entries).insert(p.0@, p.1@));
    }
}

/// Taking out the pair at a key's index takes that key alone out of the
/// contents.
pub proof fn lemma_map_of_remove(entries: Seq<(String, String)>, i: int)
    requires
        keys_unique(entries),
        0 <= i < entries.len(),
    ensures
        map_of(entries.remove(i)) =~= map_of(entries).remove(entries[i].0@),
        keys_unique(entries.remove(i)),
    decreases entries.len(),
{
    let removed = entries.remove(i);
    assert(forall|j: int| 0 <= j < i ==> removed[j] == entries[j]);
    assert(forall|j: int| i <= j < removed.len() ==> removed[j] == entries[j + 1]);
    if i == entries.len() - 1 {
        assert(removed =~= entries.drop_last());
        lemma_map_of_contains(entries.drop_last(), entries[i].0@);
        assert(forall|j: int| 0 <= j < entries.drop_last().len() ==> entries.drop_last()[j].0@
            != entries[i].0@);
        assert(!map_of(entries.drop_last()).contains_key(entries[i].0@));
        assert(map_of(removed) =~= map_of(entries).remove(entries[i].0@));
    } else {
        lemma_map_of_remove(entries.drop_last(), i);
        assert(removed.drop_last() =~= entries.drop_last().remove(i));
        assert(removed.last() == entries.last());
        assert(entries.last().0@ != entries[i].0@);
        assert(map_of(removed) =~= map_of(entries).remove(entries[i].0@));
    }
}

/// A string-keyed, string-valued map with a vector of pairs inside.
#[derive(Debug)]
pub struct StringMap {
    entries: Vec<(String, String)>,
}

impl View for StringMap {
    type V = Map<Seq<char>, Seq<char>>;

    closed spec fn view(&self) -> Map<Seq<char>, Seq<char>> {
        map_of(self.entries@)
    }
}

impl StringMap {
    /// Every key appears at most once.
    pub closed spec fn wf(&self) -> bool {
        keys_unique(self.entries@)
    }

    pub fn new() -> (r: StringMap)
        ensures
            r@ == Map::<Seq<char>, Seq<char>>::empty(),
            r.wf(),
    {
        StringMap { entries: Vec::new() }
    }

    pub fn len(&self) -> (n: usize)
        requires
            self.wf(),
        ensures
            self@.dom().finite(),
            n == self@.dom().len(),
    {
        proof {
            lemma_map_of_dom_len(self.entries@);
        }
        self.entries.len()
    }

    pub fn is_empty(&self) -> (r: bool)
        requires
            self.wf(),
        ensures
            r == (self@ == Map::<Seq<char>, Seq<char>>::empty()),
    {
        proof {
            lemma_map_of_dom_len(self.entries@);
            if self.entries@.len() == 0 {
                assert(self@ =~= Map::<Seq<char>, Seq<char>>::empty());
            } else {
                lemma_map_of_index(self.entries@, 0);
            }
        }
        self.entries.len() == 0
    }

    pub fn contains_key(&self, key: &String) -> (r: bool)
        requires
            self.wf(),
        ensures
            r == self@.contains_key(key@),
    {
        proof {
            lemma_map_of_contains(self.entries@, key@);
        }
        let n = self.entries.len();
        let mut i: usize = 0;
        while i < n
            invariant
                self.wf(),
                n == self.entries.len(),
                0 <= i <= n,
                forall|j: int| 0 <= j < i ==> self.entries@[j].0@ != key@,
            decreases n - i,
        {
            if self.entries[i].0 == *key {
                proof {
                    lemma_map_of_index(self.entries@, i as int);
                }
                return true;
            }
            i = i + 1;
        }
        false
    }

    pub fn get(&self, key: &String) -> (r: Option<&String>)
        requires
            self.wf(),
        ensures
            match r {
                Some(v) => self@.contains_key(key@) && v@ == self@[key@],
                None => !self@.contains_key(key@),
            },
    {
        proof {
            lemma_map_of_contains(self.entries@, key@);
        }
        let n = self.entries.len();
        let mut i: usize = 0;
        while i < n
            invariant
                self.wf(),
                n == self.entries.len(),
                0 <= i <= n,
                forall|j: int| 0 <= j < i ==> self.entries@[j].0@ != key@,
            decreases n - i,
        {
            if self.entries[i].0 == *key {
                proof {
                    lemma_map_of_index(self.entries@, i as int);
                }
                return Some(&self.entries[i].1);
            }
            i = i + 1;
        }
        None
    }

    pub fn insert(&mut self, key: String, value: String)
        requires
            old(self).wf(),
        ensures
            final(self).wf(),
            final(self)@ == old(self)@.insert(key@, value@),
    {
        let n = self.entries.len();
        let mut i: usize = 0;
        while i < n
            invariant
                self == old(self),
                self.wf(),
                n == self.entries.len(),
                0 <= i <= n,
                forall|j: int| 0 <= j < i ==> self.entries@[j].0@ != key@,
            decreases n - i,
        {
            if self.entries[i].0 == key {
                proof {
                    lemma_map_of_update(self.entries@, i as int, (key, value));
                }
                self.entries.set(i, (key, value));
                return ;
            }
            i = i + 1;
        }
        proof {
            assert(self.entries@.push((key, value)).drop_last() =~= self.entries@);
        }
        self.entries.push((key, value));
    }

    /// Drop the pair with this key, where one exists.
    pub fn remove(&mut self, key: &String)
        requires
            old(self).wf(),
        ensures
            final(self).wf(),
            final(self)@ == old(self)@.remove(key@),
    {
        let n = self.entries.len();
        let mut i: usize = 0;
        while i < n
            invariant
                self == old(self),
                self.wf(),
                n == self.entries.len(),
                0 <= i <= n,
                forall|j: int| 0 <= j < i ==> self.entries@[j].0@ != key@,
            decreases n - i,
        {
            if self.entries[i].0 == *key {
                proof {
                    lemma_map_of_remove(self.entries@, i as int);
                }
                self.entries.remove(i);
                return ;
            }
            i = i + 1;
        }
        proof {
            lemma_map_of_contains(self.entries@, key@);
            assert(self@ =~= self@.remove(key@));
        }
    }

    /// The pairs themselves, for callers that walk the whole map.
    pub fn items(&self) -> (r: &Vec<(String, String)>)
        ensures
            map_of(r@) == self@,
            keys_unique(r@) == self.wf(),
            forall|i: int| 0 <= i < r@.len() ==> self@.contains_key(#[trigger] r@[i].0@)
                && (self.wf() ==> self@[r@[i].0@] == r@[i].1@),
    {
        proof {
            assert forall|i: int| 0 <= i < self.entries@.len() implies self@.contains_key(
                #[trigger] self.entries@[i].0@,
            ) && (self.wf() ==> self@[self.entries@[i].0@] == self.entries@[i].1@) by {
                lemma_map_of_contains(self.entries@, self.entries@[i].0@);
                if self.wf() {
                    lemma_map_of_index(self.entries@, i);
                }
            }
        }
        &self.entries
    }
}

impl Clone for StringMap {
    fn clone(&self) -> (r: Self)
        ensures
            r@ == self@,
            r.wf() == self.wf(),
    {
        let n = self.entries.len();
        let mut out: Vec<(String, String)> = Vec::new();
        let mut i: usize = 0;
        while i < n
            invariant
                n == self.entries.len(),
                0 <= i <= n,
                out@.len() == i,
                forall|j: int| 0 <= j < i ==> out@[j].0@ == self.entries@[j].0@
                    && out@[j].1@ == self.entries@[j].1@,
            decreases n - i,
        {
            let k = self.entries[i].0.clone();
            let v = self.entries[i].1.clone();
            out.push((k, v));
            i = i + 1;
        }
        proof {
            lemma_map_of_congruence(out@, self.entries@);
        }
        StringMap { entries: out }
    }
}

/// Pair lists whose keys and values agree as character sequences
/// have the same map contents.
pub proof fn lemma_map_of_congruence(a: Seq<(String, String)>, b: Seq<(String, String)>)
    requires
        a.len() == b.len(),
        forall|i: int| 0 <= i < a.len() ==> a[i].0@ == b[i].0@ && a[i].1@ == b[i].1@,
    ensures
        map_of(a) =~= map_of(b),
        keys_unique(a) == keys_unique(b),
    decreases a.len(),
{
    if a.len() > 0 {
        assert(forall|i: int| 0 <= i < a.drop_last().len() ==> a.drop_last()[i] == a[i]
            && b.drop_last()[i] == b[i]);
        lemma_map_of_congruence(a.drop_last(), b.drop_last());
    }
}

/// Every pair of `search` is present in `target` with the same value.
pub open spec fn submap_of(search: Map<Seq<char>, Seq<char>>, target: Map<Seq<char>, Seq<char>>) -> bool {
    forall|k: Seq<char>| #[trigger] search.contains_key(k) ==> target.contains_key(k)
        && target[k] == search[k]
}

/// Whether every label the filter asks for is present with the asked value.
pub fn has_labels(search_labels: &StringMap, target_labels: &StringMap) -> (r: bool)
    requires
        search_labels.wf(),
        target_labels.wf(),
    ensures
        r == submap_of(search_labels@, target_labels@),
{
    let search = search_labels.items();
    let n = search.len();
    let mut i: usize = 0;
    while i < n
        invariant
            search_labels.wf(),
            target_labels.wf(),
            map_of(search@) == search_labels@,
            n == search@.len(),
            0 <= i <= n,
            forall|j: int| 0 <= j < search@.len() ==> search_labels@.contains_key(
                #[trigger] search@[j].0@,
            ) && search_labels@[search@[j].0@] == search@[j].1@,
            forall|j: int| 0 <= j < i ==> target_labels@.contains_key(#[trigger] search@[j].0@)
                && target_labels@[search@[j].0@] == search@[j].1@,
        decreases n - i,
    {
        let matched = match target_labels.get(&search[i].0) {
            Some(v) => *v == search[i].1,
            None => false,
        };
        if !matched {
            proof {
                assert(search_labels@.contains_key(search@[i as int].0@));
            }
            return false;
        }
        i = i + 1;
    }
    proof {
        assert forall|k: Seq<char>| #[trigger] search_labels@.contains_key(k) implies
            target_labels@.contains_key(k) && target_labels@[k] == search_labels@[k] by {
            lemma_map_of_contains(search@, k);
            let j = choose|j: int| 0 <= j < search@.len() && search@[j].0@ == k;
            assert(target_labels@.contains_key(search@[j].0@));
        }
    }
    true
}

} // verus!
