//! A small string-keyed map: an association list with pairwise-distinct
//! keys, viewed in specifications as a `Map` from character sequences to the
//! views of the stored values.
//!
//! Manifests (name to dependency specification), the persisted project
//! directory to workspace-id map, and the per-dependency file-signature
//! cache are all instances of it. Entry order is kept, so iterating a map
//! built from another visits names in the same order.

use vstd::prelude::*;
use crate::strops::str_eq;

verus! {

/// The `Map` that an association list denotes: later entries win, though
/// with `distinct_keys` there is at most one entry per key.
pub open spec fn kv_map<T>(s: Seq<(Seq<char>, T)>) -> Map<Seq<char>, T>
    decreases s.len(),
{
    if s.len() == 0 {
        Map::empty()
    } else {
        kv_map(s.drop_last()).insert(s.last().0, s.last().1)
    }
}

/// Pairwise-distinct keys.
pub open spec fn distinct_keys<T>(s: Seq<(Seq<char>, T)>) -> bool {
    forall|i: int, j: int| 0 <= i < j < s.len() ==> s[i].0 != s[j].0
}

/// A key is in the denoted map exactly when some entry carries it.
pub proof fn lemma_kv_contains<T>(s: Seq<(Seq<char>, T)>, k: Seq<char>)
    ensures
        kv_map(s).contains_key(k) <==> exists|i: int| 0 <= i < s.len() && s[i].0 == k,
    decreases s.len(),
{
    if s.len() > 0 {
        lemma_kv_contains(s.drop_last(), k);
        if k == s.last().0 {
            assert(s[s.len() - 1].0 == k);
            assert(kv_map(s).contains_key(k));
        } else {
            if exists|i: int| 0 <= i < s.drop_last().len() && s.drop_last()[i].0 == k {
                let i = choose|i: int| 0 <= i < s.drop_last().len() && s.drop_last()[i].0 == k;
                assert(s[i].0 == k);
            }
            if exists|i: int| 0 <= i < s.len() && s[i].0 == k {
                let i = choose|i: int| 0 <= i < s.len() && s[i].0 == k;
                assert(i < s.len() - 1);
                assert(s.drop_last()[i].0 == k);
            }
        }
    }
}

/// Under distinct keys, entry `i` is in the denoted map with its own value.
pub proof fn lemma_kv_index<T>(s: Seq<(Seq<char>, T)>, i: int)
    requires
        distinct_keys(s),
        0 <= i < s.len(),
    ensures
        kv_map(s).contains_key(s[i].0),
        kv_map(s)[s[i].0] == s[i].1,
    decreases s.len(),
{
    if i == s.len() - 1 {
        assert(kv_map(s) == kv_map(s.drop_last()).insert(s.last().0, s.last().1));
    } else {
        assert(s.drop_last()[i] == s[i]);
        lemma_kv_index(s.drop_last(), i);
        assert(s[i].0 != s.last().0);
    }
}

/// Removing entry `i` removes exactly its key from the denoted map.
pub proof fn lemma_kv_remove<T>(s: Seq<(Seq<char>, T)>, i: int)
    requires
        distinct_keys(s),
        0 <= i < s.len(),
    ensures
        distinct_keys(s.remove(i)),
        kv_map(s.remove(i)) =~= kv_map(s).remove(s[i].0),
    decreases s.len(),
{
    lemma_kv_contains(s.drop_last(), s[i].0);
    if i == s.len() - 1 {
        assert(s.remove(i) =~= s.drop_last());
        assert(!kv_map(s.drop_last()).contains_key(s[i].0));
        assert(kv_map(s.drop_last()) =~= kv_map(s.drop_last()).insert(
            s.last().0,
            s.last().1,
        ).remove(s[i].0));
    } else {
        assert(s.remove(i).drop_last() =~= s.drop_last().remove(i));
        assert(s.remove(i).last() == s.last());
        lemma_kv_remove(s.drop_last(), i);
        assert(kv_map(s.remove(i)) == kv_map(s.remove(i).drop_last()).insert(
            s.last().0,
            s.last().1,
        ));
        assert(s.drop_last()[i] == s[i]);
        assert(s[i].0 != s.last().0);
    }
}

/// A string-keyed map, stored as entries in insertion order.
pub struct StrMap<V> {
    entries: Vec<(String, V)>,
}

impl<V: View> StrMap<V> {
    /// The entries as key view / value view pairs, in storage order.
    pub closed spec fn kv_seq(&self) -> Seq<(Seq<char>, V::V)> {
        self.entries@.map_values(|p: (String, V)| (p.0@, p.1@))
    }

    /// The denoted map.
    pub open spec fn as_map(&self) -> Map<Seq<char>, V::V> {
        kv_map(self.kv_seq())
    }

    /// Well-formed: no key occurs twice.
    pub open spec fn wf(&self) -> bool {
        distinct_keys(self.kv_seq())
    }

    pub open spec fn spec_len(&self) -> nat {
        self.kv_seq().len()
    }

    /// Entry `i` is in the denoted map with its own value.
    pub proof fn lemma_entry_in_map(&self, i: int)
        requires
            self.wf(),
            0 <= i < self.spec_len(),
        ensures
            self.as_map().contains_key(self.kv_seq()[i].0),
            self.as_map()[self.kv_seq()[i].0] == self.kv_seq()[i].1,
    {
        lemma_kv_index(self.kv_seq(), i);
    }

    /// The map holds no key exactly when there are no entries.
    pub proof fn lemma_len_zero_iff_no_keys(&self)
        requires
            self.wf(),
        ensures
            (self.spec_len() == 0) <==> (forall|k: Seq<char>| !self.as_map().contains_key(k)),
    {
        if self.spec_len() > 0 {
            self.lemma_entry_in_map(0);
        }
    }

    /// Every key of the denoted map is carried by some entry.
    pub proof fn lemma_map_covered(&self, k: Seq<char>)
        requires
            self.as_map().contains_key(k),
        ensures
            exists|i: int| 0 <= i < self.spec_len() && self.kv_seq()[i].0 == k,
    {
        lemma_kv_contains(self.kv_seq(), k);
    }

    pub fn new() -> (r: Self)
        ensures
            r.wf(),
            r.as_map() == Map::<Seq<char>, V::V>::empty(),
            r.spec_len() == 0,
    {
        let r = StrMap { entries: Vec::new() };
        proof {
            assert(r.kv_seq() =~= Seq::<(Seq<char>, V::V)>::empty());
        }
        r
    }

    pub fn len(&self) -> (r: usize)
        ensures
            r == self.spec_len(),
    {
        self.entries.len()
    }

    pub fn key_at(&self, i: usize) -> (r: &String)
        requires
            i < self.spec_len(),
        ensures
            r@ == self.kv_seq()[i as int].0,
    {
        &self.entries[i].0
    }

    pub fn value_at(&self, i: usize) -> (r: &V)
        requires
            i < self.spec_len(),
        ensures
            r@ == self.kv_seq()[i as int].1,
    {
        &self.entries[i].1
    }

    /// Looks a key up by scanning the entries.
    pub fn get<'a>(&'a self, key: &str) -> (r: Option<&'a V>)
        requires
            self.wf(),
        ensures
            match r {
                Some(v) => self.as_map().contains_key(key@) && v@ == self.as_map()[key@],
                None => !self.as_map().contains_key(key@),
            },
    {
        let n = self.entries.len();
        let mut i: usize = 0;
        while i < n
            invariant
                self.wf(),
                n == self.spec_len(),
                i <= n,
                forall|j: int| 0 <= j < i ==> self.kv_seq()[j].0 != key@,
            decreases n - i,
        {
            if str_eq(self.entries[i].0.as_str(), key) {
                proof {
                    self.lemma_entry_in_map(i as int);
                }
                return Some(&self.entries[i].1);
            }
            i = i + 1;
        }
        proof {
            lemma_kv_contains(self.kv_seq(), key@);
        }
        None
    }

    /// Whether a key is present.
    pub fn contains_key(&self, key: &str) -> (r: bool)
        requires
            self.wf(),
        ensures
            r == self.as_map().contains_key(key@),
    {
        self.get(key).is_some()
    }

    /// Adds an entry for a key not yet present.
    pub fn insert(&mut self, key: String, value: V)
        requires
            old(self).wf(),
            !old(self).as_map().contains_key(key@),
        ensures
            final(self).wf(),
            final(self).as_map() == old(self).as_map().insert(key@, value@),
            final(self).kv_seq() == old(self).kv_seq().push((key@, value@)),
    {
        proof {
            lemma_kv_contains(self.kv_seq(), key@);
        }
        let ghost old_seq = self.kv_seq();
        self.entries.push((key, value));
        proof {
            assert(self.kv_seq() =~= old_seq.push((key@, value@)));
            assert(self.kv_seq().drop_last() =~= old_seq);
            assert(self.as_map() == kv_map(old_seq).insert(key@, value@));
        }
    }

    /// Removes a key's entry if present.
    pub fn remove(&mut self, key: &str)
        requires
            old(self).wf(),
        ensures
            final(self).wf(),
            final(self).as_map() == old(self).as_map().remove(key@),
    {
        let n = self.entries.len();
        let mut i: usize = 0;
        while i < n
            invariant
                self.wf(),
                n == self.spec_len(),
                i <= n,
                *self == *old(self),
                forall|j: int| 0 <= j < i ==> self.kv_seq()[j].0 != key@,
            decreases n - i,
        {
            if str_eq(self.entries[i].0.as_str(), key) {
                let ghost old_seq = self.kv_seq();
                self.entries.remove(i);
                proof {
                    assert(self.kv_seq() =~= old_seq.remove(i as int));
                    lemma_kv_remove(old_seq, i as int);
                }
                return ;
            }
            i = i + 1;
        }
        proof {
            lemma_kv_contains(self.kv_seq(), key@);
            assert(self.as_map() =~= self.as_map().remove(key@));
        }
    }
}

} // verus!
