//! A string-keyed table whose entries are kept in ascending key order, the
//! order in which a `BTreeMap<String, _>` yields them.
use vstd::prelude::*;

use crate::strs::{
    lemma_seq_lt_irreflexive, lemma_seq_lt_total, lemma_seq_lt_transitive, seq_lt, str_eq, str_lt,
};

verus! {

/// Entries are in strictly ascending key order, so no key occurs twice.
pub open spec fn sorted_keys<T>(s: Seq<(Seq<char>, T)>) -> bool {
    forall|i: int, j: int| 0 <= i < j < s.len() ==> seq_lt(#[trigger] s[i].0, #[trigger] s[j].0)
}

/// The value stored under `k`: that of the first entry with key `k`.
pub open spec fn lookup<T>(s: Seq<(Seq<char>, T)>, k: Seq<char>) -> Option<T>
    decreases s.len(),
{
    if s.len() == 0 {
        None
    } else if s[0].0 == k {
        Some(s[0].1)
    } else {
        lookup(s.drop_first(), k)
    }
}

/// The keys of a sequence of entries, in order.
pub open spec fn keys_of<T>(s: Seq<(Seq<char>, T)>) -> Seq<Seq<char>> {
    s.map_values(|e: (Seq<char>, T)| e.0)
}

pub proof fn lemma_lookup_at<T>(s: Seq<(Seq<char>, T)>, k: Seq<char>, i: int)
    requires
        0 <= i < s.len(),
        s[i].0 == k,
        forall|j: int| 0 <= j < i ==> s[j].0 != k,
    ensures
        lookup(s, k) == Some(s[i].1),
    decreases i,
{
    if i > 0 {
        assert(s[0].0 != k);
        lemma_lookup_at(s.drop_first(), k, i - 1);
    }
}

pub proof fn lemma_lookup_absent<T>(s: Seq<(Seq<char>, T)>, k: Seq<char>)
    requires
        forall|j: int| 0 <= j < s.len() ==> s[j].0 != k,
    ensures
        lookup(s, k) is None,
    decreases s.len(),
{
    if s.len() > 0 {
        assert(s[0].0 != k);
        lemma_lookup_absent(s.drop_first(), k);
    }
}

pub proof fn lemma_sorted_distinct<T>(s: Seq<(Seq<char>, T)>)
    requires
        sorted_keys(s),
    ensures
        forall|i: int, j: int| 0 <= i < s.len() && 0 <= j < s.len() && i != j ==> s[i].0 != s[j].0,
{
    assert forall|i: int, j: int| 0 <= i < s.len() && 0 <= j < s.len() && i != j implies s[i].0
        != s[j].0 by {
        lemma_seq_lt_irreflexive(s[i].0);
        if i < j {
            assert(seq_lt(s[i].0, s[j].0));
        } else {
            assert(seq_lt(s[j].0, s[i].0));
        }
    }
}

/// In a sorted sequence the entry with key `k` is found at its index.
pub proof fn lemma_sorted_lookup<T>(s: Seq<(Seq<char>, T)>, i: int)
    requires
        sorted_keys(s),
        0 <= i < s.len(),
    ensures
        lookup(s, s[i].0) == Some(s[i].1),
{
    lemma_sorted_distinct(s);
    lemma_lookup_at(s, s[i].0, i);
}

/// In a sorted sequence a key is present exactly when some entry carries it.
pub proof fn lemma_sorted_lookup_iff<T>(s: Seq<(Seq<char>, T)>, k: Seq<char>)
    requires
        sorted_keys(s),
    ensures
        lookup(s, k) is Some <==> exists|i: int| 0 <= i < s.len() && s[i].0 == k,
{
    if exists|i: int| 0 <= i < s.len() && s[i].0 == k {
        let i = choose|i: int| 0 <= i < s.len() && s[i].0 == k;
        lemma_sorted_lookup(s, i);
    } else {
        lemma_lookup_absent(s, k);
    }
}

/// Inserting a new key at its ordered position keeps the order, stores the
/// value under the key and leaves every other key's value alone.
pub proof fn lemma_insert_lookup<T>(s: Seq<(Seq<char>, T)>, p: int, k: Seq<char>, v: T)
    requires
        sorted_keys(s),
        0 <= p <= s.len(),
        forall|j: int| 0 <= j < p ==> seq_lt(#[trigger] s[j].0, k),
        forall|j: int| p <= j < s.len() ==> seq_lt(k, #[trigger] s[j].0),
    ensures
        sorted_keys(s.insert(p, (k, v))),
        lookup(s.insert(p, (k, v)), k) == Some(v),
        forall|k2: Seq<char>| k2 != k ==> lookup(s.insert(p, (k, v)), k2) == lookup(s, k2),
{
    let s2 = s.insert(p, (k, v));
    assert forall|i: int, j: int| 0 <= i < j < s2.len() implies seq_lt(
        #[trigger] s2[i].0,
        #[trigger] s2[j].0,
    ) by {
        if j < p {
            assert(seq_lt(s[i].0, s[j].0));
        } else if j == p {
        } else if i < p {
            lemma_seq_lt_transitive(s[i].0, k, s[j - 1].0);
        } else if i == p {
        } else {
            assert(seq_lt(s[i - 1].0, s[j - 1].0));
        }
    }
    lemma_sorted_lookup(s2, p);
    assert forall|k2: Seq<char>| k2 != k implies lookup(s2, k2) == lookup(s, k2) by {
        if exists|i: int| 0 <= i < s.len() && s[i].0 == k2 {
            let i = choose|i: int| 0 <= i < s.len() && s[i].0 == k2;
            lemma_sorted_lookup(s, i);
            let j = if i < p {
                i
            } else {
                i + 1
            };
            assert(s2[j] == s[i]);
            lemma_sorted_lookup(s2, j);
        } else {
            lemma_lookup_absent(s, k2);
            assert forall|j: int| 0 <= j < s2.len() implies s2[j].0 != k2 by {
                if j < p {
                    assert(s2[j] == s[j]);
                } else if j > p {
                    assert(s2[j] == s[j - 1]);
                }
            }
            lemma_lookup_absent(s2, k2);
        }
    }
}

/// Replacing the value of an existing key keeps the order, stores the value
/// under the key and leaves every other key's value alone.
pub proof fn lemma_update_lookup<T>(s: Seq<(Seq<char>, T)>, p: int, v: T)
    requires
        sorted_keys(s),
        0 <= p < s.len(),
    ensures
        sorted_keys(s.update(p, (s[p].0, v))),
        lookup(s.update(p, (s[p].0, v)), s[p].0) == Some(v),
        forall|k2: Seq<char>| k2 != s[p].0 ==> lookup(s.update(p, (s[p].0, v)), k2) == lookup(s, k2),
{
    let k = s[p].0;
    let s2 = s.update(p, (k, v));
    assert forall|i: int, j: int| 0 <= i < j < s2.len() implies seq_lt(
        #[trigger] s2[i].0,
        #[trigger] s2[j].0,
    ) by {
        assert(seq_lt(s[i].0, s[j].0));
    }
    lemma_sorted_lookup(s2, p);
    assert forall|k2: Seq<char>| k2 != k implies lookup(s2, k2) == lookup(s, k2) by {
        if exists|i: int| 0 <= i < s.len() && s[i].0 == k2 {
            let i = choose|i: int| 0 <= i < s.len() && s[i].0 == k2;
            lemma_sorted_lookup(s, i);
            assert(s2[i] == s[i]);
            lemma_sorted_lookup(s2, i);
        } else {
            lemma_lookup_absent(s, k2);
            assert forall|j: int| 0 <= j < s2.len() implies s2[j].0 != k2 by {
                if j != p {
                    assert(s2[j] == s[j]);
                }
            }
            lemma_lookup_absent(s2, k2);
        }
    }
}

/// A table from strings to `T`, kept in ascending key order.
#[derive(Debug)]
pub struct StrMap<T> {
    entries: Vec<(String, T)>,
}

impl<T> StrMap<T> {
    /// The keys, in table order.
    pub closed spec fn key_seq(self) -> Seq<Seq<char>> {
        self.entries@.map_values(|e: (String, T)| e.0@)
    }

    #[verifier::type_invariant]
    spec fn keys_ascending(self) -> bool {
        forall|i: int, j: int|
            0 <= i < j < self.entries@.len() ==> seq_lt(
                #[trigger] self.entries@[i].0@,
                #[trigger] self.entries@[j].0@,
            )
    }
}

impl<T: Clone> Clone for StrMap<T> {
    /// A table with the same keys, each value cloned.
    fn clone(&self) -> (r: Self)
        ensures
            r.key_seq() == self.key_seq(),
    {
        proof {
            use_type_invariant(self);
        }
        let mut entries: Vec<(String, T)> = Vec::new();
        let mut i: usize = 0;
        while i < self.entries.len()
            invariant
                i <= self.entries@.len(),
                entries@.len() == i,
                forall|j: int| 0 <= j < i ==> #[trigger] entries@[j].0@ == self.entries@[j].0@,
                self.keys_ascending(),
            decreases self.entries.len() - i,
        {
            let k = self.entries[i].0.clone();
            let v = self.entries[i].1.clone();
            let ghost before = entries@;
            entries.push((k, v));
            assert forall|j: int| 0 <= j < i + 1 implies #[trigger] entries@[j].0@
                == self.entries@[j].0@ by {
                if j < i {
                    assert(entries@[j] == before[j]);
                }
            }
            i = i + 1;
        }
        proof {
            assert forall|a: int, b: int| 0 <= a < b < entries@.len() implies seq_lt(
                #[trigger] entries@[a].0@,
                #[trigger] entries@[b].0@,
            ) by {
                assert(seq_lt(self.entries@[a].0@, self.entries@[b].0@));
            }
        }
        let r = StrMap { entries };
        assert(r.key_seq() =~= self.key_seq());
        r
    }
}

impl<T: View> View for StrMap<T> {
    type V = Seq<(Seq<char>, T::V)>;

    closed spec fn view(&self) -> Seq<(Seq<char>, T::V)> {
        self.entries@.map_values(|e: (String, T)| (e.0@, e.1@))
    }
}

impl<T: View> StrMap<T> {
    proof fn lemma_view_sorted(&self)
        requires
            self.keys_ascending(),
        ensures
            sorted_keys(self@),
            self@.len() == self.entries@.len(),
            forall|i: int|
                0 <= i < self.entries@.len() ==> #[trigger] self@[i] == (
                    self.entries@[i].0@,
                    self.entries@[i].1@,
                ),
    {
        assert forall|i: int, j: int| 0 <= i < j < self@.len() implies seq_lt(
            #[trigger] self@[i].0,
            #[trigger] self@[j].0,
        ) by {
            assert(seq_lt(self.entries@[i].0@, self.entries@[j].0@));
        }
    }

    /// An empty table.
    pub fn new() -> (m: Self)
        ensures
            m@ == Seq::<(Seq<char>, T::V)>::empty(),
    {
        let m = StrMap { entries: Vec::new() };
        assert(m@ =~= Seq::<(Seq<char>, T::V)>::empty());
        m
    }

    /// The number of entries.  The entries of every table are in strictly
    /// ascending key order.
    pub fn len(&self) -> (n: usize)
        ensures
            n == self@.len(),
            sorted_keys(self@),
    {
        proof {
            use_type_invariant(self);
            self.lemma_view_sorted();
        }
        self.entries.len()
    }

    /// The key of the `i`-th entry in ascending key order.
    pub fn key_at(&self, i: usize) -> (k: &String)
        requires
            i < self@.len(),
        ensures
            k@ == self@[i as int].0,
    {
        proof {
            use_type_invariant(self);
            self.lemma_view_sorted();
        }
        &self.entries[i].0
    }

    /// The value of the `i`-th entry in ascending key order.
    pub fn value_at(&self, i: usize) -> (v: &T)
        requires
            i < self@.len(),
        ensures
            v@ == self@[i as int].1,
    {
        proof {
            use_type_invariant(self);
            self.lemma_view_sorted();
        }
        &self.entries[i].1
    }

    /// The value stored under `key`, if any.
    pub fn get(&self, key: &str) -> (r: Option<&T>)
        ensures
            r is None <==> lookup(self@, key@) is None,
            r matches Some(v) ==> lookup(self@, key@) == Some(v@),
    {
        proof {
            use_type_invariant(self);
            self.lemma_view_sorted();
        }
        let ghost s = self@;
        let mut i: usize = 0;
        assert(s.skip(0) =~= s);
        while i < self.entries.len()
            invariant
                s == self@,
                s.len() == self.entries@.len(),
                forall|j: int|
                    0 <= j < self.entries@.len() ==> #[trigger] s[j] == (
                        self.entries@[j].0@,
                        self.entries@[j].1@,
                    ),
                i <= s.len(),
                lookup(s, key@) == lookup(s.skip(i as int), key@),
            decreases self.entries.len() - i,
        {
            assert(s.skip(i as int).drop_first() =~= s.skip(i + 1));
            assert(s.skip(i as int)[0] == s[i as int]);
            if str_eq(self.entries[i].0.as_str(), key) {
                return Some(&self.entries[i].1);
            }
            i = i + 1;
        }
        None
    }

    /// Stores `value` under `key`, replacing the value that `key` had, as
    /// `BTreeMap::insert` does.
    pub fn insert(&mut self, key: String, value: T)
        ensures
            lookup(final(self)@, key@) == Some(value@),
            forall|k: Seq<char>| k != key@ ==> lookup(final(self)@, k) == lookup(old(self)@, k),
            final(self)@.len() == old(self)@.len() + (if lookup(old(self)@, key@) is Some {
                0int
            } else {
                1int
            }),
            sorted_keys(final(self)@),
    {
        proof {
            use_type_invariant(&*self);
            self.lemma_view_sorted();
        }
        let ghost s = self@;
        let mut entries: Vec<(String, T)> = Vec::new();
        std::mem::swap(&mut entries, &mut self.entries);
        let n = entries.len();
        let mut p: usize = 0;
        while p < n && str_lt(entries[p].0.as_str(), key.as_str())
            invariant
                n == entries@.len(),
                s.len() == n,
                forall|j: int| 0 <= j < n ==> #[trigger] s[j] == (entries@[j].0@, entries@[j].1@),
                p <= n,
                forall|j: int| 0 <= j < p ==> seq_lt(#[trigger] s[j].0, key@),
            decreases n - p,
        {
            p = p + 1;
        }
        let ghost kv = key@;
        let ghost vv = value@;
        if p < n && str_eq(entries[p].0.as_str(), key.as_str()) {
            proof {
                lemma_update_lookup(s, p as int, vv);
                lemma_sorted_lookup_iff(s, kv);
            }
            entries.set(p, (key, value));
            proof {
                assert(entries@.map_values(|e: (String, T)| (e.0@, e.1@)) =~= s.update(
                    p as int,
                    (kv, vv),
                ));
            }
        } else {
            proof {
                assert forall|j: int| p <= j < n implies seq_lt(kv, #[trigger] s[j].0) by {
                    if p < n {
                        lemma_seq_lt_total(kv, s[p as int].0);
                        if j > p {
                            lemma_seq_lt_transitive(kv, s[p as int].0, s[j].0);
                        }
                    }
                }
                lemma_insert_lookup(s, p as int, kv, vv);
                lemma_seq_lt_irreflexive(kv);
                lemma_lookup_absent(s, kv);
            }
            entries.insert(p, (key, value));
            proof {
                assert(entries@.map_values(|e: (String, T)| (e.0@, e.1@)) =~= s.insert(
                    p as int,
                    (kv, vv),
                ));
            }
        }
        proof {
            let s2 = entries@.map_values(|e: (String, T)| (e.0@, e.1@));
            assert forall|i: int, j: int| 0 <= i < j < entries@.len() implies seq_lt(
                #[trigger] entries@[i].0@,
                #[trigger] entries@[j].0@,
            ) by {
                assert(s2[i].0 == entries@[i].0@);
                assert(s2[j].0 == entries@[j].0@);
            }
        }
        self.entries = entries;
    }

    /// Whether some entry has key `key`.
    pub fn contains_key(&self, key: &str) -> (b: bool)
        ensures
            b == (lookup(self@, key@) is Some),
    {
        self.get(key).is_some()
    }
}

} // verus!
