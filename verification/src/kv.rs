//! Association lists over string keys, with at most one entry per key: the
//! shape shared by the store's tables, the worker mailboxes, and the
//! transcription session table.

use vstd::prelude::*;

verus! {

/// An entry of an association list, identified by a string key.
pub trait Keyed: Sized {
    /// The key of this entry, as a sequence of characters.
    spec fn key_spec(&self) -> Seq<char>;

    /// Executable access to the key.
    fn key(&self) -> (r: &String)
        ensures
            r@ == self.key_spec(),
    ;
}

/// The first entry of `s` whose key is `k`, if any.
pub open spec fn assoc<T: Keyed>(s: Seq<T>, k: Seq<char>) -> Option<T>
    decreases s.len(),
{
    if s.len() == 0 {
        None
    } else if s[0].key_spec() == k {
        Some(s[0])
    } else {
        assoc(s.drop_first(), k)
    }
}

/// All keys of `s` are pairwise distinct.
pub open spec fn distinct_keys<T: Keyed>(s: Seq<T>) -> bool {
    forall|i: int, j: int|
        0 <= i < j < s.len() ==> s[i].key_spec() != s[j].key_spec()
}

/// `assoc` finds exactly the entries that are present: a hit is a member of
/// the list with the requested key, a miss means no entry has that key.
pub proof fn lemma_assoc_mem<T: Keyed>(s: Seq<T>, k: Seq<char>)
    ensures
        match assoc(s, k) {
            Some(t) => exists|i: int| 0 <= i < s.len() && s[i] == t && t.key_spec() == k,
            None => forall|i: int| 0 <= i < s.len() ==> s[i].key_spec() != k,
        },
    decreases s.len(),
{
    if s.len() == 0 {
    } else if s[0].key_spec() == k {
        assert(s[0] == s[0] && s[0].key_spec() == k);
    } else {
        lemma_assoc_mem(s.drop_first(), k);
        match assoc(s, k) {
            Some(t) => {
                let i = choose|i: int|
                    0 <= i < s.drop_first().len() && s.drop_first()[i] == t && t.key_spec() == k;
                assert(s[i + 1] == t);
            },
            None => {
                assert forall|i: int| 0 <= i < s.len() implies s[i].key_spec() != k by {
                    if i > 0 {
                        assert(s.drop_first()[i - 1] == s[i]);
                    }
                }
            },
        }
    }
}

/// Replacing the entry at `i` with one of the same key changes only that key's
/// association.
pub proof fn lemma_assoc_update<T: Keyed>(s: Seq<T>, i: int, v: T, k: Seq<char>)
    requires
        0 <= i < s.len(),
        distinct_keys(s),
        s[i].key_spec() == v.key_spec(),
    ensures
        assoc(s.update(i, v), k) == (if k == v.key_spec() {
            Some(v)
        } else {
            assoc(s, k)
        }),
    decreases s.len(),
{
    let s2 = s.update(i, v);
    if i == 0 {
        if s[0].key_spec() == k {
        } else {
            assert(s2.drop_first() =~= s.drop_first());
        }
    } else {
        assert(s2[0] == s[0]);
        if s[0].key_spec() == k {
            assert(s[0].key_spec() != v.key_spec());
        } else {
            assert(s2.drop_first() =~= s.drop_first().update(i - 1, v));
            assert(s.drop_first()[i - 1] == s[i]);
            lemma_assoc_update(s.drop_first(), i - 1, v, k);
        }
    }
}

/// Appending an entry leaves every present key alone and binds the new key
/// only where it was absent.
pub proof fn lemma_assoc_push<T: Keyed>(s: Seq<T>, v: T, k: Seq<char>)
    ensures
        assoc(s.push(v), k) == (if assoc(s, k) is Some {
            assoc(s, k)
        } else if v.key_spec() == k {
            Some(v)
        } else {
            None::<T>
        }),
    decreases s.len(),
{
    if s.len() == 0 {
        assert(s.push(v)[0] == v);
        if v.key_spec() == k {
        } else {
            assert(s.push(v).drop_first() =~= Seq::<T>::empty());
        }
    } else {
        assert(s.push(v)[0] == s[0]);
        if s[0].key_spec() == k {
        } else {
            assert(s.push(v).drop_first() =~= s.drop_first().push(v));
            lemma_assoc_push(s.drop_first(), v, k);
        }
    }
}

/// Removing the entry at `i` unbinds its key and changes no other key.
pub proof fn lemma_assoc_remove<T: Keyed>(s: Seq<T>, i: int, k: Seq<char>)
    requires
        0 <= i < s.len(),
        distinct_keys(s),
    ensures
        assoc(s.remove(i), k) == (if s[i].key_spec() == k {
            None::<T>
        } else {
            assoc(s, k)
        }),
        distinct_keys(s.remove(i)),
    decreases s.len(),
{
    let s2 = s.remove(i);
    assert forall|x: int, y: int| 0 <= x < y < s2.len() implies s2[x].key_spec()
        != s2[y].key_spec() by {
        let x0 = if x < i {
            x
        } else {
            x + 1
        };
        let y0 = if y < i {
            y
        } else {
            y + 1
        };
        assert(s2[x] == s[x0] && s2[y] == s[y0]);
    }
    if i == 0 {
        assert(s2 =~= s.drop_first());
        if s[0].key_spec() == k {
            lemma_assoc_mem(s.drop_first(), k);
        }
    } else {
        assert(s2[0] == s[0]);
        if s[0].key_spec() == k {
            assert(s[i].key_spec() != k);
        } else {
            assert(s2.drop_first() =~= s.drop_first().remove(i - 1));
            assert(s.drop_first()[i - 1] == s[i]);
            lemma_assoc_remove(s.drop_first(), i - 1, k);
        }
    }
}

/// An association list over string keys, with at most one entry per key.
pub struct KvList<T> {
    pub v: Vec<T>,
}

impl<T: Keyed> KvList<T> {
    /// The entries, in insertion order.
    pub open spec fn view(self) -> Seq<T> {
        self.v@
    }

    /// Well-formed: keys are pairwise distinct.
    pub open spec fn wf(self) -> bool {
        distinct_keys(self@)
    }

    /// The entry bound to key `k`, if any.
    pub open spec fn spec_get(self, k: Seq<char>) -> Option<T> {
        assoc(self@, k)
    }

    /// Whether some entry is bound to key `k`.
    pub open spec fn has(self, k: Seq<char>) -> bool {
        assoc(self@, k) is Some
    }

    pub fn new() -> (r: Self)
        ensures
            r@ =~= Seq::<T>::empty(),
            r.wf(),
    {
        KvList { v: Vec::new() }
    }

    pub fn len(&self) -> (r: usize)
        ensures
            r == self@.len(),
    {
        self.v.len()
    }

    pub fn at(&self, i: usize) -> (r: &T)
        requires
            i < self@.len(),
        ensures
            *r == self@[i as int],
    {
        &self.v[i]
    }

    /// Index of the first entry bound to `k`.
    fn index_of(&self, k: &String) -> (r: Option<usize>)
        ensures
            match r {
                Some(i) => i < self@.len() && self@[i as int].key_spec() == k@ && assoc(self@, k@)
                    == Some(self@[i as int]),
                None => assoc(self@, k@) is None,
            },
    {
        let n = self.v.len();
        let mut i: usize = 0;
        assert(self@.skip(0) =~= self@);
        while i < n
            invariant
                n == self@.len(),
                i <= n,
                assoc(self@, k@) == assoc(self@.skip(i as int), k@),
                forall|j: int| 0 <= j < i ==> self@[j].key_spec() != k@,
            decreases n - i,
        {
            assert(self@.skip(i as int)[0] == self@[i as int]);
            if *self.v[i].key() == *k {
                return Some(i);
            }
            assert(self@.skip(i as int).drop_first() =~= self@.skip(i as int + 1));
            i = i + 1;
        }
        assert(self@.skip(n as int) =~= Seq::<T>::empty());
        None
    }

    /// The entry bound to `k`, if any.
    pub fn get(&self, k: &String) -> (r: Option<&T>)
        ensures
            match r {
                Some(t) => assoc(self@, k@) == Some(*t),
                None => assoc(self@, k@) is None,
            },
    {
        match self.index_of(k) {
            Some(i) => Some(&self.v[i]),
            None => None,
        }
    }

    /// Whether an entry is bound to `k`.
    pub fn contains(&self, k: &String) -> (r: bool)
        ensures
            r == self.has(k@),
    {
        self.index_of(k).is_some()
    }

    /// Binds `val.key()` to `val`: replaces the existing entry in place, or
    /// appends a new one.
    pub fn upsert(&mut self, val: T)
        requires
            old(self).wf(),
        ensures
            final(self).wf(),
            assoc(final(self)@, val.key_spec()) == Some(val),
            forall|k: Seq<char>| k != val.key_spec() ==> assoc(final(self)@, k) == assoc(
                old(self)@,
                k,
            ),
            if old(self).has(val.key_spec()) {
                exists|i: int|
                    0 <= i < old(self)@.len() && old(self)@[i].key_spec() == val.key_spec()
                        && final(self)@ == old(self)@.update(i, val)
            } else {
                final(self)@ == old(self)@.push(val)
            },
    {
        let ghost old_s = self@;
        let ghost vkey = val.key_spec();
        match self.index_of(val.key()) {
            Some(i) => {
                self.v[i] = val;
                proof {
                    assert forall|k: Seq<char>| true implies assoc(old_s.update(i as int, val), k)
                        == (if k == vkey {
                        Some(val)
                    } else {
                        assoc(old_s, k)
                    }) by {
                        lemma_assoc_update(old_s, i as int, val, k);
                    }
                    assert forall|x: int, y: int|
                        0 <= x < y < self@.len() implies self@[x].key_spec()
                        != self@[y].key_spec() by {
                        assert(old_s[x].key_spec() == self@[x].key_spec());
                        assert(old_s[y].key_spec() == self@[y].key_spec());
                    }
                }
            },
            None => {
                proof {
                    lemma_assoc_mem(old_s, vkey);
                }
                self.v.push(val);
                proof {
                    assert forall|k: Seq<char>| true implies assoc(old_s.push(val), k) == (if assoc(
                        old_s,
                        k,
                    ) is Some {
                        assoc(old_s, k)
                    } else if vkey == k {
                        Some(val)
                    } else {
                        None::<T>
                    }) by {
                        lemma_assoc_push(old_s, val, k);
                    }
                    assert forall|x: int, y: int|
                        0 <= x < y < self@.len() implies self@[x].key_spec()
                        != self@[y].key_spec() by {
                        if y < old_s.len() {
                            assert(self@[x] == old_s[x] && self@[y] == old_s[y]);
                        } else {
                            assert(self@[x] == old_s[x] && self@[y] == val);
                        }
                    }
                    lemma_assoc_mem(old_s, vkey);
                }
            },
        }
    }

    /// Unbinds `k`, returning the entry that was bound to it.
    pub fn remove(&mut self, k: &String) -> (r: Option<T>)
        requires
            old(self).wf(),
        ensures
            final(self).wf(),
            r == assoc(old(self)@, k@),
            assoc(final(self)@, k@) is None,
            forall|k2: Seq<char>| k2 != k@ ==> assoc(final(self)@, k2) == assoc(old(self)@, k2),
            match assoc(old(self)@, k@) {
                Some(_) => exists|i: int|
                    0 <= i < old(self)@.len() && old(self)@[i].key_spec() == k@ && final(self)@
                        == old(self)@.remove(i),
                None => *final(self) == *old(self),
            },
    {
        let ghost old_s = self@;
        match self.index_of(k) {
            Some(i) => {
                let t = self.v.remove(i);
                proof {
                    assert forall|k2: Seq<char>| true implies assoc(old_s.remove(i as int), k2)
                        == (if old_s[i as int].key_spec() == k2 {
                        None::<T>
                    } else {
                        assoc(old_s, k2)
                    }) by {
                        lemma_assoc_remove(old_s, i as int, k2);
                    }
                    lemma_assoc_remove(old_s, i as int, k@);
                }
                Some(t)
            },
            None => None,
        }
    }
}

} // verus!
