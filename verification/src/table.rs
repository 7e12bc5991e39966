//! Insertion-ordered association tables.
//!
//! Every registry of the engine (parameters, sounds, instances, sequences,
//! sub-tracks, effect chains) maps a `u64` id to a value and is walked in
//! insertion order. Lookup of a stale id is an ordinary `None`, never an
//! error: a command naming a removed resource degrades to a no-op.

use vstd::prelude::*;

verus! {

pub struct Table<V> {
    entries: Vec<(u64, V)>,
}

impl<V> View for Table<V> {
    type V = Seq<(u64, V)>;

    closed spec fn view(&self) -> Seq<(u64, V)> {
        self.entries@
    }
}

/// No id occurs twice.
pub open spec fn unique_keys<V>(s: Seq<(u64, V)>) -> bool {
    forall|i: int, j: int| 0 <= i < j < s.len() ==> s[i].0 != s[j].0
}

/// Index of the first entry with key `k`, or -1 if there is none.
pub open spec fn spec_index_of<V>(s: Seq<(u64, V)>, k: u64) -> int
    decreases s.len(),
{
    if s.len() == 0 {
        -1
    } else if s[0].0 == k {
        0
    } else {
        let r = spec_index_of(s.subrange(1, s.len() as int), k);
        if r < 0 {
            -1
        } else {
            r + 1
        }
    }
}

pub open spec fn spec_contains<V>(s: Seq<(u64, V)>, k: u64) -> bool {
    spec_index_of(s, k) >= 0
}

/// Replace the value of `k` in place if it is present, else append.
pub open spec fn spec_table_insert<V>(s: Seq<(u64, V)>, k: u64, v: V) -> Seq<(u64, V)> {
    let i = spec_index_of(s, k);
    if i >= 0 {
        s.update(i, (k, v))
    } else {
        s.push((k, v))
    }
}

/// Remove the entry of `k`, keeping the order of the rest.
pub open spec fn spec_table_remove<V>(s: Seq<(u64, V)>, k: u64) -> Seq<(u64, V)> {
    let i = spec_index_of(s, k);
    if i >= 0 {
        s.remove(i)
    } else {
        s
    }
}

pub proof fn lemma_index_of<V>(s: Seq<(u64, V)>, k: u64)
    ensures
        spec_index_of(s, k) == -1 ==> forall|i: int| 0 <= i < s.len() ==> s[i].0 != k,
        spec_index_of(s, k) >= 0 ==> spec_index_of(s, k) < s.len() && s[spec_index_of(s, k)].0
            == k && forall|i: int| 0 <= i < spec_index_of(s, k) ==> s[i].0 != k,
    decreases s.len(),
{
    if s.len() > 0 && s[0].0 != k {
        let tail = s.subrange(1, s.len() as int);
        lemma_index_of(tail, k);
        let r = spec_index_of(tail, k);
        if r == -1 {
            assert(spec_index_of(s, k) == -1);
            assert forall|i: int| 0 <= i < s.len() implies s[i].0 != k by {
                if i > 0 {
                    assert(s[i] == tail[i - 1]);
                }
            }
        } else {
            assert(spec_index_of(s, k) == r + 1);
            assert(s[r + 1] == tail[r]);
            assert forall|i: int| 0 <= i < r + 1 implies s[i].0 != k by {
                if i > 0 {
                    assert(s[i] == tail[i - 1]);
                }
            }
        }
    }
}

impl<V> Table<V> {
    pub fn new() -> (t: Table<V>)
        ensures
            t@ == Seq::<(u64, V)>::empty(),
    {
        Table { entries: Vec::new() }
    }

    pub fn len(&self) -> (r: usize)
        ensures
            r == self@.len(),
    {
        self.entries.len()
    }

    pub fn index_of(&self, k: u64) -> (r: Option<usize>)
        ensures
            match r {
                Some(i) => i as int == spec_index_of(self@, k),
                None => spec_index_of(self@, k) == -1,
            },
    {
        let n = self.entries.len();
        let mut i: usize = 0;
        while i < n
            invariant
                n == self@.len(),
                i <= n,
                forall|j: int| 0 <= j < i ==> self@[j].0 != k,
            decreases n - i,
        {
            if self.entries[i].0 == k {
                proof {
                    lemma_index_of(self@, k);
                }
                return Some(i);
            }
            i += 1;
        }
        proof {
            lemma_index_of(self@, k);
        }
        None
    }

    pub fn contains(&self, k: u64) -> (r: bool)
        ensures
            r == spec_contains(self@, k),
    {
        self.index_of(k).is_some()
    }

    pub fn get(&self, k: u64) -> (r: Option<&V>)
        ensures
            match r {
                Some(v) => spec_contains(self@, k) && *v == self@[spec_index_of(self@, k)].1,
                None => !spec_contains(self@, k),
            },
    {
        proof {
            lemma_index_of(self@, k);
        }
        match self.index_of(k) {
            Some(i) => {
                proof {
                    assert(spec_index_of(self@, k) == i as int);
                }
                let e = &self.entries[i];
                let r = &e.1;
                proof {
                    assert(*r == self@[i as int].1);
                }
                Some(r)
            },
            None => None,
        }
    }

    pub fn key_at(&self, i: usize) -> (r: u64)
        requires
            i < self@.len(),
        ensures
            r == self@[i as int].0,
    {
        self.entries[i].0
    }

    pub fn value_at(&self, i: usize) -> (r: &V)
        requires
            i < self@.len(),
        ensures
            *r == self@[i as int].1,
    {
        &self.entries[i].1
    }

    /// Mutable access to the value stored at position `i`; the keys and the
    /// order of the table are untouched.
    pub fn value_at_mut(&mut self, i: usize) -> (r: &mut V)
        requires
            i < old(self)@.len(),
        ensures
            *r == old(self)@[i as int].1,
            final(self)@ == old(self)@.update(
                i as int,
                (old(self)@[i as int].0, *final(r)),
            ),
    {
        &mut self.entries[i].1
    }

    /// Empty the table, handing its entries out in order.
    pub fn take_entries(&mut self) -> (r: Vec<(u64, V)>)
        ensures
            r@ == old(self)@,
            final(self)@ == Seq::<(u64, V)>::empty(),
    {
        let mut v: Vec<(u64, V)> = Vec::new();
        core::mem::swap(&mut self.entries, &mut v);
        v
    }

    /// Append an entry whose key is known to be absent.
    pub fn push_back(&mut self, k: u64, v: V)
        requires
            forall|j: int| 0 <= j < old(self)@.len() ==> (#[trigger] old(self)@[j]).0 != k,
        ensures
            final(self)@ == old(self)@.push((k, v)),
            unique_keys(old(self)@) ==> unique_keys(final(self)@),
    {
        self.entries.push((k, v));
    }

    pub fn insert(&mut self, k: u64, v: V)
        ensures
            final(self)@ == spec_table_insert(old(self)@, k, v),
            unique_keys(old(self)@) ==> unique_keys(final(self)@),
    {
        proof {
            lemma_index_of(self@, k);
        }
        match self.index_of(k) {
            Some(i) => {
                self.entries[i] = (k, v);
            },
            None => {
                self.entries.push((k, v));
            },
        }
    }

    pub fn remove(&mut self, k: u64) -> (r: Option<V>)
        ensures
            final(self)@ == spec_table_remove(old(self)@, k),
            r == if spec_contains(old(self)@, k) {
                Some(old(self)@[spec_index_of(old(self)@, k)].1)
            } else {
                None::<V>
            },
            unique_keys(old(self)@) ==> unique_keys(final(self)@),
    {
        proof {
            lemma_index_of(self@, k);
        }
        match self.index_of(k) {
            Some(i) => {
                let e = self.entries.remove(i);
                Some(e.1)
            },
            None => None,
        }
    }
}

} // verus!
