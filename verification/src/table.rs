//! A table: values by key, no key twice, in the order in which the keys came.

use vstd::prelude::*;
use crate::addr::{Ipv4Addr, SocketAddr};

verus! {

/// What the keys of a table can do.
pub trait Key: View + Sized {
    /// Whether two keys are the same.
    fn same(&self, other: &Self) -> (same: bool)
        ensures
            same == (self@ == other@),
    ;
}

impl Key for String {
    fn same(&self, other: &String) -> (same: bool) {
        *self == *other
    }
}

impl Key for SocketAddr {
    fn same(&self, other: &SocketAddr) -> (same: bool) {
        *self == *other
    }
}

impl Key for Ipv4Addr {
    fn same(&self, other: &Ipv4Addr) -> (same: bool) {
        *self == *other
    }
}

/// Whether no key stands twice among the entries.
pub open spec fn keys_unique<A, B>(s: Seq<(A, B)>) -> bool {
    forall|i: int, j: int| 0 <= i < j < s.len() ==> (#[trigger] s[i]).0 != (#[trigger] s[j]).0
}

/// Whether an entry with the key `k` stands at `i`.
pub open spec fn is_at<A, B>(s: Seq<(A, B)>, k: A, i: int) -> bool {
    0 <= i < s.len() && s[i].0 == k
}

pub open spec fn has_key<A, B>(s: Seq<(A, B)>, k: A) -> bool {
    exists|i: int| is_at(s, k, i)
}

/// Where the entry with the key `k` stands.
pub open spec fn place_of<A, B>(s: Seq<(A, B)>, k: A) -> int {
    choose|i: int| is_at(s, k, i)
}

/// The value under the key `k`.
pub open spec fn lookup<A, B>(s: Seq<(A, B)>, k: A) -> Option<B> {
    if has_key(s, k) {
        Some(s[place_of(s, k)].1)
    } else {
        None
    }
}

/// The entries with `v` under the key `k`: in its old place, or at the end.
pub open spec fn put<A, B>(s: Seq<(A, B)>, k: A, v: B) -> Seq<(A, B)> {
    if has_key(s, k) {
        s.update(place_of(s, k), (k, v))
    } else {
        s.push((k, v))
    }
}

/// Where no key stands twice, an entry is found by its key.
pub proof fn lemma_place<A, B>(s: Seq<(A, B)>, k: A, i: int)
    requires
        keys_unique(s),
        is_at(s, k, i),
    ensures
        has_key(s, k),
        place_of(s, k) == i,
        lookup(s, k) == Some(s[i].1),
{
    let j = place_of(s, k);
    assert(is_at(s, k, j));
    if i < j {
        assert(s[i].0 != s[j].0);
    } else if j < i {
        assert(s[j].0 != s[i].0);
    }
}

/// Writing keeps the keys distinct; it changes what is found under the key written, and
/// nothing else.
pub proof fn lemma_put<A, B>(s: Seq<(A, B)>, k: A, v: B, other: A)
    requires
        keys_unique(s),
    ensures
        keys_unique(put(s, k, v)),
        lookup(put(s, k, v), k) == Some(v),
        other != k ==> lookup(put(s, k, v), other) == lookup(s, other),
{
    let t = put(s, k, v);
    let n: int = if has_key(s, k) {
        place_of(s, k)
    } else {
        s.len() as int
    };
    if has_key(s, k) {
        assert(is_at(s, k, n));
    } else {
        assert forall|i: int| 0 <= i < s.len() implies (#[trigger] s[i]).0 != k by {
            assert(!is_at(s, k, i));
        }
    }
    assert forall|i: int, j: int| 0 <= i < j < t.len() implies (#[trigger] t[i]).0 != (
    #[trigger] t[j]).0 by {
        if i != n && j != n {
            assert(s[i].0 != s[j].0);
        } else if i == n {
            assert(s[n].0 != s[j].0);
        } else if has_key(s, k) {
            assert(s[i].0 != s[n].0);
        }
    }
    assert(is_at(t, k, n));
    lemma_place(t, k, n);
    if other != k {
        if has_key(s, other) {
            let i = place_of(s, other);
            assert(is_at(s, other, i));
            assert(is_at(t, other, i));
            lemma_place(t, other, i);
        } else if has_key(t, other) {
            let i = place_of(t, other);
            assert(is_at(t, other, i));
            assert(is_at(s, other, i));
        }
    }
}

/// Writing leaves every entry in its place but the one with the key, which is replaced where it
/// stands; a new key comes last.
pub proof fn law_put_keeps_places<A, B>(s: Seq<(A, B)>, k: A, v: B, i: int)
    requires
        keys_unique(s),
    ensures
        0 <= i < s.len() && s[i].0 == k ==> put(s, k, v) == s.update(i, (k, v)),
        (forall|j: int| 0 <= j < s.len() ==> (#[trigger] s[j]).0 != k) ==> put(s, k, v) == s.push(
            (k, v),
        ),
{
    if 0 <= i < s.len() && s[i].0 == k {
        assert(is_at(s, k, i));
        lemma_place(s, k, i);
    }
    if has_key(s, k) {
        assert(is_at(s, k, place_of(s, k)));
    }
}

/// What stands under a key is found, and nothing is found that does not stand there.
pub proof fn law_lookup_finds_entries<A, B>(s: Seq<(A, B)>, k: A, i: int)
    requires
        keys_unique(s),
    ensures
        0 <= i < s.len() && s[i].0 == k ==> lookup(s, k) == Some(s[i].1),
        (forall|j: int| 0 <= j < s.len() ==> (#[trigger] s[j]).0 != k) ==> lookup(s, k) is None,
{
    if 0 <= i < s.len() && s[i].0 == k {
        assert(is_at(s, k, i));
        lemma_place(s, k, i);
    }
    if has_key(s, k) {
        assert(is_at(s, k, place_of(s, k)));
    }
}

/// Dropping entries keeps the keys distinct and what is found under the keys that stay.
pub proof fn lemma_filter<A, B>(s: Seq<(A, B)>, keep: spec_fn((A, B)) -> bool, k: A)
    requires
        keys_unique(s),
    ensures
        keys_unique(s.filter(keep)),
        lookup(s.filter(keep), k) == match lookup(s, k) {
            Some(v) => if keep((k, v)) {
                Some(v)
            } else {
                None
            },
            None => None,
        },
    decreases s.len(),
{
    reveal(Seq::filter);
    if s.len() == 0 {
        assert(s.filter(keep) =~= s);
        if has_key(s, k) {
            assert(is_at(s, k, place_of(s, k)));
        }
    } else {
        let front = s.drop_last();
        let last = s.last();
        let kept = front.filter(keep);
        assert(keys_unique(front)) by {
            assert forall|i: int, j: int| 0 <= i < j < front.len() implies (#[trigger] front[i]).0
                != (#[trigger] front[j]).0 by {
                assert(s[i].0 != s[j].0);
            }
        }
        lemma_filter(front, keep, k);
        lemma_filter(front, keep, last.0);
        assert(!has_key(front, last.0)) by {
            if has_key(front, last.0) {
                let i = place_of(front, last.0);
                assert(is_at(front, last.0, i));
                assert(s[i].0 != s[s.len() - 1].0);
            }
        }
        assert(!has_key(kept, last.0));
        assert(s =~= front.push(last));
        assert(s == put(front, last.0, last.1));
        lemma_put(front, last.0, last.1, k);
        if keep(last) {
            assert(s.filter(keep) =~= put(kept, last.0, last.1));
            lemma_put(kept, last.0, last.1, k);
        } else {
            assert(s.filter(keep) =~= kept);
        }
    }
}

/// What one more entry adds to the entries that are kept.
pub proof fn lemma_filter_step<T>(s: Seq<T>, keep: spec_fn(T) -> bool, n: int)
    requires
        0 <= n < s.len(),
    ensures
        s.take(n + 1).filter(keep) == if keep(s[n]) {
            s.take(n).filter(keep).push(s[n])
        } else {
            s.take(n).filter(keep)
        },
{
    reveal(Seq::filter);
    assert(s.take(n + 1).drop_last() =~= s.take(n));
    assert(s.take(n + 1).last() == s[n]);
}

/// Values by key.
#[derive(Debug)]
pub struct Table<K, V> {
    entries: Vec<(K, V)>,
}

impl<K: Key, V: View> View for Table<K, V> {
    type V = Seq<(K::V, V::V)>;

    closed spec fn view(&self) -> Seq<(K::V, V::V)> {
        Seq::new(self.entries@.len(), |i: int| (self.entries@[i].0@, self.entries@[i].1@))
    }
}

impl<K: Key, V: View> Table<K, V> {
    /// No key stands twice.
    pub open spec fn wf(&self) -> bool {
        keys_unique(self@)
    }

    /// A table without entries.
    pub fn new() -> (t: Table<K, V>)
        ensures
            t@ == Seq::<(K::V, V::V)>::empty(),
            t.wf(),
    {
        let t: Table<K, V> = Table { entries: Vec::new() };
        assert(t@ =~= Seq::<(K::V, V::V)>::empty());
        t
    }

    /// How many entries there are.
    pub fn len(&self) -> (n: usize)
        ensures
            n == self@.len(),
    {
        self.entries.len()
    }

    /// The key of the entry at `i`.
    pub fn key_at(&self, i: usize) -> (k: &K)
        requires
            i < self@.len(),
        ensures
            k@ == self@[i as int].0,
    {
        &self.entries[i].0
    }

    /// The value of the entry at `i`.
    pub fn value_at(&self, i: usize) -> (v: &V)
        requires
            i < self@.len(),
        ensures
            v@ == self@[i as int].1,
    {
        &self.entries[i].1
    }

    /// Where the entry with the key `k` stands.
    pub fn find(&self, k: &K) -> (place: Option<usize>)
        requires
            self.wf(),
        ensures
            match place {
                Some(i) => has_key(self@, k@) && i == place_of(self@, k@) && i < self@.len(),
                None => !has_key(self@, k@),
            },
    {
        let mut i: usize = 0;
        while i < self.entries.len()
            invariant
                self.wf(),
                i <= self@.len(),
                forall|j: int| 0 <= j < i ==> !is_at(self@, k@, j),
            decreases self@.len() - i,
        {
            if self.entries[i].0.same(k) {
                proof {
                    lemma_place(self@, k@, i as int);
                }
                return Some(i);
            }
            i = i + 1;
        }
        None
    }

    /// The value under the key `k`.
    pub fn get(&self, k: &K) -> (value: Option<&V>)
        requires
            self.wf(),
        ensures
            match value {
                Some(v) => lookup(self@, k@) == Some(v@),
                None => lookup(self@, k@) is None,
            },
    {
        match self.find(k) {
            Some(i) => Some(&self.entries[i].1),
            None => None,
        }
    }

    /// Writes `v` under the key `k`.
    pub fn insert(&mut self, k: K, v: V)
        requires
            old(self).wf(),
        ensures
            final(self).wf(),
            final(self)@ == put(old(self)@, k@, v@),
    {
        proof {
            lemma_put(self@, k@, v@, k@);
        }
        match self.find(&k) {
            Some(i) => {
                self.entries.set(i, (k, v));
            },
            None => {
                self.entries.push((k, v));
            },
        }
        assert(self@ =~= put(old(self)@, k@, v@));
    }

    /// Writes `v` under the key of the entry at `i`.
    pub fn set_value_at(&mut self, i: usize, v: V)
        requires
            old(self).wf(),
            i < old(self)@.len(),
        ensures
            final(self).wf(),
            final(self)@ == old(self)@.update(i as int, (old(self)@[i as int].0, v@)),
    {
        let ghost before = self@;
        self.entries[i].1 = v;
        assert(self@ =~= before.update(i as int, (before[i as int].0, v@)));
        assert forall|m: int, n: int| 0 <= m < n < self@.len() implies (#[trigger] self@[m]).0 != (
        #[trigger] self@[n]).0 by {
            assert(before[m].0 != before[n].0);
        }
    }

    /// Keeps the entries that are marked, which are those of which `keep` holds.
    pub(crate) fn retain(
        &mut self,
        marks: &Vec<bool>,
        Ghost(keep): Ghost<spec_fn((K::V, V::V)) -> bool>,
    )
        requires
            old(self).wf(),
            marks@.len() == old(self)@.len(),
            forall|i: int| 0 <= i < marks@.len() ==> #[trigger] marks@[i] == keep(old(self)@[i]),
        ensures
            final(self).wf(),
            final(self)@ == old(self)@.filter(keep),
    {
        let ghost start = self@;
        let mut i: usize = 0;
        let mut done: usize = 0;
        assert(start.take(0).filter(keep) + start.skip(0) =~= start);
        while done < marks.len()
            invariant
                keys_unique(start),
                marks@.len() == start.len(),
                forall|j: int| 0 <= j < marks@.len() ==> #[trigger] marks@[j] == keep(start[j]),
                done <= start.len(),
                i == start.take(done as int).filter(keep).len(),
                self@ == start.take(done as int).filter(keep) + start.skip(done as int),
            decreases start.len() - done,
        {
            let ghost before = self@;
            let ghost kept = start.take(done as int).filter(keep);
            let ghost entry = start[done as int];
            proof {
                assert(start.skip(done as int)[0] == entry);
                assert(before.len() == self.entries@.len());
                assert(before.len() == kept.len() + start.skip(done as int).len());
                assert(before[i as int] == entry);
                lemma_filter_step(start, keep, done as int);
                assert(start.skip(done as int) =~= seq![entry] + start.skip(done + 1));
            }
            if marks[done] {
                i = i + 1;
                assert(self@ =~= kept.push(entry) + start.skip(done + 1));
            } else {
                self.entries.remove(i);
                assert(self@ =~= before.remove(i as int));
                assert(self@ =~= kept + start.skip(done + 1));
            }
            done = done + 1;
        }
        proof {
            assert(start.take(done as int) =~= start);
            assert(self@ =~= start.filter(keep));
            if start.len() > 0 {
                lemma_filter(start, keep, start[0].0);
            }
        }
    }
}

} // verus!
