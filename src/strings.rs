//! A store of at most a fixed number of distinct strings, in the order they were inserted;
//! once it is full, each new string takes the slot of the oldest.

use vstd::prelude::*;

verus! {

/// A stored string.
#[derive(Clone)]
pub struct Entry {
    val: String,
}

impl Entry {
    pub closed spec fn value(&self) -> Seq<char> {
        self.val@
    }

    /// The stored string.
    pub fn as_ref(&self) -> (r: &String)
        ensures
            r@ == self.value(),
    {
        &self.val
    }
}

pub struct Store {
    capacity: usize,
    store: Vec<Entry>,
    /// The slot of the oldest value, once the store is full.
    tail: usize,
}

impl Store {
    /// The strings held, oldest first.
    pub closed spec fn items(&self) -> Seq<Seq<char>> {
        let n = self.store@.len();
        Seq::new(
            n,
            |i: int|
                if self.tail + i < n {
                    self.store@[self.tail + i].val@
                } else {
                    self.store@[self.tail + i - n].val@
                },
        )
    }

    pub closed spec fn capacity(&self) -> nat {
        self.capacity as nat
    }

    pub closed spec fn well_formed(&self) -> bool {
        &&& self.store@.len() <= self.capacity
        &&& (self.store@.len() < self.capacity ==> self.tail == 0)
        &&& (self.store@.len() == self.capacity && self.capacity > 0 ==> self.tail
            < self.capacity)
        &&& self.items().no_duplicates()
    }

    /// An empty store for at most `capacity` strings.
    pub fn new(capacity: usize) -> (r: Store)
        ensures
            r.items() == Seq::<Seq<char>>::empty(),
            r.capacity() == capacity,
            r.well_formed(),
    {
        let r = Store { capacity, store: Vec::new(), tail: 0 };
        assert(r.items() =~= Seq::<Seq<char>>::empty());
        r
    }

    /// The number of strings held.
    pub fn len(&self) -> (r: usize)
        ensures
            r == self.items().len(),
    {
        self.store.len()
    }

    /// The string `i`-th from the oldest.
    pub fn get(&self, i: usize) -> (r: &String)
        requires
            self.well_formed(),
            i < self.items().len(),
        ensures
            r@ == self.items()[i as int],
    {
        let n = self.store.len();
        if self.tail < n - i {
            &self.store[self.tail + i].val
        } else {
            &self.store[i - (n - self.tail)].val
        }
    }

    /// Whether the store holds `val`.
    pub fn contains(&self, val: &String) -> (r: bool)
        requires
            self.well_formed(),
        ensures
            r == self.items().contains(val@),
    {
        let n = self.store.len();
        let mut i: usize = 0;
        while i < n
            invariant
                self.well_formed(),
                n == self.items().len(),
                i <= n,
                forall|k: int| 0 <= k < i ==> self.items()[k] != val@,
            decreases n - i,
        {
            if self.get(i).eq(val) {
                assert(self.items()[i as int] == val@);
                return true;
            }
            i += 1;
        }
        false
    }

    /// Inserts a string as the newest, unless the store holds it already; where the store is
    /// full, the oldest string leaves. The store never holds a string twice nor more strings
    /// than its capacity.
    pub fn insert(&mut self, val: String)
        requires
            old(self).well_formed(),
        ensures
            final(self).well_formed(),
            final(self).items().no_duplicates(),
            final(self).items().len() <= final(self).capacity(),
            final(self).capacity() == old(self).capacity(),
            old(self).items().contains(val@) ==> final(self).items() == old(self).items(),
            old(self).capacity() == 0 ==> final(self).items() == old(self).items(),
            !old(self).items().contains(val@) && old(self).items().len() < old(self).capacity()
                ==> final(self).items() == old(self).items().push(val@),
            !old(self).items().contains(val@) && old(self).capacity() > 0
                && old(self).items().len() == old(self).capacity()
                ==> final(self).items() == old(self).items().drop_first().push(val@),
    {
        if self.capacity == 0 || self.contains(&val) {
            return;
        }
        let ghost v = val@;
        let ghost old_items = self.items();
        let entry = Entry { val };
        if self.store.len() < self.capacity {
            self.store.push(entry);
            assert(self.items() =~= old_items.push(v));
        } else {
            let idx = self.tail;
            let n = self.store.len();
            self.store.set(idx, entry);
            self.tail = if idx + 1 == n {
                0
            } else {
                idx + 1
            };
            assert(self.items() =~= old_items.drop_first().push(v));
        }
        assert(self.items().no_duplicates()) by {
            let it = self.items();
            assert forall|i: int, j: int| 0 <= i < it.len() && 0 <= j < it.len() && i != j
                implies it[i] != it[j] by {
                if i == it.len() - 1 {
                    assert(!old_items.contains(it[i]));
                    if old_items.len() < self.capacity {
                        assert(it[j] == old_items[j]);
                    } else {
                        assert(it[j] == old_items[j + 1]);
                    }
                } else if j == it.len() - 1 {
                    assert(!old_items.contains(it[j]));
                    if old_items.len() < self.capacity {
                        assert(it[i] == old_items[i]);
                    } else {
                        assert(it[i] == old_items[i + 1]);
                    }
                } else if old_items.len() < self.capacity {
                    assert(it[i] == old_items[i] && it[j] == old_items[j]);
                } else {
                    assert(it[i] == old_items[i + 1] && it[j] == old_items[j + 1]);
                }
            }
        }
    }
}

} // verus!
