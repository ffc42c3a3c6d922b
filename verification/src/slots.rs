//! The render slot table.
//!
//! A fixed-capacity array of optional occupants. Inserting takes the lowest
//! free index and that index stays put until the occupant is removed, so a
//! slot can address a flat GPU-uniform staging buffer for as long as its
//! chunk stays visible. The table never grows: the world sizes it to the
//! visible window once, and the streaming invariant keeps it from filling.

use vstd::prelude::*;

verus! {

/// How many of the first `n` entries are occupied.
pub open spec fn occ_count(s: Seq<Option<(i32, i32)>>, n: int) -> int
    decreases n,
{
    if n <= 0 {
        0
    } else {
        occ_count(s, n - 1) + (if s[n - 1] is Some {
            1int
        } else {
            0int
        })
    }
}

pub proof fn lemma_occ_count_bounds(s: Seq<Option<(i32, i32)>>, n: int)
    ensures
        0 <= occ_count(s, n) <= if n <= 0 {
            0int
        } else {
            n
        },
    decreases n,
{
    if n > 0 {
        lemma_occ_count_bounds(s, n - 1);
    }
}

/// If every entry below `n` is occupied, the count is exactly `n`.
pub proof fn lemma_occ_count_full(s: Seq<Option<(i32, i32)>>, n: int)
    requires
        0 <= n,
        forall|j: int| 0 <= j < n ==> (#[trigger] s[j]) is Some,
    ensures
        occ_count(s, n) == n,
    decreases n,
{
    if n > 0 {
        lemma_occ_count_full(s, n - 1);
    }
}

/// Changing one entry changes the count by the difference at that entry.
pub proof fn lemma_occ_count_update(
    s: Seq<Option<(i32, i32)>>,
    i: int,
    v: Option<(i32, i32)>,
    n: int,
)
    requires
        0 <= i < s.len(),
        n <= s.len(),
    ensures
        occ_count(s.update(i, v), n) == occ_count(s, n) + if i < n {
            (if v is Some {
                1int
            } else {
                0int
            }) - (if s[i] is Some {
                1int
            } else {
                0int
            })
        } else {
            0int
        },
    decreases n,
{
    if n > 0 {
        lemma_occ_count_update(s, i, v, n - 1);
    }
}

/// A fixed-capacity slot table with stable indices and lowest-free-index
/// allocation.
pub struct SlotTable {
    entries: Vec<Option<(i32, i32)>>,
    count: usize,
}

impl SlotTable {
    /// The slots as the spec sees them.
    pub closed spec fn slots(&self) -> Seq<Option<(i32, i32)>> {
        self.entries@
    }

    /// The fixed number of slots.
    pub open spec fn spec_capacity(&self) -> int {
        self.slots().len() as int
    }

    /// How many slots are occupied.
    pub open spec fn spec_len(&self) -> int {
        occ_count(self.slots(), self.spec_capacity())
    }

    /// The cached occupancy count agrees with the entries.
    pub closed spec fn wf(&self) -> bool {
        self.count == occ_count(self.entries@, self.entries@.len() as int)
    }

    /// An empty table of exactly `cap` slots.
    pub fn with_capacity(cap: usize) -> (r: SlotTable)
        ensures
            r.wf(),
            r.spec_capacity() == cap,
            r.spec_len() == 0,
            forall|i: int| 0 <= i < cap ==> (#[trigger] r.slots()[i]) is None,
    {
        let mut entries: Vec<Option<(i32, i32)>> = Vec::new();
        let mut i: usize = 0;
        while i < cap
            invariant
                i <= cap,
                entries@.len() == i,
                forall|j: int| 0 <= j < i ==> (#[trigger] entries@[j]) is None,
            decreases cap - i,
        {
            entries.push(None);
            i = i + 1;
        }
        proof {
            lemma_occ_count_of_free(entries@, cap as int);
        }
        SlotTable { entries, count: 0 }
    }

    /// How many slots are occupied.
    pub fn len(&self) -> (r: usize)
        requires
            self.wf(),
        ensures
            r == self.spec_len(),
    {
        self.count
    }

    /// The fixed slot count.
    pub fn capacity(&self) -> (r: usize)
        ensures
            r == self.spec_capacity(),
    {
        self.entries.len()
    }

    /// The occupant of one slot.
    pub fn get(&self, i: usize) -> (r: Option<(i32, i32)>)
        requires
            i < self.spec_capacity(),
        ensures
            r == self.slots()[i as int],
    {
        self.entries[i]
    }

    /// Places an occupant in the lowest free slot and returns that slot's
    /// index, which stays valid until the occupant is removed.
    pub fn insert(&mut self, coord: (i32, i32)) -> (r: usize)
        requires
            old(self).wf(),
            old(self).spec_len() < old(self).spec_capacity(),
        ensures
            final(self).wf(),
            final(self).spec_capacity() == old(self).spec_capacity(),
            r < old(self).spec_capacity(),
            old(self).slots()[r as int] is None,
            forall|j: int| 0 <= j < r ==> (#[trigger] old(self).slots()[j]) is Some,
            final(self).slots() == old(self).slots().update(r as int, Some(coord)),
            final(self).spec_len() == old(self).spec_len() + 1,
    {
        let cap = self.entries.len();
        let mut i: usize = 0;
        while i < cap
            invariant
                i <= cap,
                self == old(self),
                self.wf(),
                cap == self.spec_capacity(),
                self.spec_len() < self.spec_capacity(),
                forall|j: int| 0 <= j < i ==> (#[trigger] self.slots()[j]) is Some,
            decreases cap - i,
        {
            if self.entries[i].is_none() {
                proof {
                    lemma_occ_count_update(
                        self.entries@,
                        i as int,
                        Some(coord),
                        self.entries@.len() as int,
                    );
                }
                self.entries.set(i, Some(coord));
                self.count = self.count + 1;
                return i;
            }
            i = i + 1;
        }
        proof {
            lemma_occ_count_full(self.entries@, cap as int);
            assert(false);
        }
        0
    }

    /// Frees one slot; its index becomes eligible for a fresh assignment.
    pub fn remove(&mut self, i: usize)
        requires
            old(self).wf(),
            i < old(self).spec_capacity(),
            old(self).slots()[i as int] is Some,
        ensures
            final(self).wf(),
            final(self).spec_capacity() == old(self).spec_capacity(),
            final(self).slots() == old(self).slots().update(i as int, None),
            final(self).spec_len() == old(self).spec_len() - 1,
    {
        proof {
            lemma_occ_count_update(self.entries@, i as int, None, self.entries@.len() as int);
            lemma_occ_count_bounds(self.entries@, self.entries@.len() as int);
            assert(self.spec_len() >= 1) by {
                lemma_occ_count_nonempty(self.entries@, i as int, self.entries@.len() as int);
            }
        }
        self.entries.set(i, None);
        self.count = self.count - 1;
    }

    /// Frees every slot.
    pub fn clear(&mut self)
        ensures
            final(self).wf(),
            final(self).spec_capacity() == old(self).spec_capacity(),
            final(self).spec_len() == 0,
            forall|i: int|
                0 <= i < final(self).spec_capacity() ==> (#[trigger] final(self).slots()[i])
                    is None,
    {
        let cap = self.entries.len();
        let mut i: usize = 0;
        while i < cap
            invariant
                i <= cap,
                cap == self.entries@.len(),
                forall|j: int| 0 <= j < i ==> (#[trigger] self.entries@[j]) is None,
            decreases cap - i,
        {
            self.entries.set(i, None);
            i = i + 1;
        }
        self.count = 0;
        proof {
            lemma_occ_count_of_free(self.entries@, cap as int);
        }
    }
}

/// A prefix of free slots counts zero occupants.
proof fn lemma_occ_count_of_free(s: Seq<Option<(i32, i32)>>, n: int)
    requires
        0 <= n,
        forall|j: int| 0 <= j < n ==> (#[trigger] s[j]) is None,
    ensures
        occ_count(s, n) == 0,
    decreases n,
{
    if n > 0 {
        lemma_occ_count_of_free(s, n - 1);
    }
}

/// A prefix holding an occupant counts at least one.
proof fn lemma_occ_count_nonempty(s: Seq<Option<(i32, i32)>>, i: int, n: int)
    requires
        0 <= i < n,
        s[i] is Some,
    ensures
        occ_count(s, n) >= 1,
    decreases n,
{
    lemma_occ_count_bounds(s, n - 1);
    if i < n - 1 {
        lemma_occ_count_nonempty(s, i, n - 1);
    }
}

} // verus!
