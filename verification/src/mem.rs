//! The modeled physical memory: the finite set of 4 KiB units the
//! core may read or mutate, each named by its aligned physical base.
//! The hierarchy is discovered, not created, so the model only mirrors
//! what the hardware reports; a bounds-checked access abstraction
//! replaces raw dereference of hardware-reported addresses.

use vstd::prelude::*;

use crate::table::PageTable;
use crate::table::PageTableEntry;
use crate::table::TABLE_ENTRIES;

verus! {

/// The bounds-checked physical-memory access abstraction: maps a
/// 4 KiB-aligned physical base to exactly one table's worth of memory.
#[derive(Debug)]
pub struct PhysMem {
    pub tables: Vec<(u64, PageTable)>,
}

impl PhysMem {
    /// Bases are 4 KiB-aligned and unique; every unit holds exactly
    /// 512 slots.
    pub open spec fn wf(self) -> bool {
        &&& forall|i: int|
            0 <= i < self.tables@.len() ==> (#[trigger] self.tables@[i]).1.wf() && self.tables@[i].0
                & 0xfff == 0
        &&& forall|i: int, j: int|
            0 <= i < j < self.tables@.len() ==> self.tables@[i].0 != self.tables@[j].0
    }

    /// Whether the unit based at `base` is modeled.
    pub open spec fn contains_table(self, base: u64) -> bool {
        exists|i: int| 0 <= i < self.tables@.len() && (#[trigger] self.tables@[i]).0 == base
    }

    /// The slots of the unit based at `base`; meaningful only when
    /// `contains_table(base)` holds and the bases are unique.
    pub open spec fn table_at(self, base: u64) -> Seq<PageTableEntry> {
        (self.tables@[choose|i: int|
            0 <= i < self.tables@.len() && (#[trigger] self.tables@[i]).0 == base]).1.entries@
    }

    /// The entry in slot `idx` of the unit based at `base`.
    pub open spec fn entry_at(self, base: u64, idx: int) -> PageTableEntry {
        self.table_at(base)[idx]
    }

    /// Position `i` of the table list names its own unit.
    pub proof fn lemma_position_names_unit(self, i: int)
        requires
            self.wf(),
            0 <= i < self.tables@.len(),
        ensures
            self.contains_table(self.tables@[i].0),
            self.table_at(self.tables@[i].0) == self.tables@[i].1.entries@,
            self.table_at(self.tables@[i].0).len() == TABLE_ENTRIES,
    {
        assert(self.contains_table(self.tables@[i].0));
        let j = choose|j: int|
            0 <= j < self.tables@.len() && (#[trigger] self.tables@[j]).0 == self.tables@[i].0;
        if i < j {
            assert(self.tables@[i].0 != self.tables@[j].0);
        } else if j < i {
            assert(self.tables@[j].0 != self.tables@[i].0);
        }
        assert(self.tables@[i].1.wf());
    }

    /// A modeled unit holds exactly 512 slots.
    pub proof fn lemma_table_len(self, base: u64)
        requires
            self.wf(),
            self.contains_table(base),
        ensures
            self.table_at(base).len() == TABLE_ENTRIES,
    {
        let i = choose|i: int|
            0 <= i < self.tables@.len() && (#[trigger] self.tables@[i]).0 == base;
        self.lemma_position_names_unit(i);
    }

    pub fn new() -> (r: PhysMem)
        ensures
            r.wf(),
            forall|b: u64| !r.contains_table(b),
            r.tables@.len() == 0,
    {
        PhysMem { tables: Vec::new() }
    }

    /// Borrow the unit based at `base`, if it is modeled.
    pub fn lookup(&self, base: u64) -> (r: Option<&PageTable>)
        requires
            self.wf(),
        ensures
            r.is_some() == self.contains_table(base),
            r.is_some() ==> r.unwrap().wf() && r.unwrap().entries@ == self.table_at(base),
    {
        let n = self.tables.len();
        let mut i: usize = 0;
        while i < n
            invariant
                self.wf(),
                n == self.tables@.len(),
                i <= n,
                forall|k: int| 0 <= k < i ==> (#[trigger] self.tables@[k]).0 != base,
            decreases n - i,
        {
            if self.tables[i].0 == base {
                proof {
                    self.lemma_position_names_unit(i as int);
                }
                return Some(&self.tables[i].1);
            }
            i += 1;
        }
        proof {
            if self.contains_table(base) {
                let k = choose|k: int|
                    0 <= k < self.tables@.len() && (#[trigger] self.tables@[k]).0 == base;
                assert(self.tables@[k].0 != base);
            }
        }
        None
    }

    /// Model one more 4 KiB unit.
    pub fn insert_table(&mut self, base: u64, table: PageTable)
        requires
            old(self).wf(),
            !old(self).contains_table(base),
            base & 0xfff == 0,
            table.wf(),
        ensures
            final(self).wf(),
            forall|b: u64|
                final(self).contains_table(b) == (old(self).contains_table(b) || b == base),
            final(self).table_at(base) == table.entries@,
            forall|b: u64|
                b != base && old(self).contains_table(b) ==> #[trigger] final(self).table_at(b)
                    == old(self).table_at(b),
    {
        let ghost pre = *self;
        self.tables.push((base, table));
        proof {
            let post = *self;
            let n = pre.tables@.len() as int;
            assert(post.tables@ == pre.tables@.push((base, table)));
            assert forall|b: u64| post.contains_table(b) == (pre.contains_table(b) || b
                == base) by {
                if pre.contains_table(b) {
                    let i = choose|i: int|
                        0 <= i < pre.tables@.len() && (#[trigger] pre.tables@[i]).0 == b;
                    assert(post.tables@[i].0 == b);
                } else if b == base {
                    assert(post.tables@[n].0 == b);
                } else if post.contains_table(b) {
                    let i = choose|i: int|
                        0 <= i < post.tables@.len() && (#[trigger] post.tables@[i]).0 == b;
                    assert(i < n ==> pre.tables@[i].0 == b);
                    assert(false);
                }
            }
            assert(post.wf()) by {
                assert forall|i: int, j: int|
                    0 <= i < j < post.tables@.len() implies post.tables@[i].0
                    != post.tables@[j].0 by {
                    if j == n {
                        if post.tables@[i].0 == base {
                            assert(pre.tables@[i].0 == base);
                            assert(pre.contains_table(base));
                        }
                    } else {
                        assert(pre.tables@[i].0 != pre.tables@[j].0);
                    }
                }
            }
            post.lemma_position_names_unit(n);
            assert forall|b: u64|
                b != base && pre.contains_table(b) implies #[trigger] post.table_at(b)
                == pre.table_at(b) by {
                let i = choose|i: int|
                    0 <= i < pre.tables@.len() && (#[trigger] pre.tables@[i]).0 == b;
                pre.lemma_position_names_unit(i);
                post.lemma_position_names_unit(i);
            }
        }
    }

    /// The position of the unit based at `base` in the table list.
    fn position_of(&self, base: u64) -> (r: usize)
        requires
            self.wf(),
            self.contains_table(base),
        ensures
            r < self.tables@.len(),
            self.tables@[r as int].0 == base,
    {
        let n = self.tables.len();
        let mut i: usize = 0;
        while i < n
            invariant
                self.wf(),
                self.contains_table(base),
                n == self.tables@.len(),
                i <= n,
                forall|k: int| 0 <= k < i ==> (#[trigger] self.tables@[k]).0 != base,
            decreases n - i,
        {
            if self.tables[i].0 == base {
                return i;
            }
            i += 1;
        }
        proof {
            let k = choose|k: int|
                0 <= k < self.tables@.len() && (#[trigger] self.tables@[k]).0 == base;
            assert(self.tables@[k].0 != base);
        }
        // the loop cannot fall through: `base` is modeled
        n
    }

    /// Overwrite one slot of a modeled unit, leaving every other unit
    /// and every other slot as it was.
    pub fn set_entry(&mut self, base: u64, idx: usize, e: PageTableEntry)
        requires
            old(self).wf(),
            old(self).contains_table(base),
            idx < TABLE_ENTRIES,
        ensures
            final(self).wf(),
            forall|b: u64| final(self).contains_table(b) == old(self).contains_table(b),
            final(self).table_at(base) == old(self).table_at(base).update(idx as int, e),
            forall|b: u64|
                b != base && old(self).contains_table(b) ==> #[trigger] final(self).table_at(b)
                    == old(self).table_at(b),
    {
        let ghost pre = *self;
        let j = self.position_of(base);
        let ghost n = pre.tables@.len() as int;
        let mut pair = self.tables.swap_remove(j);
        pair.1.set_entry(idx, e);
        let ghost upd = pair.1;
        self.tables.push(pair);
        proof {
            let post = *self;
            let jj = j as int;
            pre.lemma_position_names_unit(jj);
            // pre's pairs are pairwise distinct in key, in either order
            assert forall|a: int, b: int|
                0 <= a < n && 0 <= b < n && a != b implies pre.tables@[a].0
                != pre.tables@[b].0 by {
                if a < b {
                    assert(pre.tables@[a].0 != pre.tables@[b].0);
                } else {
                    assert(pre.tables@[b].0 != pre.tables@[a].0);
                }
            }
            // slot map: the last old pair moved to slot jj, the target
            // pair (updated) moved to the end, the rest stayed put
            assert(post.tables@.len() == n);
            assert(upd.entries@ == pre.tables@[jj].1.entries@.update(idx as int, e));
            assert(upd.wf());
            assert forall|i: int| 0 <= i < n implies #[trigger] post.tables@[i] == (if i == n - 1 {
                (base, upd)
            } else if i == jj {
                pre.tables@[n - 1]
            } else {
                pre.tables@[i]
            }) by {
                if i < n - 1 {
                    let trimmed = pre.tables@.update(jj, pre.tables@[n - 1]).drop_last();
                    assert(post.tables@[i] == trimmed[i]);
                }
            }
            assert(post.wf()) by {
                assert forall|a: int, b: int|
                    0 <= a < b < n implies post.tables@[a].0 != post.tables@[b].0 by {
                    let fa = if a == n - 1 {
                        jj
                    } else if a == jj {
                        n - 1
                    } else {
                        a
                    };
                    let fb = if b == n - 1 {
                        jj
                    } else if b == jj {
                        n - 1
                    } else {
                        b
                    };
                    assert(post.tables@[a].0 == pre.tables@[fa].0);
                    assert(post.tables@[b].0 == pre.tables@[fb].0);
                    assert(fa != fb);
                }
            }
            assert forall|b: u64| post.contains_table(b) == pre.contains_table(b) by {
                if pre.contains_table(b) {
                    let i = choose|i: int| 0 <= i < n && (#[trigger] pre.tables@[i]).0 == b;
                    let fi = if i == n - 1 {
                        jj
                    } else if i == jj {
                        n - 1
                    } else {
                        i
                    };
                    assert(post.tables@[fi].0 == b);
                }
                if post.contains_table(b) {
                    let i = choose|i: int| 0 <= i < n && (#[trigger] post.tables@[i]).0 == b;
                    let fi = if i == n - 1 {
                        jj
                    } else if i == jj {
                        n - 1
                    } else {
                        i
                    };
                    assert(pre.tables@[fi].0 == b);
                }
            }
            post.lemma_position_names_unit(n - 1);
            assert(post.table_at(base) == pre.table_at(base).update(idx as int, e));
            assert forall|b: u64|
                b != base && pre.contains_table(b) implies #[trigger] post.table_at(b)
                == pre.table_at(b) by {
                let i = choose|i: int| 0 <= i < n && (#[trigger] pre.tables@[i]).0 == b;
                assert(i != jj);
                let fi = if i == n - 1 {
                    jj
                } else {
                    i
                };
                assert(post.tables@[fi] == pre.tables@[i]);
                pre.lemma_position_names_unit(i);
                post.lemma_position_names_unit(fi);
            }
        }
    }
}

} // verus!
