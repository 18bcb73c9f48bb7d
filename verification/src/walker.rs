//! The page-table walker: a depth-first descent over the four-level
//! hierarchy that enumerates every present entry, each annotated with
//! its level, its index path, and the raw entry. Not-present entries
//! are skipped, never descended; huge-page terminals at levels 3 and
//! 2 end their branch.

use vstd::prelude::*;

use crate::addr::spec_l1_index;
use crate::addr::spec_l2_index;
use crate::addr::spec_l3_index;
use crate::addr::spec_l4_index;
use crate::addr::spec_offset_4k;
use crate::addr::PhysicalAddress;
use crate::mem::PhysMem;
use crate::table::PageTableEntry;
use crate::translate::spec_terminal;
use crate::translate::spec_translate;
use crate::translate::wf_tree;
use crate::translate::TranslationResult;

verus! {

/// One observation of the walk: a present entry, the level it sits
/// on (4 down to 1), and the table indices that reach it. Index
/// fields below the entry's own level are zero.
#[derive(Clone, Copy, PartialEq, Eq, Structural, Debug)]
pub struct WalkItem {
    pub level: u8,
    pub i4: usize,
    pub i3: usize,
    pub i2: usize,
    pub i1: usize,
    pub entry: PageTableEntry,
}

/// The item recorded for slot `i` of a table at `level`, under the
/// path prefix `p4, p3, p2`.
pub open spec fn mk_item(
    level: int,
    p4: usize,
    p3: usize,
    p2: usize,
    i: usize,
    e: PageTableEntry,
) -> WalkItem {
    if level == 4 {
        WalkItem { level: 4, i4: i, i3: 0, i2: 0, i1: 0, entry: e }
    } else if level == 3 {
        WalkItem { level: 3, i4: p4, i3: i, i2: 0, i1: 0, entry: e }
    } else if level == 2 {
        WalkItem { level: 2, i4: p4, i3: p3, i2: i, i1: 0, entry: e }
    } else {
        WalkItem { level: 1, i4: p4, i3: p3, i2: p2, i1: i, entry: e }
    }
}

/// The observations contributed by slots `0 .. n` of the table based
/// at `base`, in depth-first order.
pub open spec fn spec_walk_upto(
    mem: PhysMem,
    base: u64,
    level: int,
    p4: usize,
    p3: usize,
    p2: usize,
    n: int,
) -> Seq<WalkItem>
    decreases level, n, 1int,
{
    if n <= 0 || level < 1 {
        Seq::empty()
    } else {
        spec_walk_upto(mem, base, level, p4, p3, p2, n - 1) + spec_walk_slot(
            mem,
            base,
            level,
            p4,
            p3,
            p2,
            n - 1,
        )
    }
}

/// The observations contributed by slot `i` alone: nothing if the
/// entry is not present; the entry itself, followed by the whole
/// subtree behind it unless it terminates translation at this level.
pub open spec fn spec_walk_slot(
    mem: PhysMem,
    base: u64,
    level: int,
    p4: usize,
    p3: usize,
    p2: usize,
    i: int,
) -> Seq<WalkItem>
    decreases level, i, 2int,
{
    if level < 1 {
        Seq::empty()
    } else {
        let e = mem.entry_at(base, i);
        if !e.present() {
            Seq::empty()
        } else if spec_terminal(level, e) {
            seq![mk_item(level, p4, p3, p2, i as usize, e)]
        } else {
            seq![mk_item(level, p4, p3, p2, i as usize, e)] + spec_walk_upto(
                mem,
                e.frame_base(),
                level - 1,
                (if level == 4 {
                    i as usize
                } else {
                    p4
                }),
                (if level == 3 {
                    i as usize
                } else {
                    p3
                }),
                (if level == 2 {
                    i as usize
                } else {
                    p2
                }),
                512,
            )
        }
    }
}

/// The full enumeration of the hierarchy rooted at `root`.
pub open spec fn spec_walk(mem: PhysMem, root: u64) -> Seq<WalkItem> {
    spec_walk_upto(mem, root, 4, 0, 0, 0, 512)
}

/// Record, in depth-first order, every present entry reachable from
/// the table based at `base` standing `level` levels above the leaves.
fn walk_table(
    mem: &PhysMem,
    base: u64,
    level: u8,
    p4: usize,
    p3: usize,
    p2: usize,
    out: &mut Vec<WalkItem>,
)
    requires
        mem.wf(),
        1 <= level <= 4,
        wf_tree(*mem, base, level as int),
    ensures
        final(out)@ == old(out)@ + spec_walk_upto(*mem, base, level as int, p4, p3, p2, 512),
    decreases level,
{
    let table = mem.lookup(base).unwrap();
    proof {
        mem.lemma_table_len(base);
        assert(out@ + spec_walk_upto(*mem, base, level as int, p4, p3, p2, 0) =~= out@);
    }
    let ghost entry_seq = out@;
    let mut i: usize = 0;
    while i < 512
        invariant
            mem.wf(),
            1 <= level <= 4,
            wf_tree(*mem, base, level as int),
            table.wf(),
            table.entries@ == mem.table_at(base),
            i <= 512,
            out@ == entry_seq + spec_walk_upto(*mem, base, level as int, p4, p3, p2, i as int),
        decreases 512 - i,
    {
        let e = table.entry(i);
        proof {
            assert(e == mem.entry_at(base, i as int));
        }
        if e.is_present() {
            let terminal = level == 1 || ((level == 2 || level == 3) && e.is_huge());
            proof {
                assert(terminal == spec_terminal(level as int, e));
            }
            let item = if level == 4 {
                WalkItem { level: 4, i4: i, i3: 0, i2: 0, i1: 0, entry: e }
            } else if level == 3 {
                WalkItem { level: 3, i4: p4, i3: i, i2: 0, i1: 0, entry: e }
            } else if level == 2 {
                WalkItem { level: 2, i4: p4, i3: p3, i2: i, i1: 0, entry: e }
            } else {
                WalkItem { level: 1, i4: p4, i3: p3, i2: p2, i1: i, entry: e }
            };
            proof {
                assert(item == mk_item(level as int, p4, p3, p2, i, e));
            }
            out.push(item);
            if !terminal {
                proof {
                    assert(wf_tree(*mem, e.frame_base(), level as int - 1));
                }
                let q4 = if level == 4 {
                    i
                } else {
                    p4
                };
                let q3 = if level == 3 {
                    i
                } else {
                    p3
                };
                let q2 = if level == 2 {
                    i
                } else {
                    p2
                };
                walk_table(mem, e.frame_base_addr(), level - 1, q4, q3, q2, out);
            }
        }
        proof {
            let lvl = level as int;
            let step = spec_walk_slot(*mem, base, lvl, p4, p3, p2, i as int);
            assert(spec_walk_upto(*mem, base, lvl, p4, p3, p2, i as int + 1) == spec_walk_upto(
                *mem,
                base,
                lvl,
                p4,
                p3,
                p2,
                i as int,
            ) + step);
            if e.present() {
                if spec_terminal(lvl, e) {
                    assert(step =~= seq![mk_item(lvl, p4, p3, p2, i, e)]);
                } else {
                }
            } else {
                assert(step =~= Seq::<WalkItem>::empty());
            }
            assert(out@ == entry_seq + spec_walk_upto(
                *mem,
                base,
                lvl,
                p4,
                p3,
                p2,
                i as int + 1,
            )) by {
                assert(out@ =~= entry_seq + (spec_walk_upto(*mem, base, lvl, p4, p3, p2, i as int)
                    + step));
            }
        }
        i += 1;
    }
}

/// Enumerate every present entry reachable from the level-4 table
/// based at `root`, in depth-first order. The walk is read-only and
/// never dereferences the frame field of a not-present entry.
pub fn walk_hierarchy(mem: &PhysMem, root: u64) -> (r: Vec<WalkItem>)
    requires
        mem.wf(),
        wf_tree(*mem, root, 4),
    ensures
        r@ == spec_walk(*mem, root),
{
    let mut out: Vec<WalkItem> = Vec::new();
    walk_table(mem, root, 4, 0, 0, 0, &mut out);
    proof {
        assert(Seq::<WalkItem>::empty() + spec_walk(*mem, root) =~= spec_walk(*mem, root));
    }
    out
}

/// The table a walk at `level` under path prefix `p4, p3, p2` reads:
/// the prefix entries above it are present and descendable, and
/// `base` is the table they chain to.
pub open spec fn prefix_reaches(
    mem: PhysMem,
    root: u64,
    level: int,
    p4: usize,
    p3: usize,
    p2: usize,
    base: u64,
) -> bool {
    if level == 4 {
        base == root
    } else {
        let e4 = mem.entry_at(root, p4 as int);
        if level == 3 {
            e4.present() && base == e4.frame_base()
        } else {
            let e3 = mem.entry_at(e4.frame_base(), p3 as int);
            if level == 2 {
                e4.present() && e3.present() && !e3.huge() && base == e3.frame_base()
            } else {
                let e2 = mem.entry_at(e3.frame_base(), p2 as int);
                e4.present() && e3.present() && !e3.huge() && e2.present() && !e2.huge() && base
                    == e2.frame_base()
            }
        }
    }
}

/// A walk observation is sound: the entries its index path chains
/// through above it are present and descendable, and the recorded
/// entry is exactly the present entry at that path.
pub open spec fn item_sound(mem: PhysMem, root: u64, it: WalkItem) -> bool {
    let e4 = mem.entry_at(root, it.i4 as int);
    let e3 = mem.entry_at(e4.frame_base(), it.i3 as int);
    let e2 = mem.entry_at(e3.frame_base(), it.i2 as int);
    let e1 = mem.entry_at(e2.frame_base(), it.i1 as int);
    &&& it.entry.present()
    &&& (it.level == 4 || it.level == 3 || it.level == 2 || it.level == 1)
    &&& (it.level == 4 ==> it.entry == e4)
    &&& (it.level == 3 ==> e4.present() && it.entry == e3)
    &&& (it.level == 2 ==> e4.present() && e3.present() && !e3.huge() && it.entry == e2)
    &&& (it.level == 1 ==> e4.present() && e3.present() && !e3.huge() && e2.present()
        && !e2.huge() && it.entry == e1)
}

/// Every observation contributed by slots `0 .. n` of a table the
/// prefix reaches is sound.
proof fn lemma_walk_upto_sound(
    mem: PhysMem,
    root: u64,
    base: u64,
    level: int,
    p4: usize,
    p3: usize,
    p2: usize,
    n: int,
)
    requires
        1 <= level <= 4,
        n <= 512,
        prefix_reaches(mem, root, level, p4, p3, p2, base),
    ensures
        (forall|k: int|
            0 <= k < spec_walk_upto(mem, base, level, p4, p3, p2, n).len() ==> item_sound(
                mem,
                root,
                #[trigger] spec_walk_upto(mem, base, level, p4, p3, p2, n)[k],
            )),
    decreases level, n, 1int,
{
    if n <= 0 {
    } else {
        lemma_walk_upto_sound(mem, root, base, level, p4, p3, p2, n - 1);
        lemma_walk_slot_sound(mem, root, base, level, p4, p3, p2, n - 1);
        let head = spec_walk_upto(mem, base, level, p4, p3, p2, n - 1);
        let tail = spec_walk_slot(mem, base, level, p4, p3, p2, n - 1);
        assert forall|k: int|
            0 <= k < spec_walk_upto(mem, base, level, p4, p3, p2, n).len() implies item_sound(
            mem,
            root,
            #[trigger] spec_walk_upto(mem, base, level, p4, p3, p2, n)[k],
        ) by {
            if k < head.len() {
                assert(spec_walk_upto(mem, base, level, p4, p3, p2, n)[k] == head[k]);
            } else {
                assert(spec_walk_upto(mem, base, level, p4, p3, p2, n)[k] == tail[k - head.len()]);
            }
        }
    }
}

/// Every observation contributed by slot `i` of a table the prefix
/// reaches is sound.
proof fn lemma_walk_slot_sound(
    mem: PhysMem,
    root: u64,
    base: u64,
    level: int,
    p4: usize,
    p3: usize,
    p2: usize,
    i: int,
)
    requires
        1 <= level <= 4,
        0 <= i < 512,
        prefix_reaches(mem, root, level, p4, p3, p2, base),
    ensures
        (forall|k: int|
            0 <= k < spec_walk_slot(mem, base, level, p4, p3, p2, i).len() ==> item_sound(
                mem,
                root,
                #[trigger] spec_walk_slot(mem, base, level, p4, p3, p2, i)[k],
            )),
    decreases level, i, 2int,
{
    let e = mem.entry_at(base, i);
    if !e.present() {
    } else {
        let item = mk_item(level, p4, p3, p2, i as usize, e);
        assert(item_sound(mem, root, item));
        if !spec_terminal(level, e) {
            let q4 = if level == 4 {
                i as usize
            } else {
                p4
            };
            let q3 = if level == 3 {
                i as usize
            } else {
                p3
            };
            let q2 = if level == 2 {
                i as usize
            } else {
                p2
            };
            assert(prefix_reaches(mem, root, level - 1, q4, q3, q2, e.frame_base()));
            lemma_walk_upto_sound(mem, root, e.frame_base(), level - 1, q4, q3, q2, 512);
            let head = seq![item];
            let tail = spec_walk_upto(mem, e.frame_base(), level - 1, q4, q3, q2, 512);
            assert forall|k: int|
                0 <= k < spec_walk_slot(mem, base, level, p4, p3, p2, i).len() implies item_sound(
                mem,
                root,
                #[trigger] spec_walk_slot(mem, base, level, p4, p3, p2, i)[k],
            ) by {
                if k == 0 {
                    assert(spec_walk_slot(mem, base, level, p4, p3, p2, i)[k] == item);
                } else {
                    assert(spec_walk_slot(mem, base, level, p4, p3, p2, i)[k] == tail[k - 1]);
                }
            }
        }
    }
}

/// Everything the walker enumerates is sound: the recorded entry is
/// the present entry at the recorded path, and every entry above it
/// on that path is present and descendable. In particular the walker
/// never observes — and so never dereferences — a not-present entry.
pub proof fn lemma_walk_sound(mem: PhysMem, root: u64)
    ensures
        (forall|k: int|
            0 <= k < spec_walk(mem, root).len() ==> item_sound(
                mem,
                root,
                #[trigger] spec_walk(mem, root)[k],
            )),
{
    lemma_walk_upto_sound(mem, root, root, 4, 0, 0, 0, 512);
}

/// The level-1 entry at an explicit index path.
pub open spec fn entry_at_path(
    mem: PhysMem,
    root: u64,
    i4: usize,
    i3: usize,
    i2: usize,
    i1: usize,
) -> PageTableEntry {
    let e4 = mem.entry_at(root, i4 as int);
    let e3 = mem.entry_at(e4.frame_base(), i3 as int);
    let e2 = mem.entry_at(e3.frame_base(), i2 as int);
    mem.entry_at(e2.frame_base(), i1 as int)
}

/// The index path chains through present, descendable entries down to
/// a present 4 KiB leaf.
pub open spec fn path_mapped_4k(
    mem: PhysMem,
    root: u64,
    i4: usize,
    i3: usize,
    i2: usize,
    i1: usize,
) -> bool {
    let e4 = mem.entry_at(root, i4 as int);
    let e3 = mem.entry_at(e4.frame_base(), i3 as int);
    let e2 = mem.entry_at(e3.frame_base(), i2 as int);
    let e1 = mem.entry_at(e2.frame_base(), i1 as int);
    &&& e4.present()
    &&& e3.present() && !e3.huge()
    &&& e2.present() && !e2.huge()
    &&& e1.present()
}

/// An observation of slot `i` stands somewhere in the observations of
/// slots `0 .. n` whenever `i < n`.
proof fn lemma_slot_in_upto(
    mem: PhysMem,
    base: u64,
    level: int,
    p4: usize,
    p3: usize,
    p2: usize,
    i: int,
    n: int,
    x: WalkItem,
)
    requires
        1 <= level <= 4,
        0 <= i < n <= 512,
        spec_walk_slot(mem, base, level, p4, p3, p2, i).contains(x),
    ensures
        spec_walk_upto(mem, base, level, p4, p3, p2, n).contains(x),
    decreases n,
{
    let head = spec_walk_upto(mem, base, level, p4, p3, p2, n - 1);
    let tail = spec_walk_slot(mem, base, level, p4, p3, p2, n - 1);
    if i == n - 1 {
        let k = choose|k: int| 0 <= k < tail.len() && tail[k] == x;
        assert(spec_walk_upto(mem, base, level, p4, p3, p2, n)[head.len() + k] == x);
    } else {
        lemma_slot_in_upto(mem, base, level, p4, p3, p2, i, n - 1, x);
        let k = choose|k: int| 0 <= k < head.len() && head[k] == x;
        assert(spec_walk_upto(mem, base, level, p4, p3, p2, n)[k] == x);
    }
}

/// The walk is complete: every present 4 KiB leaf whose path chains
/// through present, descendable entries is enumerated, under exactly
/// its path. Together with soundness this makes the enumeration the
/// full reachable mapping set, with no separate counting pass.
pub proof fn lemma_walk_complete_4k(
    mem: PhysMem,
    root: u64,
    i4: usize,
    i3: usize,
    i2: usize,
    i1: usize,
)
    requires
        i4 < 512,
        i3 < 512,
        i2 < 512,
        i1 < 512,
        path_mapped_4k(mem, root, i4, i3, i2, i1),
    ensures
        spec_walk(mem, root).contains(
            mk_item(1, i4, i3, i2, i1, entry_at_path(mem, root, i4, i3, i2, i1)),
        ),
{
    let e4 = mem.entry_at(root, i4 as int);
    let b3 = e4.frame_base();
    let e3 = mem.entry_at(b3, i3 as int);
    let b2 = e3.frame_base();
    let e2 = mem.entry_at(b2, i2 as int);
    let b1 = e2.frame_base();
    let e1 = mem.entry_at(b1, i1 as int);
    let item = mk_item(1, i4, i3, i2, i1, e1);
    // the leaf is its slot's whole contribution
    assert(spec_terminal(1, e1));
    assert(spec_walk_slot(mem, b1, 1, i4, i3, i2, i1 as int)[0] == item);
    lemma_slot_in_upto(mem, b1, 1, i4, i3, i2, i1 as int, 512, item);
    // level 2: slot i2 descends into the level-1 table
    let below2 = spec_walk_upto(mem, b1, 1, i4, i3, i2, 512);
    let k1 = choose|k: int| 0 <= k < below2.len() && below2[k] == item;
    assert(!spec_terminal(2, e2));
    assert(spec_walk_slot(mem, b2, 2, i4, i3, 0, i2 as int)[1 + k1] == item);
    lemma_slot_in_upto(mem, b2, 2, i4, i3, 0, i2 as int, 512, item);
    // level 3: slot i3 descends into the level-2 table
    let below3 = spec_walk_upto(mem, b2, 2, i4, i3, 0, 512);
    let k2 = choose|k: int| 0 <= k < below3.len() && below3[k] == item;
    assert(!spec_terminal(3, e3));
    assert(spec_walk_slot(mem, b3, 3, i4, 0, 0, i3 as int)[1 + k2] == item);
    lemma_slot_in_upto(mem, b3, 3, i4, 0, 0, i3 as int, 512, item);
    // level 4: slot i4 descends into the level-3 table
    let below4 = spec_walk_upto(mem, b3, 3, i4, 0, 0, 512);
    let k3 = choose|k: int| 0 <= k < below4.len() && below4[k] == item;
    assert(!spec_terminal(4, e4));
    assert(spec_walk_slot(mem, root, 4, 0, 0, 0, i4 as int)[1 + k3] == item);
    lemma_slot_in_upto(mem, root, 4, 0, 0, 0, i4 as int, 512, item);
}

/// Every present 4 KiB terminal entry the walker enumerates agrees
/// with the translator: a linear address whose decoded indices match
/// the item's path resolves to the entry's frame base plus the
/// address's low 12 bits.
pub proof fn lemma_enumerated_4k_entry_translates(mem: PhysMem, root: u64, it: WalkItem, la: u64)
    requires
        spec_walk(mem, root).contains(it),
        it.level == 1,
        spec_l4_index(la) == it.i4 as u64,
        spec_l3_index(la) == it.i3 as u64,
        spec_l2_index(la) == it.i2 as u64,
        spec_l1_index(la) == it.i1 as u64,
    ensures
        spec_translate(mem, root, la) == TranslationResult::Resolved(
            (PhysicalAddress { raw: (it.entry.frame_base() + spec_offset_4k(la)) as u64 }),
        ),
{
    lemma_walk_sound(mem, root);
    let walk = spec_walk(mem, root);
    let k = choose|k: int| 0 <= k < walk.len() && walk[k] == it;
    assert(item_sound(mem, root, it));
    let bits = it.entry.bits;
    assert((bits & 0x000f_ffff_ffff_f000u64) & 0x000f_ffff_ffff_f000u64 == bits
        & 0x000f_ffff_ffff_f000u64) by (bit_vector);
    let v = la;
    assert(v & 0xfff < 0x40000000) by (bit_vector);
    crate::translate::lemma_sum_fits(it.entry.frame_base(), spec_offset_4k(la));
}

} // verus!
