//! Long names do not depend on the order of their slots.

use vstd::prelude::*;
use vstd::seq_lib::to_multiset_contains;
use crate::vfat::dir::{next_entry, slot_at, slot_count};
use crate::vfat::slot::{slot_kind, LfnView, SlotKind};

verus! {

/// What is known of a long name after the slots of `slots` were seen one
/// after the other, when `before` was known before them.
pub open spec fn seen_all(before: Option<Seq<u16>>, slots: Seq<Seq<u8>>) -> Option<Seq<u16>>
    decreases slots.len(),
{
    if slots.len() == 0 {
        before
    } else {
        LfnView::of(slots.last()).seen(seen_all(before, slots.drop_last()))
    }
}

/// Whether the slot has a place in its name, and the code unit of number `p`
/// of the name lies in that place.
pub open spec fn covers(slot: Seq<u8>, p: int) -> bool {
    let index = LfnView::of(slot).index();
    index != 0 && (index - 1) * 13 <= p < index * 13
}

/// The code unit that the slot gives for the place `p` of the name.
pub open spec fn unit_of(slot: Seq<u8>, p: int) -> u16 {
    LfnView::of(slot).units()[p - (LfnView::of(slot).index() - 1) * 13]
}

/// The number of the last slot that covers the place `p`, or -1.
pub open spec fn last_covering(slots: Seq<Seq<u8>>, p: int) -> int
    decreases slots.len(),
{
    if slots.len() == 0 {
        -1
    } else if covers(slots.last(), p) {
        slots.len() - 1
    } else {
        last_covering(slots.drop_last(), p)
    }
}

proof fn lemma_last_covering(slots: Seq<Seq<u8>>, p: int)
    ensures
        -1 <= last_covering(slots, p) < slots.len(),
        last_covering(slots, p) >= 0 ==> covers(slots[last_covering(slots, p)], p),
        last_covering(slots, p) == -1 ==> forall|k: int| 0 <= k < slots.len() ==> !covers(#[trigger] slots[k], p),
    decreases slots.len(),
{
    if slots.len() > 0 && !covers(slots.last(), p) {
        let front = slots.drop_last();
        lemma_last_covering(front, p);
        if last_covering(front, p) == -1 {
            assert forall|k: int| 0 <= k < slots.len() implies !covers(#[trigger] slots[k], p) by {
                if k < front.len() {
                    assert(front[k] == slots[k]);
                }
            }
        } else {
            assert(front[last_covering(front, p)] == slots[last_covering(front, p)]);
        }
    }
}

/// After the slots were seen, the buffer holds at every place what the last
/// slot that covers the place gave for it, and zero where no slot covers the
/// place. There is a buffer if and only if some slot has a place.
pub proof fn lemma_seen_all(slots: Seq<Seq<u8>>, p: int)
    requires
        0 <= p < 403,
    ensures
        match seen_all(None, slots) {
            Some(buffer) => {
                &&& buffer.len() == 403
                &&& buffer[p] == if last_covering(slots, p) >= 0 {
                    unit_of(slots[last_covering(slots, p)], p)
                } else {
                    0u16
                }
                &&& exists|k: int| 0 <= k < slots.len() && LfnView::of(#[trigger] slots[k]).index() != 0
            },
            None => forall|k: int| 0 <= k < slots.len() ==> LfnView::of(#[trigger] slots[k]).index() == 0,
        },
    decreases slots.len(),
{
    if slots.len() > 0 {
        let front = slots.drop_last();
        let last = LfnView::of(slots.last());
        lemma_seen_all(front, p);
        lemma_last_covering(front, p);
        lemma_last_covering(slots, p);
        assert forall|k: int| 0 <= k < front.len() implies front[k] == slots[k] by {}
        let seq_byte = last.seq;
        assert(seq_byte & 0x1F <= 31) by (bit_vector);
        if last.index() == 0 {
            match seen_all(None, front) {
                Some(buffer) => {
                    let k = choose|k: int| 0 <= k < front.len() && LfnView::of(#[trigger] front[k]).index() != 0;
                    assert(LfnView::of(slots[k]).index() != 0);
                    if last_covering(front, p) >= 0 {
                        assert(front[last_covering(front, p)] == slots[last_covering(front, p)]);
                    }
                },
                None => {
                    assert forall|k: int| 0 <= k < slots.len() implies LfnView::of(
                        #[trigger] slots[k],
                    ).index() == 0 by {
                        if k < front.len() {
                            assert(front[k] == slots[k]);
                        }
                    }
                },
            }
        } else {
            assert(LfnView::of(slots[slots.len() - 1]).index() != 0);
            if !covers(slots.last(), p) {
                match seen_all(None, front) {
                    Some(buffer) => {
                        if last_covering(front, p) >= 0 {
                            assert(front[last_covering(front, p)] == slots[last_covering(front, p)]);
                        }
                    },
                    None => {
                        if last_covering(front, p) >= 0 {
                            assert(LfnView::of(front[last_covering(front, p)]).index() == 0);
                        }
                    },
                }
            }
        }
    }
}

/// The long name does not depend on the order of its slots: when the slots
/// of `b` are those of `a` in another order, and no two slots of `a` have the
/// same place, then both give the same buffer, and so the same name.
pub proof fn lemma_long_name_order_independent(a: Seq<Seq<u8>>, b: Seq<Seq<u8>>)
    requires
        a.to_multiset() == b.to_multiset(),
        forall|i: int, j: int|
            0 <= i < j < a.len() ==> LfnView::of(#[trigger] a[i]).index() != LfnView::of(#[trigger] a[j]).index(),
    ensures
        seen_all(None, a) == seen_all(None, b),
{
    assert forall|slot: Seq<u8>| a.contains(slot) == b.contains(slot) by {
        to_multiset_contains(a, slot);
        to_multiset_contains(b, slot);
    }
    lemma_seen_all(a, 0);
    lemma_seen_all(b, 0);
    match seen_all(None, a) {
        Some(in_a) => {
            let k = choose|k: int| 0 <= k < a.len() && LfnView::of(#[trigger] a[k]).index() != 0;
            assert(a.contains(a[k]));
            assert(b.contains(a[k]));
            let in_b = seen_all(None, b)->Some_0;
            assert forall|p: int| 0 <= p < 403 implies in_a[p] == in_b[p] by {
                lemma_seen_all(a, p);
                lemma_seen_all(b, p);
                lemma_last_covering(a, p);
                lemma_last_covering(b, p);
                let ja = last_covering(a, p);
                let jb = last_covering(b, p);
                if jb >= 0 {
                    assert(b.contains(b[jb]));
                    assert(a.contains(b[jb]));
                    let i = choose|i: int| 0 <= i < a.len() && a[i] == b[jb];
                    assert(covers(a[i], p));
                    if ja != i {
                        if ja < i {
                            assert(LfnView::of(a[ja]).index() != LfnView::of(a[i]).index());
                        } else {
                            assert(LfnView::of(a[i]).index() != LfnView::of(a[ja]).index());
                        }
                    }
                } else if ja >= 0 {
                    assert(a.contains(a[ja]));
                    assert(b.contains(a[ja]));
                    let j = choose|j: int| 0 <= j < b.len() && b[j] == a[ja];
                    assert(covers(b[j], p));
                }
            }
            assert(in_a =~= in_b);
        },
        None => {
            if seen_all(None, b) is Some {
                let k = choose|k: int| 0 <= k < b.len() && LfnView::of(#[trigger] b[k]).index() != 0;
                assert(b.contains(b[k]));
                assert(a.contains(b[k]));
                let i = choose|i: int| 0 <= i < a.len() && a[i] == b[k];
                assert(LfnView::of(a[i]).index() == 0);
            }
        },
    }
}

/// The `count` slots of `buf` from the slot `pos` on.
pub open spec fn slots_from(buf: Seq<u8>, pos: int, count: int) -> Seq<Seq<u8>> {
    Seq::new(count as nat, |k: int| slot_at(buf, pos + k))
}

/// A run of long-name slots is read as one: the entry after the run is the
/// entry that is read behind the run with what the slots of the run gave.
pub proof fn lemma_next_entry_after_long_name(buf: Seq<u8>, pos: int, count: int, lfn: Option<Seq<u16>>)
    requires
        0 <= pos,
        0 <= count,
        pos + count <= slot_count(buf),
        forall|k: int| 0 <= k < count ==> slot_kind(#[trigger] slot_at(buf, pos + k)) is LongFilename,
    ensures
        next_entry(buf, pos, lfn) == next_entry(buf, pos + count, seen_all(lfn, slots_from(buf, pos, count))),
    decreases count,
{
    if count == 0 {
        assert(slots_from(buf, pos, 0).len() == 0);
    } else {
        assert(slot_kind(slot_at(buf, pos + 0)) is LongFilename);
        let first = LfnView::of(slot_at(buf, pos)).seen(lfn);
        assert forall|k: int| 0 <= k < count - 1 implies slot_kind(
            #[trigger] slot_at(buf, pos + 1 + k),
        ) is LongFilename by {
            assert(slot_at(buf, pos + 1 + k) == slot_at(buf, pos + (k + 1)));
        }
        lemma_next_entry_after_long_name(buf, pos + 1, count - 1, first);
        lemma_seen_all_first(lfn, slots_from(buf, pos, count));
        assert(slots_from(buf, pos, count).drop_first() =~= slots_from(buf, pos + 1, count - 1));
    }
}

/// Seeing some slots is seeing the first of them and then the rest.
proof fn lemma_seen_all_first(before: Option<Seq<u16>>, slots: Seq<Seq<u8>>)
    requires
        slots.len() > 0,
    ensures
        seen_all(before, slots) == seen_all(LfnView::of(slots.first()).seen(before), slots.drop_first()),
    decreases slots.len(),
{
    let first = LfnView::of(slots.first()).seen(before);
    if slots.len() == 1 {
        assert(slots.drop_last().len() == 0);
        assert(slots.drop_first().len() == 0);
        assert(slots.last() == slots.first());
        assert(seen_all(before, slots.drop_last()) == before);
        assert(seen_all(first, slots.drop_first()) == first);
    } else {
        let front = slots.drop_last();
        let back = slots.drop_first();
        lemma_seen_all_first(before, front);
        assert(front.drop_first() =~= back.drop_last());
        assert(front.first() == slots.first());
        assert(back.last() == slots.last());
        assert(seen_all(before, front) == seen_all(first, back.drop_last()));
        assert(seen_all(first, back) == LfnView::of(back.last()).seen(seen_all(first, back.drop_last())));
        assert(seen_all(before, slots) == LfnView::of(slots.last()).seen(seen_all(before, front)));
    }
}

/// What is read from a slot on depends on the slots from there on only.
pub proof fn lemma_next_entry_same_slots(a: Seq<u8>, b: Seq<u8>, pos: int, lfn: Option<Seq<u16>>)
    requires
        0 <= pos,
        slot_count(a) == slot_count(b),
        forall|k: int| pos <= k < slot_count(a) ==> #[trigger] slot_at(a, k) == slot_at(b, k),
    ensures
        next_entry(a, pos, lfn) == next_entry(b, pos, lfn),
    decreases slot_count(a) - pos,
{
    if pos < slot_count(a) {
        let slot = slot_at(a, pos);
        assert(slot == slot_at(b, pos));
        match slot_kind(slot) {
            SlotKind::End => {},
            SlotKind::Deleted => {
                lemma_next_entry_same_slots(a, b, pos + 1, lfn);
            },
            SlotKind::LongFilename => {
                lemma_next_entry_same_slots(a, b, pos + 1, LfnView::of(slot).seen(lfn));
            },
            SlotKind::Regular => {
                lemma_next_entry_same_slots(a, b, pos + 1, None);
            },
        }
    }
}

/// Decoding a long name does not depend on the order of its slots.
///
/// Let two directories begin with `count` long-name slots each and be the
/// same from there on. When the long-name slots of the one are those of the
/// other in another order, and no two of them have the same place, then the
/// first entry of both directories is the same, and both go on from the same
/// slot.
pub proof fn lemma_shuffled_long_name(a: Seq<u8>, b: Seq<u8>, count: int)
    requires
        0 <= count <= slot_count(a),
        slot_count(a) == slot_count(b),
        forall|k: int| 0 <= k < count ==> slot_kind(#[trigger] slot_at(a, k)) is LongFilename,
        forall|k: int| 0 <= k < count ==> slot_kind(#[trigger] slot_at(b, k)) is LongFilename,
        forall|k: int| count <= k < slot_count(a) ==> #[trigger] slot_at(a, k) == slot_at(b, k),
        slots_from(a, 0, count).to_multiset() == slots_from(b, 0, count).to_multiset(),
        forall|i: int, j: int|
            0 <= i < j < count ==> LfnView::of(#[trigger] slot_at(a, i)).index() != LfnView::of(
                #[trigger] slot_at(a, j),
            ).index(),
    ensures
        next_entry(a, 0, None) == next_entry(b, 0, None),
{
    lemma_next_entry_after_long_name(a, 0, count, None);
    lemma_next_entry_after_long_name(b, 0, count, None);
    lemma_long_name_order_independent(slots_from(a, 0, count), slots_from(b, 0, count));
    lemma_next_entry_same_slots(a, b, count, seen_all(None, slots_from(a, 0, count)));
}

} // verus!
