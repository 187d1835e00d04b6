//! What holds of the locks that the connections of one process have on the
//! shared memory.

use vstd::prelude::*;
use crate::sqlite::vfs::shm::{
    all_free, shm_begun, shm_ended, shm_fits, slot_left, ShmLockMode, SlotState,
};

verus! {

/// How many of the connections have the flag of the slot `i`.
pub open spec fn count_at(flags: Seq<Seq<bool>>, i: int) -> nat
    decreases flags.len(),
{
    if flags.len() == 0 {
        0
    } else {
        count_at(flags.drop_last(), i) + if flags.last()[i] {
            1nat
        } else {
            0nat
        }
    }
}

/// What all connections hold, and what the slots say.
pub struct AllSlots {
    pub shared: Seq<Seq<bool>>,
    pub exclusive: Seq<Seq<bool>>,
    pub slots: Seq<i32>,
}

impl AllSlots {
    /// Whether the slot `i` says what the connections hold: one alone, or as
    /// many sharing it as it counts.
    pub open spec fn slot_fits(self, i: int) -> bool {
        if self.slots[i] == -1 {
            count_at(self.exclusive, i) == 1 && count_at(self.shared, i) == 0
        } else {
            count_at(self.exclusive, i) == 0 && count_at(self.shared, i) == self.slots[i]
        }
    }

    /// Whether all slots do.
    pub open spec fn consistent(self) -> bool {
        &&& self.slots.len() == 8
        &&& self.shared.len() == self.exclusive.len()
        &&& forall|k: int|
            0 <= k < self.shared.len() ==> (#[trigger] self.shared[k]).len() == 8
        &&& forall|k: int|
            0 <= k < self.exclusive.len() ==> (#[trigger] self.exclusive[k]).len() == 8
        &&& forall|i: int| 0 <= i < 8 ==> #[trigger] self.slot_fits(i)
    }

    /// What the connection `k` sees.
    pub open spec fn seen_by(self, k: int) -> SlotState {
        SlotState { shared: self.shared[k], exclusive: self.exclusive[k], slots: self.slots }
    }

    /// The same after the connection `k` changed what it sees.
    pub open spec fn changed_by(self, k: int, s: SlotState) -> AllSlots {
        AllSlots {
            shared: self.shared.update(k, s.shared),
            exclusive: self.exclusive.update(k, s.exclusive),
            slots: s.slots,
        }
    }
}

proof fn lemma_count_update(flags: Seq<Seq<bool>>, k: int, new: Seq<bool>, i: int)
    requires
        0 <= k < flags.len(),
    ensures
        count_at(flags.update(k, new), i) + if flags[k][i] {
            1int
        } else {
            0int
        } == count_at(flags, i) + if new[i] {
            1int
        } else {
            0int
        },
    decreases flags.len(),
{
    let after = flags.update(k, new);
    if k == flags.len() - 1 {
        assert(after.drop_last() =~= flags.drop_last());
    } else {
        assert(after.drop_last() =~= flags.drop_last().update(k, new));
        assert(after.last() == flags.last());
        lemma_count_update(flags.drop_last(), k, new, i);
    }
}

proof fn lemma_positive(flags: Seq<Seq<bool>>, k: int, i: int)
    requires
        0 <= k < flags.len(),
        flags[k][i],
    ensures
        count_at(flags, i) >= 1,
    decreases flags.len(),
{
    if k < flags.len() - 1 {
        lemma_positive(flags.drop_last(), k, i);
    }
}

proof fn lemma_two(flags: Seq<Seq<bool>>, k: int, j: int, i: int)
    requires
        0 <= k < flags.len(),
        0 <= j < flags.len(),
        k != j,
        flags[k][i],
        flags[j][i],
    ensures
        count_at(flags, i) >= 2,
    decreases flags.len(),
{
    let init = flags.drop_last();
    if k < init.len() && j < init.len() {
        lemma_two(init, k, j, i);
    } else if k < init.len() {
        lemma_positive(init, k, i);
    } else {
        lemma_positive(init, j, i);
    }
}

/// Who holds a slot alone is alone: no other connection holds it in any way.
pub proof fn exclusive_slot_is_alone(all: AllSlots, k: int, j: int, i: int)
    requires
        all.consistent(),
        0 <= k < all.shared.len(),
        0 <= j < all.shared.len(),
        k != j,
        0 <= i < 8,
        all.exclusive[k][i],
    ensures
        !all.exclusive[j][i],
        !all.shared[j][i],
{
    assert(all.slot_fits(i));
    lemma_positive(all.exclusive, k, i);
    if all.exclusive[j][i] {
        lemma_two(all.exclusive, k, j, i);
    }
    if all.shared[j][i] {
        lemma_positive(all.shared, j, i);
    }
}

/// Locking and unlocking keep what the slots say in step with what the
/// connections hold, when the system does what it is asked for; and when it
/// does not, except in giving back a shared lock, nothing changes. A
/// connection does not ask for a shared lock that it has.
pub proof fn slots_stay_consistent(
    all: AllSlots,
    k: int,
    offset: int,
    count: int,
    mode: ShmLockMode,
)
    requires
        all.consistent(),
        0 <= k < all.shared.len(),
        shm_fits(all.seen_by(k), offset, count, mode),
        mode is LockShared ==> !all.shared[k][offset],
    ensures
        ({
            let (s, action) = shm_begun(all.seen_by(k), offset, count, mode);
            &&& action is Done ==> all.changed_by(k, s).consistent()
            &&& !(action is Done) ==> all.changed_by(
                k,
                shm_ended(s, offset, count, mode),
            ).consistent()
            &&& !(action is Done) && !(mode is UnlockShared) ==> s == all.seen_by(k)
            &&& action is Done && action->Done_0 is Some ==> s == all.seen_by(k)
        }),
{
    let before = all.seen_by(k);
    let (s, action) = shm_begun(before, offset, count, mode);
    let end = if action is Done {
        s
    } else {
        shm_ended(s, offset, count, mode)
    };
    let after = all.changed_by(k, end);
    assert forall|i: int| 0 <= i < 8 implies #[trigger] after.slot_fits(i) by {
        assert(all.slot_fits(i));
        lemma_count_update(all.shared, k, end.shared, i);
        lemma_count_update(all.exclusive, k, end.exclusive, i);
        if before.shared[i] {
            lemma_positive(all.shared, k, i);
        }
        if before.exclusive[i] {
            lemma_positive(all.exclusive, k, i);
        }
    }
}

/// When a connection leaves, what the slots say stays in step with what the
/// other connections hold.
pub proof fn leaving_keeps_slots_consistent(all: AllSlots, k: int)
    requires
        all.consistent(),
        0 <= k < all.shared.len(),
    ensures
        all.changed_by(
            k,
            (SlotState {
                shared: Seq::new(8, |i: int| false),
                exclusive: Seq::new(8, |i: int| false),
                slots: Seq::new(8, |i: int| slot_left(all.seen_by(k), i)),
            }),
        ).consistent(),
{
    let s = all.seen_by(k);
    let none = Seq::new(8, |i: int| false);
    let left = SlotState {
        shared: none,
        exclusive: none,
        slots: Seq::new(8, |i: int| slot_left(s, i)),
    };
    let after = all.changed_by(k, left);
    assert forall|i: int| 0 <= i < 8 implies #[trigger] after.slot_fits(i) by {
        assert(all.slot_fits(i));
        lemma_count_update(all.shared, k, none, i);
        lemma_count_update(all.exclusive, k, none, i);
        if s.shared[i] {
            lemma_positive(all.shared, k, i);
        }
        if s.exclusive[i] {
            lemma_positive(all.exclusive, k, i);
        }
    }
}

/// A file that was just opened, by connections that hold nothing, is
/// consistent.
pub proof fn new_slots_are_consistent(all: AllSlots)
    requires
        all.slots == Seq::new(8, |i: int| 0i32),
        all.shared.len() == all.exclusive.len(),
        forall|k: int| 0 <= k < all.shared.len() ==> (#[trigger] all.shared[k]) == Seq::new(8, |i: int| false),
        forall|k: int|
            0 <= k < all.exclusive.len() ==> (#[trigger] all.exclusive[k]) == Seq::new(8, |i: int| false),
    ensures
        all.consistent(),
{
    assert forall|i: int| 0 <= i < 8 implies #[trigger] all.slot_fits(i) by {
        lemma_none(all.shared, i);
        lemma_none(all.exclusive, i);
    }
}

proof fn lemma_none(flags: Seq<Seq<bool>>, i: int)
    requires
        forall|k: int| 0 <= k < flags.len() ==> (#[trigger] flags[k]) == Seq::new(8, |i: int| false),
        0 <= i < 8,
    ensures
        count_at(flags, i) == 0,
    decreases flags.len(),
{
    if flags.len() > 0 {
        let init = flags.drop_last();
        assert forall|k: int| 0 <= k < init.len() implies (#[trigger] init[k]) == Seq::new(8, |i: int| false) by {
            assert(flags[k] == Seq::new(8, |i: int| false));
        }
        lemma_none(init, i);
        assert(flags[flags.len() - 1] == Seq::new(8, |i: int| false));
    }
}

/// Slots that were locked and unlocked again are as they were, if the system
/// grants the calls: a connection that did not hold a slot shares it and gives
/// it back.
pub proof fn shared_slots_are_given_back(s: SlotState, offset: int)
    requires
        s.shared.len() == 8,
        s.exclusive.len() == 8,
        s.slots.len() == 8,
        0 <= offset < 8,
        0 <= s.slots[offset] < i32::MAX,
        !s.shared[offset],
    ensures
        ({
            let locked = done(s, offset, 1, ShmLockMode::LockShared);
            done(locked, offset, 1, ShmLockMode::UnlockShared) == s
        }),
{
    let locked = done(s, offset, 1, ShmLockMode::LockShared);
    let back = done(locked, offset, 1, ShmLockMode::UnlockShared);
    assert(back.shared =~= s.shared);
    assert(back.slots =~= s.slots);
}

/// The same of slots that a connection holds alone.
pub proof fn exclusive_slots_are_given_back(s: SlotState, offset: int, count: int)
    requires
        s.shared.len() == 8,
        s.exclusive.len() == 8,
        s.slots.len() == 8,
        0 <= offset,
        0 <= count,
        offset + count <= 8,
        all_free(s.slots, offset, count),
        forall|i: int| offset <= i < offset + count ==> !(#[trigger] s.exclusive[i]),
    ensures
        ({
            let locked = done(s, offset, count, ShmLockMode::LockExclusive);
            done(locked, offset, count, ShmLockMode::UnlockExclusive) == s
        }),
{
    let locked = done(s, offset, count, ShmLockMode::LockExclusive);
    let back = done(locked, offset, count, ShmLockMode::UnlockExclusive);
    assert(back.exclusive =~= s.exclusive);
    assert(back.slots =~= s.slots);
}

/// Locking or unlocking in full, if the system grants the call.
pub open spec fn done(s: SlotState, offset: int, count: int, mode: ShmLockMode) -> SlotState {
    let (begun, action) = shm_begun(s, offset, count, mode);
    if action is Done {
        begun
    } else {
        shm_ended(begun, offset, count, mode)
    }
}

} // verus!
