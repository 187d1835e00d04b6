//! What the calls for the slots of the shared memory mean to other processes.
//! The system keeps a lock on each slot for each process; here the calls that
//! locking and unlocking ask for are replayed on such locks.

use vstd::prelude::*;
use crate::sqlite::vfs::lock_calls::Hold;
use crate::sqlite::vfs::shm::{
    shm_begun, shm_ended, shm_fits, slot_left, slot_released, slots_released, ShmAction,
    ShmLockMode, SlotState,
};

verus! {

/// The locks of a process after the system did what was asked for.
pub open spec fn slots_performed(holds: Seq<Hold>, action: ShmAction) -> Seq<Hold> {
    match action {
        ShmAction::Read { offset, count } => Seq::new(
            holds.len(),
            |i: int|
                if offset <= i < offset + count {
                    Hold::Read
                } else {
                    holds[i]
                },
        ),
        ShmAction::Write { offset, count } => Seq::new(
            holds.len(),
            |i: int|
                if offset <= i < offset + count {
                    Hold::Write
                } else {
                    holds[i]
                },
        ),
        ShmAction::Unlock { offset, count } => Seq::new(
            holds.len(),
            |i: int|
                if offset <= i < offset + count {
                    Hold::Free
                } else {
                    holds[i]
                },
        ),
        ShmAction::Done(_) => holds,
    }
}

/// Whether the system keeps for a process exactly what its connections hold: a
/// write lock on a slot that one of them holds alone, a read lock on one that
/// some share, and nothing on the others.
pub open spec fn slots_backed(slots: Seq<i32>, holds: Seq<Hold>) -> bool {
    &&& slots.len() == 8
    &&& holds.len() == 8
    &&& forall|i: int|
        0 <= i < 8 ==> (#[trigger] holds[i]) == if slots[i] < 0 {
            Hold::Write
        } else if slots[i] > 0 {
            Hold::Read
        } else {
            Hold::Free
        }
}

/// Whether two processes can have these locks at a time.
pub open spec fn slots_compatible(a: Seq<Hold>, b: Seq<Hold>) -> bool {
    forall|i: int|
        0 <= i < 8 ==> ((#[trigger] a[i]) is Write ==> (#[trigger] b[i]) is Free) && (b[i] is Write
            ==> a[i] is Free)
}

/// Whether what a connection holds is what the slots say as far as it goes.
pub open spec fn own_slots(s: SlotState) -> bool {
    &&& s.shared.len() == 8
    &&& s.exclusive.len() == 8
    &&& s.slots.len() == 8
    &&& forall|i: int| 0 <= i < 8 && (#[trigger] s.exclusive[i]) ==> s.slots[i] == -1
    &&& forall|i: int| 0 <= i < 8 && (#[trigger] s.shared[i]) ==> s.slots[i] > 0
    &&& forall|i: int| 0 <= i < 8 ==> (#[trigger] s.slots[i]) >= -1
}

/// Whether a connection holds a slot as it asked for it.
pub open spec fn slot_answers(s: SlotState, i: int, mode: ShmLockMode) -> bool {
    match mode {
        ShmLockMode::LockExclusive => s.exclusive[i],
        ShmLockMode::LockShared => s.shared[i],
        ShmLockMode::UnlockExclusive => !s.exclusive[i],
        ShmLockMode::UnlockShared => !s.shared[i],
    }
}

/// Once locking or unlocking is over, the system keeps for the process what its
/// connections hold, and the connection holds what it asked for: slots of its
/// own, a share in one, or nothing any more. Other slots are as they were.
pub proof fn slot_calls_back_the_slots(
    s: SlotState,
    offset: int,
    count: int,
    mode: ShmLockMode,
    holds: Seq<Hold>,
)
    requires
        own_slots(s),
        shm_fits(s, offset, count, mode),
        slots_backed(s.slots, holds),
        mode is LockShared ==> !s.shared[offset],
    ensures
        ({
            let (begun, action) = shm_begun(s, offset, count, mode);
            let end = if action is Done {
                begun
            } else {
                shm_ended(begun, offset, count, mode)
            };
            &&& slots_backed(end.slots, slots_performed(holds, action))
            &&& own_slots(end)
            &&& !(action is Done) || action == ShmAction::Done(None) ==> forall|i: int|
                offset <= i < offset + count ==> #[trigger] slot_answers(end, i, mode)
            &&& action is Done && action != ShmAction::Done(None) ==> end == s && !(mode
                is UnlockShared) && !(mode is UnlockExclusive)
            &&& forall|i: int|
                0 <= i < 8 && !(offset <= i < offset + count) ==> (#[trigger] end.slots[i])
                    == s.slots[i] && end.exclusive[i] == s.exclusive[i] && end.shared[i]
                    == s.shared[i]
        }),
{
    let (begun, action) = shm_begun(s, offset, count, mode);
    let end = if action is Done {
        begun
    } else {
        shm_ended(begun, offset, count, mode)
    };
    let after = slots_performed(holds, action);
    assert forall|i: int| 0 <= i < 8 implies (#[trigger] after[i]) == if end.slots[i] < 0 {
        Hold::Write
    } else if end.slots[i] > 0 {
        Hold::Read
    } else {
        Hold::Free
    } by {
        assert(holds[i] == holds[i]);
        assert(s.slots[i] >= -1);
    }
    assert(0 < count && mode is LockShared ==> s.slots[offset] >= -1);
    assert forall|i: int| 0 <= i < 8 && (#[trigger] end.exclusive[i]) implies end.slots[i] == -1 by {
        assert(s.exclusive[i] ==> s.slots[i] == -1);
        assert(s.shared[i] ==> s.slots[i] > 0);
    }
    assert forall|i: int| 0 <= i < 8 && (#[trigger] end.shared[i]) implies end.slots[i] > 0 by {
        assert(s.shared[i] ==> s.slots[i] > 0);
        assert(s.exclusive[i] ==> s.slots[i] == -1);
    }
    assert forall|i: int| 0 <= i < 8 implies (#[trigger] end.slots[i]) >= -1 by {
        assert(s.slots[i] >= -1);
        assert(s.shared[i] ==> s.slots[i] > 0);
    }
}

/// A slot is refused only where another connection of the process holds it in
/// a way that does not go with what is asked for.
pub proof fn slots_are_refused_for_cause(s: SlotState, offset: int, count: int, mode: ShmLockMode)
    requires
        own_slots(s),
        shm_fits(s, offset, count, mode),
        shm_begun(s, offset, count, mode).1 is Done,
        shm_begun(s, offset, count, mode).1 != ShmAction::Done(None),
    ensures
        mode is LockShared ==> s.slots[offset] == -1,
        mode is LockExclusive ==> exists|i: int|
            offset <= i < offset + count && #[trigger] s.slots[i] != 0,
{
}

/// A slot that one process holds alone is held by no other.
pub proof fn exclusive_slots_exclude_other_processes(
    a: Seq<i32>,
    b: Seq<i32>,
    held_by_a: Seq<Hold>,
    held_by_b: Seq<Hold>,
    i: int,
)
    requires
        slots_backed(a, held_by_a),
        slots_backed(b, held_by_b),
        slots_compatible(held_by_a, held_by_b),
        0 <= i < 8,
        a[i] < 0,
    ensures
        b[i] == 0,
{
    assert(held_by_a[i] is Write);
    assert(held_by_b[i] is Free);
}

/// The locks of a process after the system took those of some slots.
pub open spec fn slots_unlocked(holds: Seq<Hold>, release: Seq<usize>) -> Seq<Hold>
    decreases release.len(),
{
    if release.len() == 0 {
        holds
    } else {
        slots_performed(
            slots_unlocked(holds, release.drop_last()),
            ShmAction::Unlock { offset: release.last(), count: 1 },
        )
    }
}

proof fn lemma_unlocked(holds: Seq<Hold>, release: Seq<usize>, i: int)
    requires
        0 <= i < 8,
        holds.len() == 8,
    ensures
        slots_unlocked(holds, release).len() == holds.len(),
        slots_unlocked(holds, release)[i] == if release.contains(i as usize) {
            Hold::Free
        } else {
            holds[i]
        },
    decreases release.len(),
{
    if release.len() > 0 {
        let init = release.drop_last();
        lemma_unlocked(holds, init, i);
        if init.contains(i as usize) {
            let k = choose|k: int| 0 <= k < init.len() && init[k] == i as usize;
            assert(release[k] == i as usize);
        }
        if release.contains(i as usize) && release.last() != i as usize {
            let k = choose|k: int| 0 <= k < release.len() && release[k] == i as usize;
            assert(init[k] == i as usize);
        }
        if release.last() == i as usize {
            assert(release[release.len() - 1] == i as usize);
        }
    }
}

proof fn lemma_released(s: SlotState, n: nat, i: int)
    requires
        n <= 8,
        0 <= i < 8,
    ensures
        slots_released(s, n).contains(i as usize) <==> i < n && (s.shared[i] && s.slots[i] == 1
            || s.exclusive[i]),
    decreases n,
{
    if n > 0 {
        lemma_released(s, (n - 1) as nat, i);
        let before = slots_released(s, (n - 1) as nat);
        let more = slot_released(s, n - 1);
        let all = slots_released(s, n);
        if before.contains(i as usize) {
            let k = choose|k: int| 0 <= k < before.len() && before[k] == i as usize;
            assert(all[k] == i as usize);
        }
        if more.contains(i as usize) {
            let k = choose|k: int| 0 <= k < more.len() && more[k] == i as usize;
            assert(all[before.len() + k] == i as usize);
        }
        if all.contains(i as usize) {
            let k = choose|k: int| 0 <= k < all.len() && all[k] == i as usize;
            if k < before.len() {
                assert(before[k] == i as usize);
            } else {
                assert(more[k - before.len()] == i as usize);
            }
        }
        if i == n - 1 && (s.shared[i] && s.slots[i] == 1 || s.exclusive[i]) {
            assert(more[0] == i as usize);
        }
    }
}

/// When a connection leaves, the system keeps for the process what the other
/// connections hold, and nothing else.
pub proof fn leaving_releases_the_slots(s: SlotState, holds: Seq<Hold>)
    requires
        own_slots(s),
        slots_backed(s.slots, holds),
    ensures
        slots_backed(
            Seq::new(8, |i: int| slot_left(s, i)),
            slots_unlocked(holds, slots_released(s, 8)),
        ),
        forall|i: int|
            0 <= i < 8 && !(#[trigger] s.shared[i]) && !s.exclusive[i] ==> slot_left(s, i)
                == s.slots[i],
        forall|i: int|
            0 <= i < 8 && (#[trigger] s.shared[i]) ==> slot_left(s, i) == s.slots[i] - 1,
{
    let left = Seq::new(8, |i: int| slot_left(s, i));
    let after = slots_unlocked(holds, slots_released(s, 8));
    lemma_unlocked(holds, slots_released(s, 8), 0);
    assert forall|i: int| 0 <= i < 8 implies (#[trigger] after[i]) == if left[i] < 0 {
        Hold::Write
    } else if left[i] > 0 {
        Hold::Read
    } else {
        Hold::Free
    } by {
        lemma_unlocked(holds, slots_released(s, 8), i);
        lemma_released(s, 8, i);
        assert(holds[i] == holds[i]);
        assert(s.slots[i] >= -1);
    }
}

} // verus!
