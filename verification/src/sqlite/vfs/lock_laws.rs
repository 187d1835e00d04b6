//! What holds of the locks that the handles of one process have on a file.

use vstd::prelude::*;
use crate::sqlite::vfs::lock::{
    granted, last_part, lock_fits, lock_step, unlock_fits, unlock_shared, unlock_step, InodeState,
    LockAction, LockLevel, LockPhase, LockState, UnlockPhase, UnlockState,
};

verus! {

/// Whether a level is a lock.
pub open spec fn held(level: LockLevel) -> bool {
    !(level is Unlocked)
}

/// How many handles hold a lock.
pub open spec fn count_held(levels: Seq<LockLevel>) -> nat
    decreases levels.len(),
{
    if levels.len() == 0 {
        0
    } else {
        count_held(levels.drop_last()) + if held(levels.last()) {
            1nat
        } else {
            0nat
        }
    }
}

/// Whether the file's state fits the levels of all its handles: the counts are
/// right, the highest level is held and none above it, at most one handle is
/// above a shared lock, and an exclusive lock is the only one.
pub open spec fn consistent(levels: Seq<LockLevel>, inode: InodeState) -> bool {
    &&& inode.n_shared == count_held(levels)
    &&& inode.n_lock == count_held(levels)
    &&& forall|h: int| 0 <= h < levels.len() ==> (#[trigger] levels[h]).rank() <= inode.max_lock.rank()
    &&& held(inode.max_lock) ==> exists|h: int|
        0 <= h < levels.len() && #[trigger] levels[h] == inode.max_lock
    &&& forall|h: int, k: int|
        0 <= h < levels.len() && 0 <= k < levels.len() && h != k && (#[trigger] levels[h]).rank() > 1
            ==> (#[trigger] levels[k]).rank() <= 1
    &&& inode.max_lock is Exclusive ==> inode.n_shared == 1
}

proof fn lemma_count_update(levels: Seq<LockLevel>, h: int, level: LockLevel)
    requires
        0 <= h < levels.len(),
    ensures
        count_held(levels.update(h, level)) + if held(levels[h]) {
            1int
        } else {
            0int
        } == count_held(levels) + if held(level) {
            1int
        } else {
            0int
        },
    decreases levels.len(),
{
    let after = levels.update(h, level);
    if h == levels.len() - 1 {
        assert(after.drop_last() =~= levels.drop_last());
    } else {
        assert(after.drop_last() =~= levels.drop_last().update(h, level));
        assert(after.last() == levels.last());
        lemma_count_update(levels.drop_last(), h, level);
    }
}

proof fn lemma_count_zero(levels: Seq<LockLevel>)
    ensures
        count_held(levels) == 0 <==> forall|h: int|
            0 <= h < levels.len() ==> (#[trigger] levels[h]) is Unlocked,
    decreases levels.len(),
{
    if levels.len() > 0 {
        let init = levels.drop_last();
        lemma_count_zero(init);
        if count_held(levels) == 0 {
            assert forall|h: int| 0 <= h < levels.len() implies (#[trigger] levels[h]) is Unlocked by {
                if h < init.len() {
                    assert(init[h] is Unlocked);
                }
            }
        }
        if forall|h: int| 0 <= h < levels.len() ==> (#[trigger] levels[h]) is Unlocked {
            assert forall|h: int| 0 <= h < init.len() implies (#[trigger] init[h]) is Unlocked by {
                assert(levels[h] is Unlocked);
            }
            assert(levels[levels.len() - 1] is Unlocked);
        }
    }
}

/// One that is held alone is the only one.
proof fn lemma_alone(levels: Seq<LockLevel>, h: int)
    requires
        0 <= h < levels.len(),
        held(levels[h]),
    ensures
        count_held(levels) >= 1,
        count_held(levels) == 1 <==> forall|k: int|
            0 <= k < levels.len() && k != h ==> (#[trigger] levels[k]) is Unlocked,
{
    let without = levels.update(h, LockLevel::Unlocked);
    lemma_count_update(levels, h, LockLevel::Unlocked);
    lemma_count_zero(without);
    if count_held(levels) == 1 {
        assert forall|k: int| 0 <= k < levels.len() && k != h implies (#[trigger] levels[k]) is Unlocked by {
            assert(without[k] is Unlocked);
        }
    }
    if forall|k: int| 0 <= k < levels.len() && k != h ==> (#[trigger] levels[k]) is Unlocked {
        assert forall|k: int| 0 <= k < without.len() implies (#[trigger] without[k]) is Unlocked by {
            if k != h {
                assert(levels[k] is Unlocked);
            }
        }
    }
}

/// Who holds an exclusive lock is alone: no other handle holds any.
pub proof fn exclusive_is_alone(levels: Seq<LockLevel>, inode: InodeState, h: int, k: int)
    requires
        consistent(levels, inode),
        0 <= h < levels.len(),
        0 <= k < levels.len(),
        h != k,
        levels[h] is Exclusive,
    ensures
        levels[k] is Unlocked,
{
    assert(inode.max_lock is Exclusive) by {
        assert(levels[h].rank() <= inode.max_lock.rank());
    }
    lemma_alone(levels, h);
}

/// At most one handle means to write.
pub proof fn one_writer(levels: Seq<LockLevel>, inode: InodeState, h: int, k: int)
    requires
        consistent(levels, inode),
        0 <= h < levels.len(),
        0 <= k < levels.len(),
        levels[h].rank() >= LockLevel::Reserved.rank(),
        levels[k].rank() >= LockLevel::Reserved.rank(),
    ensures
        h == k,
{
}

/// A file on which nothing is held is consistent with handles that hold
/// nothing.
pub proof fn new_files_are_consistent(levels: Seq<LockLevel>, inode: InodeState)
    requires
        forall|h: int| 0 <= h < levels.len() ==> (#[trigger] levels[h]) is Unlocked,
        inode.n_shared == 0,
        inode.n_lock == 0,
        inode.max_lock is Unlocked,
    ensures
        consistent(levels, inode),
{
    lemma_count_zero(levels);
}

/// Whether the handle `h` may take a lock at the level `desired`: a shared
/// one, or a higher one once it holds a shared one.
pub open spec fn may_ask(level: LockLevel, desired: LockLevel) -> bool {
    &&& desired is Shared || desired is Reserved || desired is Exclusive
    &&& desired is Shared || held(level)
}

/// What holds while the handle `h` takes a lock.
pub open spec fn locking(s: LockState, desired: LockLevel, levels: Seq<LockLevel>, h: int) -> bool {
    &&& 0 <= h < levels.len()
    &&& levels[h] == s.level
    &&& consistent(levels, s.inode)
    &&& may_ask(s.level, desired)
    &&& match s.phase {
        LockPhase::Start => true,
        LockPhase::Over => true,
        LockPhase::Pending => if desired is Shared {
            s.inode.max_lock is Unlocked
        } else {
            desired is Exclusive && s.level is Reserved
        },
        LockPhase::Shared => desired is Shared && s.inode.max_lock is Unlocked,
        LockPhase::Release(_) => desired is Shared && s.inode.max_lock is Unlocked,
        LockPhase::Last => {
            &&& s.level == s.inode.max_lock
            &&& s.level.rank() < desired.rank()
            &&& desired is Reserved || desired is Exclusive && s.inode.n_shared == 1
        },
    }
}

/// The last part of taking a lock keeps what holds.
proof fn lemma_last_part(s: LockState, desired: LockLevel, levels: Seq<LockLevel>, h: int)
    requires
        0 <= h < levels.len(),
        levels[h] == s.level,
        consistent(levels, s.inode),
        may_ask(s.level, desired),
        !(desired is Shared),
        s.level == s.inode.max_lock,
        s.level.rank() < desired.rank(),
    ensures
        locking(last_part(s, desired).0, desired, levels, h),
        last_part(s, desired).0.level == s.level,
        last_part(s, desired).1 != granted(),
{
    lemma_alone(levels, h);
}

/// Taking a lock keeps the file's state consistent at every step, whatever the
/// system answers, and a lock that is granted is held.
pub proof fn locking_keeps_consistency(
    s: LockState,
    desired: LockLevel,
    outcome: Option<i32>,
    levels: Seq<LockLevel>,
    h: int,
)
    requires
        locking(s, desired, levels, h),
        s.inode.n_shared < usize::MAX,
    ensures
        lock_fits(s, desired, outcome),
        ({
            let (next, action) = lock_step(s, desired, outcome);
            &&& locking(next, desired, levels.update(h, next.level), h)
            &&& action == granted() && !(s.phase is Over) ==> next.level.rank() >= desired.rank()
            &&& next.level.rank() >= s.level.rank()
        }),
{
    let (next, action) = lock_step(s, desired, outcome);
    let after = levels.update(h, next.level);
    lemma_count_update(levels, h, next.level);
    if next.level == s.level {
        assert(after =~= levels);
    }
    match s.phase {
        LockPhase::Start => {
            if s.level.rank() >= desired.rank() {
            } else if s.level != s.inode.max_lock && (s.inode.max_lock.rank() >= 3 || desired.rank()
                > 1) {
            } else if desired is Shared && (s.inode.max_lock is Shared || s.inode.max_lock is Reserved) {
                let w = choose|w: int| 0 <= w < levels.len() && #[trigger] levels[w] == s.inode.max_lock;
                assert(after[w] == s.inode.max_lock);
            } else if desired is Shared {
            } else if desired is Exclusive && s.level is Reserved {
            } else {
                lemma_last_part(s, desired, levels, h);
            }
        },
        LockPhase::Pending => {
            if outcome is None && !(desired is Shared) {
                let raised = LockState {
                    level: LockLevel::Pending,
                    inode: InodeState { max_lock: LockLevel::Pending, ..s.inode },
                    ..s
                };
                let up = levels.update(h, LockLevel::Pending);
                lemma_count_update(levels, h, LockLevel::Pending);
                assert(up[h] is Pending);
                assert(consistent(up, raised.inode));
                lemma_last_part(raised, desired, up, h);
            }
        },
        LockPhase::Shared => {},
        LockPhase::Release(locked) => {
            assert forall|k: int| 0 <= k < levels.len() implies (#[trigger] levels[k]) is Unlocked by {
                assert(levels[k].rank() <= s.inode.max_lock.rank());
            }
            lemma_count_zero(levels);
            if locked is None && outcome is None {
                assert(after[h] is Shared);
            }
        },
        LockPhase::Last => {
            if outcome is None {
                assert(after[h] == desired);
                lemma_alone(levels, h);
                assert forall|k: int| 0 <= k < levels.len() && k != h implies (#[trigger] levels[k]).rank()
                    <= 1 by {
                    assert(levels[k].rank() <= s.inode.max_lock.rank());
                    if s.level.rank() > 1 {
                        assert(levels[h].rank() > 1);
                    }
                }
            }
        },
        LockPhase::Over => {},
    }
}

/// What holds while the handle `h` gives a lock back. When the last lock is
/// being released, it is counted no more but still held.
pub open spec fn unlocking(s: UnlockState, desired: LockLevel, levels: Seq<LockLevel>, h: int) -> bool {
    &&& 0 <= h < levels.len()
    &&& levels[h] == s.level
    &&& desired is Unlocked || desired is Shared || s.level.rank() <= desired.rank() && (
    s.phase is Start || s.phase is Over)
    &&& match s.phase {
        UnlockPhase::Start => consistent(levels, s.inode),
        UnlockPhase::Over => consistent(levels, s.inode),
        UnlockPhase::Downgrade => consistent(levels, s.inode) && s.level.rank() > 1,
        UnlockPhase::Drop => consistent(levels, s.inode) && s.level.rank() > 1,
        UnlockPhase::Release => {
            &&& desired is Unlocked
            &&& held(s.level)
            &&& count_held(levels) == 1
            &&& s.inode.n_lock == 1
            &&& s.inode.n_shared == 0
        },
    }
}

/// Giving back the shared lock keeps what holds. `before` is the state before
/// a higher lock was given back.
proof fn lemma_unlock_shared(
    s: UnlockState,
    desired: LockLevel,
    levels: Seq<LockLevel>,
    h: int,
    before: InodeState,
)
    requires
        0 <= h < levels.len(),
        levels[h] == s.level,
        desired is Unlocked || desired is Shared,
        s.level.rank() > desired.rank(),
        consistent(levels, before),
        s.inode == if s.level.rank() > 1 {
            InodeState { max_lock: LockLevel::Shared, ..before }
        } else {
            before
        },
    ensures
        ({
            let (next, action) = unlock_shared(s, desired);
            &&& unlocking(next, desired, levels.update(h, next.level), h)
            &&& action == granted() ==> next.level == desired
        }),
{
    let (next, action) = unlock_shared(s, desired);
    let after = levels.update(h, next.level);
    lemma_count_update(levels, h, next.level);
    lemma_alone(levels, h);
    if next.level == s.level {
        assert(after =~= levels);
    }
    if desired is Shared {
        assert(after[h] is Shared);
        assert forall|k: int| 0 <= k < levels.len() && k != h implies (#[trigger] levels[k]).rank() <= 1 by {
            assert(levels[h].rank() > 1);
        }
    } else if s.inode.n_shared > 1 {
        lemma_count_zero(after);
        assert(!(forall|k: int| 0 <= k < after.len() ==> (#[trigger] after[k]) is Unlocked));
        let other = choose|k: int| 0 <= k < after.len() && !((#[trigger] after[k]) is Unlocked);
        assert(other != h);
        assert(levels[other].rank() <= before.max_lock.rank());
        if s.level.rank() > 1 {
            assert(levels[h].rank() > 1);
            assert forall|k: int| 0 <= k < levels.len() && k != h implies (#[trigger] levels[k]).rank()
                <= 1 by {}
            assert(after[other] is Shared);
        } else {
            let w = choose|w: int| 0 <= w < levels.len() && #[trigger] levels[w] == before.max_lock;
            if w != h {
                assert(after[w] == before.max_lock);
            } else {
                assert(after[other] is Shared);
            }
        }
    }
}

/// Giving a lock back keeps the file's state consistent at every step in which
/// the system does not fail to release everything, and a lock that was given
/// back is at the level that was asked for.
pub proof fn unlocking_keeps_consistency(
    s: UnlockState,
    desired: LockLevel,
    outcome: Option<i32>,
    levels: Seq<LockLevel>,
    h: int,
)
    requires
        unlocking(s, desired, levels, h),
        !(s.phase is Release && outcome is Some),
    ensures
        unlock_fits(s, desired),
        ({
            let (next, action) = unlock_step(s, desired, outcome);
            &&& unlocking(next, desired, levels.update(h, next.level), h)
            &&& action == granted() && !(s.phase is Over) ==> next.level.rank() <= desired.rank()
            &&& next.level.rank() <= s.level.rank()
        }),
{
    let (next, action) = unlock_step(s, desired, outcome);
    let after = levels.update(h, next.level);
    lemma_count_update(levels, h, next.level);
    if held(s.level) {
        lemma_alone(levels, h);
    }
    if next.level == s.level {
        assert(after =~= levels);
    }
    match s.phase {
        UnlockPhase::Start => {
            if s.level.rank() > desired.rank() && s.level.rank() <= 1 {
                lemma_unlock_shared(s, desired, levels, h, s.inode);
            }
        },
        UnlockPhase::Downgrade => {},
        UnlockPhase::Drop => {
            if outcome is None {
                let lowered = UnlockState {
                    inode: InodeState { max_lock: LockLevel::Shared, ..s.inode },
                    ..s
                };
                lemma_unlock_shared(lowered, desired, levels, h, s.inode);
            }
        },
        UnlockPhase::Release => {
            lemma_count_zero(after);
        },
        UnlockPhase::Over => {},
    }
}

/// Steps of taking a lock, `n` at most, in which the system grants every call.
pub open spec fn lock_run(s: LockState, desired: LockLevel, n: nat) -> (LockState, LockAction)
    decreases n,
{
    let (next, action) = lock_step(s, desired, None);
    if n == 0 || action is Done {
        (next, action)
    } else {
        lock_run(next, desired, (n - 1) as nat)
    }
}

/// Steps of giving a lock back, `n` at most, in which the system grants every
/// call.
pub open spec fn unlock_run(s: UnlockState, desired: LockLevel, n: nat) -> (UnlockState, LockAction)
    decreases n,
{
    let (next, action) = unlock_step(s, desired, None);
    if n == 0 || action is Done {
        (next, action)
    } else {
        unlock_run(next, desired, (n - 1) as nat)
    }
}

/// Who is alone with the file gets every lock that may be asked for, if the
/// system grants the calls.
pub proof fn a_lone_handle_gets_its_lock(level: LockLevel, inode: InodeState, desired: LockLevel)
    requires
        consistent(seq![level], inode),
        may_ask(level, desired),
    ensures
        ({
            let s = LockState { level, inode, phase: LockPhase::Start };
            let (end, action) = lock_run(s, desired, 4);
            &&& action == granted()
            &&& end.level.rank() >= desired.rank()
            &&& level.rank() < desired.rank() ==> end.level == desired
            &&& consistent(seq![end.level], end.inode)
        }),
{
    let levels = seq![level];
    let s = LockState { level, inode, phase: LockPhase::Start };
    assert(levels[0] == level);
    assert(level.rank() <= inode.max_lock.rank());
    if held(inode.max_lock) {
        let w = choose|w: int| 0 <= w < levels.len() && #[trigger] levels[w] == inode.max_lock;
        assert(w == 0);
    }
    assert(level == inode.max_lock);
    assert(count_held(levels) <= 1) by {
        reveal_with_fuel(count_held, 2);
        assert(levels.drop_last() =~= Seq::<LockLevel>::empty());
    }
    lemma_lone_run(s, desired, 4);
    reveal_with_fuel(lock_run, 5);
}

/// A run of a lone handle keeps the file's state consistent.
proof fn lemma_lone_run(s: LockState, desired: LockLevel, n: nat)
    requires
        locking(s, desired, seq![s.level], 0),
    ensures
        ({
            let (end, _) = lock_run(s, desired, n);
            locking(end, desired, seq![end.level], 0)
        }),
    decreases n,
{
    let levels = seq![s.level];
    let (next, action) = lock_step(s, desired, None);
    assert(count_held(levels) <= 1) by {
        reveal_with_fuel(count_held, 2);
        assert(levels.drop_last() =~= Seq::<LockLevel>::empty());
    }
    locking_keeps_consistency(s, desired, None, levels, 0);
    assert(levels.update(0, next.level) =~= seq![next.level]);
    if n > 0 && !(action is Done) {
        lemma_lone_run(next, desired, (n - 1) as nat);
    }
}

/// A shared lock that is taken and given back leaves the file's state as it
/// was, whoever else holds one.
pub proof fn shared_locks_are_given_back(inode: InodeState)
    requires
        inode.max_lock is Unlocked || inode.max_lock is Shared || inode.max_lock is Reserved,
        inode.max_lock is Unlocked <==> inode.n_shared == 0,
        inode.n_lock == inode.n_shared,
        inode.n_shared < usize::MAX,
        inode.n_lock == 0 ==> inode.pending == 0,
    ensures
        ({
            let s = LockState { level: LockLevel::Unlocked, inode, phase: LockPhase::Start };
            let (taken, granted_action) = lock_run(s, LockLevel::Shared, 4);
            let u = UnlockState {
                level: taken.level,
                inode: taken.inode,
                phase: UnlockPhase::Start,
            };
            let (back, given) = unlock_run(u, LockLevel::Unlocked, 4);
            &&& granted_action == granted()
            &&& given == granted()
            &&& back.level is Unlocked
            &&& back.inode == inode
        }),
{
    reveal_with_fuel(lock_run, 5);
    reveal_with_fuel(unlock_run, 5);
}

/// A lock that is held already is granted without asking the system, and so is
/// giving back what is not held.
pub proof fn held_locks_need_no_call(
    s: LockState,
    u: UnlockState,
    desired: LockLevel,
    outcome: Option<i32>,
)
    requires
        s.phase is Start,
        s.level.rank() >= desired.rank(),
        u.phase is Start,
        u.level.rank() <= desired.rank(),
    ensures
        lock_step(s, desired, outcome) == (LockState { phase: LockPhase::Over, ..s }, granted()),
        unlock_step(u, desired, outcome) == (
            UnlockState { phase: UnlockPhase::Over, ..u },
            granted(),
        ),
{
}

} // verus!
