//! What the calls of a lock mean to other processes. The system keeps locks on
//! bytes for each process; here the calls that taking and giving back a lock
//! ask for are replayed on such bytes.

use vstd::prelude::*;
use crate::sqlite::vfs::codes::{PENDING_BYTE, RESERVED_BYTE, SHARED_FIRST, SHARED_SIZE};
use crate::sqlite::vfs::lock::{
    granted, lock_step, reserved_result, unlock_step, InodeState, LockAction, LockLevel, LockPhase, LockState,
    UnlockPhase, UnlockState,
};
use crate::sqlite::vfs::lock_laws::{
    consistent, held, locking, locking_keeps_consistency, may_ask, unlocking,
    unlocking_keeps_consistency,
};

verus! {

/// The lock that a process has on a byte.
pub enum Hold {
    Free,
    Read,
    Write,
}

/// The locks that a process has on the bytes of a file.
pub type Bytes = spec_fn(int) -> Hold;

/// Whether a byte is one of `len` from `start` on; no length means all of
/// them.
pub open spec fn covers(start: i64, len: i64, byte: int) -> bool {
    start <= byte && (len == 0 || byte < start + len)
}

/// The locks of a process after the system did what was asked for.
pub open spec fn performed(bytes: Bytes, action: LockAction) -> Bytes {
    match action {
        LockAction::Read { start, len } => |b: int|
            if covers(start, len, b) {
                Hold::Read
            } else {
                bytes(b)
            },
        LockAction::Write { start, len } => |b: int|
            if covers(start, len, b) {
                Hold::Write
            } else {
                bytes(b)
            },
        LockAction::Unlock { start, len } => |b: int|
            if covers(start, len, b) {
                Hold::Free
            } else {
                bytes(b)
            },
        LockAction::Done(_) => bytes,
    }
}

/// Whether two processes can have these locks at a time: nobody writes what
/// another reads or writes.
pub open spec fn compatible(a: Bytes, b: Bytes) -> bool {
    forall|i: int|
        ((#[trigger] a(i)) is Write ==> (#[trigger] b(i)) is Free) && (b(i) is Write ==> a(i) is Free)
}

/// Whether the system can do what is asked for while another process has these
/// locks.
pub open spec fn grantable(action: LockAction, other: Bytes) -> bool {
    match action {
        LockAction::Read { start, len } => forall|i: int|
            covers(start, len, i) ==> !((#[trigger] other(i)) is Write),
        LockAction::Write { start, len } => forall|i: int|
            covers(start, len, i) ==> (#[trigger] other(i)) is Free,
        _ => true,
    }
}

/// Whether a byte is one that every reader locks.
pub open spec fn shared_byte(b: int) -> bool {
    SHARED_FIRST <= b < SHARED_FIRST + SHARED_SIZE
}

/// Whether the locks of a process on the system back the highest level that
/// one of its handles has: a reader reads all shared bytes, who means to write
/// has the reserved byte, and who writes has all shared bytes for itself.
pub open spec fn backs(bytes: Bytes, level: LockLevel) -> bool {
    &&& held(level) ==> forall|b: int| shared_byte(b) ==> !((#[trigger] bytes(b)) is Free)
    &&& level is Reserved || level is Pending ==> bytes(RESERVED_BYTE as int) is Write
    &&& level is Pending ==> bytes(PENDING_BYTE as int) is Write
    &&& level is Exclusive ==> forall|b: int| shared_byte(b) ==> (#[trigger] bytes(b)) is Write
}

/// Whether a process has exactly the locks that the highest level of its
/// handles stands for, and leaves all other bytes to others.
pub open spec fn exactly(bytes: Bytes, level: LockLevel) -> bool {
    &&& backs(bytes, level)
    &&& forall|b: int|
        !shared_byte(b) && b != PENDING_BYTE && b != RESERVED_BYTE ==> (#[trigger] bytes(b)) is Free
    &&& level is Unlocked ==> forall|b: int| (#[trigger] bytes(b)) is Free
    &&& !(level is Exclusive) ==> forall|b: int| shared_byte(b) ==> !((#[trigger] bytes(b)) is Write)
    &&& level is Shared ==> bytes(RESERVED_BYTE as int) is Free
    &&& level is Shared || level is Reserved ==> bytes(PENDING_BYTE as int) is Free
}

/// A process: the levels of its handles, the file's state, and the locks that
/// the system keeps for it.
pub struct Process {
    pub levels: Seq<LockLevel>,
    pub inode: InodeState,
    pub bytes: Bytes,
}

/// Whether no lock of the process is being taken or given back, and what the
/// handles hold is backed by the system.
pub open spec fn settled(p: Process) -> bool {
    consistent(p.levels, p.inode) && backs(p.bytes, p.inode.max_lock)
}

/// While a handle of one process has an exclusive lock, no handle of another
/// process has any.
pub proof fn exclusive_excludes_other_processes(a: Process, b: Process, h: int, k: int)
    requires
        settled(a),
        settled(b),
        compatible(a.bytes, b.bytes),
        0 <= h < a.levels.len(),
        0 <= k < b.levels.len(),
        a.levels[h] is Exclusive,
    ensures
        b.levels[k] is Unlocked,
{
    assert(a.levels[h].rank() <= a.inode.max_lock.rank());
    assert(b.levels[k].rank() <= b.inode.max_lock.rank());
    let byte = SHARED_FIRST as int;
    assert(shared_byte(byte));
    assert((a.bytes)(byte) is Write);
    assert((b.bytes)(byte) is Free);
}

/// While a handle of one process means to write, no handle of another process
/// does, and the other process finds the reserved byte locked.
pub proof fn one_process_means_to_write(a: Process, b: Process, h: int, k: int)
    requires
        settled(a),
        settled(b),
        compatible(a.bytes, b.bytes),
        0 <= h < a.levels.len(),
        0 <= k < b.levels.len(),
        a.levels[h] == a.inode.max_lock,
        a.levels[h] is Reserved || a.levels[h] is Pending,
    ensures
        (a.bytes)(RESERVED_BYTE as int) is Write,
        b.inode.max_lock == b.levels[k] ==> b.levels[k] is Unlocked || b.levels[k] is Shared
            || b.levels[k] is Exclusive,
{
    assert((a.bytes)(RESERVED_BYTE as int) is Write);
}

/// Whether some handle of either process means to write is known to both: from
/// the levels of its own handles, or from the other's lock on the reserved
/// byte.
pub proof fn reserved_locks_are_seen(a: Process, b: Process, h: int)
    requires
        settled(a),
        settled(b),
        exactly(a.bytes, a.inode.max_lock),
        0 <= h < a.levels.len(),
        a.levels[h] == a.inode.max_lock,
    ensures
        ({
            let probe = Some(!((a.bytes)(RESERVED_BYTE as int) is Free));
            &&& a.levels[h] is Reserved || a.levels[h] is Pending ==> reserved_result(
                b.inode,
                probe,
            ) == Ok::<bool, i32>(true)
            &&& a.levels[h].rank() > 1 ==> reserved_result(a.inode, None) == Ok::<bool, i32>(true)
            &&& a.levels[h].rank() <= 1 && b.inode.max_lock.rank() <= 1 ==> reserved_result(
                b.inode,
                probe,
            ) == Ok::<bool, i32>(false)
        }),
{
}

/// Where the taking of a lock stands, with the locks of the process.
pub struct Taking {
    pub state: LockState,
    pub action: LockAction,
    pub bytes: Bytes,
}

/// The taking of a lock, before its first call.
pub open spec fn taking_begun(level: LockLevel, inode: InodeState, desired: LockLevel, bytes: Bytes) -> Taking {
    let (state, action) = lock_step(
        LockState { level, inode, phase: LockPhase::Start },
        desired,
        None,
    );
    Taking { state, action, bytes }
}

/// One call, and the step after it. The system does what it can while another
/// process has the locks `other`, unless it fails with a code.
pub open spec fn taking_next(t: Taking, desired: LockLevel, other: Bytes, failure: Option<i32>) -> Taking {
    if t.action is Done {
        t
    } else if grantable(t.action, other) && failure is None {
        let (state, action) = lock_step(t.state, desired, None);
        Taking { state, action, bytes: performed(t.bytes, t.action) }
    } else {
        let code = match failure {
            Some(code) => code,
            None => crate::sqlite::vfs::codes::SQLITE_BUSY,
        };
        let (state, action) = lock_step(t.state, desired, Some(code));
        Taking { state, action, bytes: t.bytes }
    }
}

/// The taking of a lock after `n` calls; `failures` says which of them the
/// system fails by itself.
pub open spec fn taking_after(
    t: Taking,
    desired: LockLevel,
    other: Bytes,
    failures: spec_fn(nat) -> Option<i32>,
    n: nat,
) -> Taking
    decreases n,
{
    if n == 0 {
        t
    } else {
        taking_next(
            taking_after(t, desired, other, failures, (n - 1) as nat),
            desired,
            other,
            failures((n - 1) as nat),
        )
    }
}

/// What holds between the calls of taking a lock: what the handles hold is
/// backed, and so is what the next call adds to. If `exact`, nothing else is
/// locked but what the call before took.
spec fn taking_backed(
    t: Taking,
    desired: LockLevel,
    levels: Seq<LockLevel>,
    h: int,
    exact: bool,
) -> bool {
    &&& locking(t.state, desired, levels, h)
    &&& backs(t.bytes, t.state.inode.max_lock)
    &&& t.state.inode.n_shared < usize::MAX || t.state.phase is Over
    &&& t.action == granted() ==> t.state.level.rank() >= desired.rank()
    &&& match t.state.phase {
        LockPhase::Start => false,
        LockPhase::Over => t.action is Done && (exact ==> exactly(
            t.bytes,
            t.state.inode.max_lock,
        )),
        LockPhase::Pending => {
            &&& exact ==> exactly(t.bytes, t.state.inode.max_lock)
            &&& if desired is Shared {
                t.action == (LockAction::Read { start: PENDING_BYTE, len: 1 })
            } else {
                t.action == (LockAction::Write { start: PENDING_BYTE, len: 1 })
            }
        },
        LockPhase::Shared => {
            &&& t.action == (LockAction::Read { start: SHARED_FIRST, len: SHARED_SIZE })
            &&& exact ==> (t.bytes)(PENDING_BYTE as int) is Read && forall|b: int|
                b != PENDING_BYTE ==> (#[trigger] (t.bytes)(b)) is Free
        },
        LockPhase::Release(locked) => {
            &&& t.action == (LockAction::Unlock { start: PENDING_BYTE, len: 1 })
            &&& locked is None ==> forall|b: int|
                shared_byte(b) ==> !((#[trigger] (t.bytes)(b)) is Free)
            &&& exact ==> (t.bytes)(PENDING_BYTE as int) is Read && forall|b: int|
                b != PENDING_BYTE ==> #[trigger] (t.bytes)(b) == if shared_byte(b) && locked is None {
                    Hold::Read
                } else {
                    Hold::Free
                }
        },
        LockPhase::Last => {
            &&& exact ==> exactly(t.bytes, t.state.inode.max_lock)
            &&& if desired is Exclusive {
                t.action == (LockAction::Write { start: SHARED_FIRST, len: SHARED_SIZE })
            } else {
                t.action == (LockAction::Write { start: RESERVED_BYTE, len: 1 })
            }
        },
    }
}

/// A call whose outcome is left to the system keeps what two processes have
/// compatible.
proof fn lemma_performed(bytes: Bytes, action: LockAction, other: Bytes)
    requires
        compatible(bytes, other),
        grantable(action, other),
    ensures
        compatible(performed(bytes, action), other),
{
}

proof fn lemma_taking_begun(
    level: LockLevel,
    inode: InodeState,
    desired: LockLevel,
    bytes: Bytes,
    levels: Seq<LockLevel>,
    h: int,
    exact: bool,
)
    requires
        consistent(levels, inode),
        backs(bytes, inode.max_lock),
        exact ==> exactly(bytes, inode.max_lock),
        0 <= h < levels.len(),
        levels[h] == level,
        may_ask(level, desired),
        inode.n_shared < usize::MAX,
    ensures
        ({
            let t = taking_begun(level, inode, desired, bytes);
            &&& taking_backed(t, desired, levels.update(h, t.state.level), h, exact)
            &&& t.bytes == bytes
        }),
{
    let s = LockState { level, inode, phase: LockPhase::Start };
    locking_keeps_consistency(s, desired, None, levels, h);
}

proof fn lemma_taking_next(
    t: Taking,
    desired: LockLevel,
    other: Bytes,
    failure: Option<i32>,
    levels: Seq<LockLevel>,
    h: int,
    exact: bool,
)
    requires
        taking_backed(t, desired, levels, h, exact),
        compatible(t.bytes, other),
        exact && t.action is Unlock ==> failure is None,
    ensures
        ({
            let next = taking_next(t, desired, other, failure);
            &&& taking_backed(next, desired, levels.update(h, next.state.level), h, exact)
            &&& compatible(next.bytes, other)
        }),
{
    let next = taking_next(t, desired, other, failure);
    if t.action is Done {
        assert(levels.update(h, next.state.level) =~= levels);
    } else {
        let after = performed(t.bytes, t.action);
        if grantable(t.action, other) && failure is None {
            locking_keeps_consistency(t.state, desired, None, levels, h);
            lemma_performed(t.bytes, t.action, other);
        } else {
            let code = match failure {
                Some(code) => code,
                None => crate::sqlite::vfs::codes::SQLITE_BUSY,
            };
            locking_keeps_consistency(t.state, desired, Some(code), levels, h);
        }
    }
}

/// Whether the system fails no call that only takes locks away.
pub open spec fn releases(
    t: Taking,
    desired: LockLevel,
    other: Bytes,
    failures: spec_fn(nat) -> Option<i32>,
) -> bool {
    forall|m: nat|
        (#[trigger] taking_after(t, desired, other, failures, m)).action is Unlock ==> failures(m)
            is None
}

proof fn lemma_taking_after(
    t: Taking,
    desired: LockLevel,
    other: Bytes,
    failures: spec_fn(nat) -> Option<i32>,
    n: nat,
    levels: Seq<LockLevel>,
    h: int,
    exact: bool,
)
    requires
        taking_backed(t, desired, levels.update(h, t.state.level), h, exact),
        0 <= h < levels.len(),
        compatible(t.bytes, other),
        exact ==> releases(t, desired, other, failures),
    ensures
        ({
            let end = taking_after(t, desired, other, failures, n);
            &&& taking_backed(end, desired, levels.update(h, end.state.level), h, exact)
            &&& compatible(end.bytes, other)
        }),
    decreases n,
{
    if n > 0 {
        let m = (n - 1) as nat;
        lemma_taking_after(t, desired, other, failures, m, levels, h, exact);
        let before = taking_after(t, desired, other, failures, m);
        let at = levels.update(h, before.state.level);
        lemma_taking_next(before, desired, other, failures(m), at, h, exact);
        let end = taking_after(t, desired, other, failures, n);
        assert(at.update(h, end.state.level) =~= levels.update(h, end.state.level));
    }
}

/// A process after one of its handles took a lock or gave one back.
pub open spec fn moved(p: Process, h: int, level: LockLevel, inode: InodeState, bytes: Bytes) -> Process {
    Process { levels: p.levels.update(h, level), inode, bytes }
}

/// However the system answers its calls, when the taking of a lock is over,
/// what the handles hold is backed by locks that are compatible with those of
/// another process, and a lock that is granted is held.
pub proof fn locks_taken_are_backed(
    p: Process,
    h: int,
    desired: LockLevel,
    other: Bytes,
    failures: spec_fn(nat) -> Option<i32>,
    n: nat,
)
    requires
        settled(p),
        0 <= h < p.levels.len(),
        may_ask(p.levels[h], desired),
        p.inode.n_shared < usize::MAX,
        compatible(p.bytes, other),
    ensures
        ({
            let t = taking_begun(p.levels[h], p.inode, desired, p.bytes);
            let end = taking_after(t, desired, other, failures, n);
            &&& compatible(end.bytes, other)
            &&& end.action is Done ==> settled(
                moved(p, h, end.state.level, end.state.inode, end.bytes),
            )
            &&& end.action == granted() ==> end.state.level.rank() >= desired.rank()
            &&& exactly(p.bytes, p.inode.max_lock) && releases(t, desired, other, failures)
                && end.action is Done ==> exactly(end.bytes, end.state.inode.max_lock)
        }),
{
    let t = taking_begun(p.levels[h], p.inode, desired, p.bytes);
    lemma_taking_begun(p.levels[h], p.inode, desired, p.bytes, p.levels, h, false);
    lemma_taking_after(t, desired, other, failures, n, p.levels, h, false);
    if exactly(p.bytes, p.inode.max_lock) && releases(t, desired, other, failures) {
        lemma_taking_begun(p.levels[h], p.inode, desired, p.bytes, p.levels, h, true);
        lemma_taking_after(t, desired, other, failures, n, p.levels, h, true);
    }
}

/// No process is granted an exclusive lock while another process has any, nor
/// a reserved one while another process has one.
pub proof fn writers_wait_for_other_processes(
    p: Process,
    h: int,
    desired: LockLevel,
    other: Process,
    k: int,
    failures: spec_fn(nat) -> Option<i32>,
    n: nat,
)
    requires
        settled(p),
        0 <= h < p.levels.len(),
        may_ask(p.levels[h], desired),
        p.levels[h].rank() < desired.rank(),
        p.inode.n_shared < usize::MAX,
        settled(other),
        0 <= k < other.levels.len(),
        compatible(p.bytes, other.bytes),
    ensures
        ({
            let t = taking_begun(p.levels[h], p.inode, desired, p.bytes);
            let end = taking_after(t, desired, other.bytes, failures, n);
            &&& desired is Exclusive && held(other.levels[k]) ==> end.action != granted()
            &&& held(desired) && other.levels[k] is Exclusive ==> end.action != granted()
            &&& desired is Reserved && (other.inode.max_lock is Reserved || other.inode.max_lock
                is Pending) ==> end.action != granted()
        }),
{
    let t = taking_begun(p.levels[h], p.inode, desired, p.bytes);
    let end = taking_after(t, desired, other.bytes, failures, n);
    locks_taken_are_backed(p, h, desired, other.bytes, failures, n);
    let after = moved(p, h, end.state.level, end.state.inode, end.bytes);
    assert(after.levels[h] == end.state.level);
    if end.action == granted() {
        if end.state.level is Exclusive {
            exclusive_excludes_other_processes(after, other, h, k);
        }
        if other.levels[k] is Exclusive {
            exclusive_excludes_other_processes(other, after, k, h);
        }
        if desired is Reserved && (other.inode.max_lock is Reserved || other.inode.max_lock
            is Pending) {
            let w = choose|w: int|
                0 <= w < other.levels.len() && #[trigger] other.levels[w] == other.inode.max_lock;
            let v = choose|v: int|
                0 <= v < after.levels.len() && #[trigger] after.levels[v] == after.inode.max_lock;
            assert(after.levels[h].rank() <= after.inode.max_lock.rank());
            if after.inode.max_lock is Exclusive {
                exclusive_excludes_other_processes(after, other, v, w);
            } else {
                assert((after.bytes)(RESERVED_BYTE as int) is Write);
                assert((other.bytes)(RESERVED_BYTE as int) is Write);
            }
        }
    }
}

/// Whether the system grants every call that it can.
pub open spec fn no_failures() -> spec_fn(nat) -> Option<i32> {
    |n: nat| None
}

/// Readers of several processes share the file with one that means to write:
/// who has nothing gets a shared lock.
pub proof fn readers_share_with_other_processes(p: Process, h: int, other: Process)
    requires
        settled(p),
        exactly(p.bytes, p.inode.max_lock),
        p.inode.max_lock is Unlocked,
        0 <= h < p.levels.len(),
        exactly(other.bytes, other.inode.max_lock),
        other.inode.max_lock is Unlocked || other.inode.max_lock is Shared
            || other.inode.max_lock is Reserved,
    ensures
        ({
            let t = taking_begun(p.levels[h], p.inode, LockLevel::Shared, p.bytes);
            let end = taking_after(t, LockLevel::Shared, other.bytes, no_failures(), 3);
            end.action == granted() && end.state.level is Shared
        }),
{
    assert(p.levels[h].rank() <= p.inode.max_lock.rank());
    let t = taking_begun(p.levels[h], p.inode, LockLevel::Shared, p.bytes);
    reveal_with_fuel(taking_after, 4);
    assert(!shared_byte(PENDING_BYTE as int));
    assert(grantable(t.action, other.bytes)) by {
        assert forall|i: int| covers(PENDING_BYTE, 1, i) implies !((#[trigger] (other.bytes)(i))
            is Write) by {
            assert(i == PENDING_BYTE);
        }
    }
    let t1 = taking_next(t, LockLevel::Shared, other.bytes, None);
    assert(grantable(t1.action, other.bytes)) by {
        assert forall|i: int| covers(SHARED_FIRST, SHARED_SIZE, i) implies !((#[trigger] (
        other.bytes)(i)) is Write) by {
            assert(shared_byte(i));
        }
    }
}

/// While another process waits for its readers to leave, no new reader gets
/// in.
pub proof fn pending_writers_keep_readers_out(
    p: Process,
    h: int,
    other: Process,
    failures: spec_fn(nat) -> Option<i32>,
    n: nat,
)
    requires
        settled(p),
        p.inode.max_lock is Unlocked,
        0 <= h < p.levels.len(),
        settled(other),
        other.inode.max_lock is Pending,
    ensures
        ({
            let t = taking_begun(p.levels[h], p.inode, LockLevel::Shared, p.bytes);
            let end = taking_after(t, LockLevel::Shared, other.bytes, failures, n);
            end.action != granted() && end.state.level is Unlocked
        }),
    decreases n,
{
    assert(p.levels[h].rank() <= p.inode.max_lock.rank());
    let t = taking_begun(p.levels[h], p.inode, LockLevel::Shared, p.bytes);
    assert(covers(PENDING_BYTE, 1, PENDING_BYTE as int));
    assert((other.bytes)(PENDING_BYTE as int) is Write);
    assert(!grantable(t.action, other.bytes));
    if n > 1 {
        pending_writers_keep_readers_out(p, h, other, failures, (n - 1) as nat);
        lemma_refused_at_once(t, LockLevel::Shared, other.bytes, failures, (n - 1) as nat);
    }
    reveal_with_fuel(taking_after, 2);
}

/// A taking whose first call is refused is over.
proof fn lemma_refused_at_once(
    t: Taking,
    desired: LockLevel,
    other: Bytes,
    failures: spec_fn(nat) -> Option<i32>,
    n: nat,
)
    requires
        n > 0,
        t.state.phase is Pending,
        t.action is Read || t.action is Write,
        !grantable(t.action, other),
    ensures
        taking_after(t, desired, other, failures, n).action is Done,
    decreases n,
{
    if n > 1 {
        lemma_refused_at_once(t, desired, other, failures, (n - 1) as nat);
    } else {
        reveal_with_fuel(taking_after, 2);
    }
}

/// Who is the only reader of its process gets every higher lock while no other
/// process has any.
pub proof fn a_lone_process_writes(p: Process, h: int, desired: LockLevel, other: Bytes)
    requires
        settled(p),
        0 <= h < p.levels.len(),
        held(p.levels[h]),
        p.levels[h] == p.inode.max_lock,
        p.inode.n_shared == 1,
        may_ask(p.levels[h], desired),
        p.levels[h].rank() < desired.rank(),
        forall|i: int| (#[trigger] other(i)) is Free,
    ensures
        ({
            let t = taking_begun(p.levels[h], p.inode, desired, p.bytes);
            let end = taking_after(t, desired, other, no_failures(), 2);
            end.action == granted() && end.state.level == desired
        }),
{
    reveal_with_fuel(taking_after, 3);
}

/// Where the giving back of a lock stands, with the locks of the process.
pub struct Giving {
    pub state: UnlockState,
    pub action: LockAction,
    pub bytes: Bytes,
}

/// The giving back of a lock, before its first call.
pub open spec fn giving_begun(level: LockLevel, inode: InodeState, desired: LockLevel, bytes: Bytes) -> Giving {
    let (state, action) = unlock_step(
        UnlockState { level, inode, phase: UnlockPhase::Start },
        desired,
        None,
    );
    Giving { state, action, bytes }
}

/// One call, and the step after it. What only takes locks away never fails.
pub open spec fn giving_next(g: Giving, desired: LockLevel, other: Bytes, failure: Option<i32>) -> Giving {
    if g.action is Done {
        g
    } else if g.action is Unlock || grantable(g.action, other) && failure is None {
        let (state, action) = unlock_step(g.state, desired, None);
        Giving { state, action, bytes: performed(g.bytes, g.action) }
    } else {
        let code = match failure {
            Some(code) => code,
            None => crate::sqlite::vfs::codes::SQLITE_BUSY,
        };
        let (state, action) = unlock_step(g.state, desired, Some(code));
        Giving { state, action, bytes: g.bytes }
    }
}

/// The giving back of a lock after `n` calls.
pub open spec fn giving_after(
    g: Giving,
    desired: LockLevel,
    other: Bytes,
    failures: spec_fn(nat) -> Option<i32>,
    n: nat,
) -> Giving
    decreases n,
{
    if n == 0 {
        g
    } else {
        giving_next(
            giving_after(g, desired, other, failures, (n - 1) as nat),
            desired,
            other,
            failures((n - 1) as nat),
        )
    }
}

/// What holds between the calls of giving a lock back.
spec fn giving_backed(
    g: Giving,
    desired: LockLevel,
    levels: Seq<LockLevel>,
    h: int,
    exact: bool,
) -> bool {
    &&& unlocking(g.state, desired, levels, h)
    &&& desired is Unlocked || desired is Shared
    &&& g.action == granted() ==> g.state.level.rank() <= desired.rank()
    &&& match g.state.phase {
        UnlockPhase::Start => false,
        UnlockPhase::Over => g.action is Done && backs(g.bytes, g.state.inode.max_lock) && (exact
            ==> exactly(g.bytes, g.state.inode.max_lock)),
        UnlockPhase::Downgrade => {
            &&& desired is Shared
            &&& g.action == (LockAction::Read { start: SHARED_FIRST, len: SHARED_SIZE })
            &&& backs(g.bytes, g.state.inode.max_lock)
            &&& exact ==> exactly(g.bytes, g.state.inode.max_lock)
        },
        UnlockPhase::Drop => {
            &&& g.action == (LockAction::Unlock { start: PENDING_BYTE, len: 2 })
            &&& backs(g.bytes, LockLevel::Shared)
            &&& exact ==> forall|b: int|
                !shared_byte(b) && b != PENDING_BYTE && b != RESERVED_BYTE ==> (#[trigger] (
                g.bytes)(b)) is Free
            &&& exact && (desired is Shared || !(g.state.inode.max_lock is Exclusive))
                ==> forall|b: int| shared_byte(b) ==> (#[trigger] (g.bytes)(b)) is Read
        },
        UnlockPhase::Release => {
            &&& g.action == (LockAction::Unlock { start: 0, len: 0 })
            &&& exact ==> forall|b: int| b < 0 ==> (#[trigger] (g.bytes)(b)) is Free
        },
    }
}

proof fn lemma_giving_next(
    g: Giving,
    desired: LockLevel,
    other: Bytes,
    failure: Option<i32>,
    levels: Seq<LockLevel>,
    h: int,
    exact: bool,
)
    requires
        giving_backed(g, desired, levels, h, exact),
        compatible(g.bytes, other),
    ensures
        ({
            let next = giving_next(g, desired, other, failure);
            &&& giving_backed(next, desired, levels.update(h, next.state.level), h, exact)
            &&& compatible(next.bytes, other)
        }),
{
    let next = giving_next(g, desired, other, failure);
    if g.action is Done {
        assert(levels.update(h, next.state.level) =~= levels);
    } else if g.action is Unlock || grantable(g.action, other) && failure is None {
        unlocking_keeps_consistency(g.state, desired, None, levels, h);
        lemma_performed(g.bytes, g.action, other);
    } else {
        let code = match failure {
            Some(code) => code,
            None => crate::sqlite::vfs::codes::SQLITE_BUSY,
        };
        unlocking_keeps_consistency(g.state, desired, Some(code), levels, h);
    }
}

proof fn lemma_giving_after(
    g: Giving,
    desired: LockLevel,
    other: Bytes,
    failures: spec_fn(nat) -> Option<i32>,
    n: nat,
    levels: Seq<LockLevel>,
    h: int,
    exact: bool,
)
    requires
        giving_backed(g, desired, levels.update(h, g.state.level), h, exact),
        0 <= h < levels.len(),
        compatible(g.bytes, other),
    ensures
        ({
            let end = giving_after(g, desired, other, failures, n);
            &&& giving_backed(end, desired, levels.update(h, end.state.level), h, exact)
            &&& compatible(end.bytes, other)
        }),
    decreases n,
{
    if n > 0 {
        let m = (n - 1) as nat;
        lemma_giving_after(g, desired, other, failures, m, levels, h, exact);
        let before = giving_after(g, desired, other, failures, m);
        let at = levels.update(h, before.state.level);
        lemma_giving_next(before, desired, other, failures(m), at, h, exact);
        let end = giving_after(g, desired, other, failures, n);
        assert(at.update(h, end.state.level) =~= levels.update(h, end.state.level));
    }
}

/// When the giving back of a lock is over, what the handles still hold is
/// backed by locks of the system, and nothing else is locked: a process whose
/// handles hold nothing leaves every byte to others.
pub proof fn locks_given_back_are_released(
    p: Process,
    h: int,
    desired: LockLevel,
    other: Bytes,
    failures: spec_fn(nat) -> Option<i32>,
    n: nat,
)
    requires
        settled(p),
        0 <= h < p.levels.len(),
        desired is Unlocked || desired is Shared,
        compatible(p.bytes, other),
    ensures
        ({
            let g = giving_begun(p.levels[h], p.inode, desired, p.bytes);
            let end = giving_after(g, desired, other, failures, n);
            &&& compatible(end.bytes, other)
            &&& end.action is Done ==> settled(
                moved(p, h, end.state.level, end.state.inode, end.bytes),
            )
            &&& end.action == granted() ==> end.state.level.rank() <= desired.rank()
            &&& exactly(p.bytes, p.inode.max_lock) && end.action is Done ==> exactly(
                end.bytes,
                end.state.inode.max_lock,
            )
            &&& n >= 3 ==> end.action is Done
            &&& n >= 3 && desired is Unlocked ==> end.action == granted() && end.state.level
                is Unlocked
        }),
{
    let g = giving_begun(p.levels[h], p.inode, desired, p.bytes);
    let s = UnlockState { level: p.levels[h], inode: p.inode, phase: UnlockPhase::Start };
    unlocking_keeps_consistency(s, desired, None, p.levels, h);
    assert(p.levels[h].rank() <= p.inode.max_lock.rank());
    if p.levels[h].rank() > 1 {
        let w = choose|w: int|
            0 <= w < p.levels.len() && #[trigger] p.levels[w] == p.inode.max_lock;
        assert(w == h);
    }
    lemma_giving_after(g, desired, other, failures, n, p.levels, h, false);
    if exactly(p.bytes, p.inode.max_lock) {
        lemma_giving_after(g, desired, other, failures, n, p.levels, h, true);
    }
    lemma_giving_ends(g, desired, other, failures, n);
}

/// Giving a lock back takes at most three calls.
proof fn lemma_giving_ends(
    g: Giving,
    desired: LockLevel,
    other: Bytes,
    failures: spec_fn(nat) -> Option<i32>,
    n: nat,
)
    requires
        g.state.phase is Over ==> g.action is Done,
        g.state.phase is Downgrade ==> g.action is Read && desired is Shared,
        g.state.phase is Drop || g.state.phase is Release ==> g.action is Unlock,
        !(g.state.phase is Start),
        g.state.phase is Over && desired is Unlocked ==> g.action == granted() && g.state.level
            is Unlocked,
    ensures
        n >= 3 ==> giving_after(g, desired, other, failures, n).action is Done,
        n >= 3 && desired is Unlocked ==> giving_after(g, desired, other, failures, n).action
            == granted() && giving_after(g, desired, other, failures, n).state.level is Unlocked,
    decreases n,
{
    if n > 3 {
        lemma_giving_ends(g, desired, other, failures, (n - 1) as nat);
    } else if n == 3 {
        reveal_with_fuel(giving_after, 4);
    }
}

} // verus!
