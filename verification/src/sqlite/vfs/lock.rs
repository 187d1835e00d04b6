//! Locks on a database file. The handles that one process has on a file share
//! its locks: the system knows one holder, and who holds what among the
//! handles is kept here.
//!
//! Locking and unlocking go in steps. A step says which system call to make,
//! and the next step takes the call's outcome.

use vstd::prelude::*;
use crate::sqlite::vfs::codes::{
    PENDING_BYTE, RESERVED_BYTE, SHARED_FIRST, SHARED_SIZE, SQLITE_BUSY, SQLITE_IOERR,
    SQLITE_IOERR_LOCK, SQLITE_IOERR_UNLOCK,
};

verus! {

/// How much of a lock a handle holds.
#[derive(Clone, Copy, Debug, PartialEq, Eq, Structural)]
pub enum LockLevel {
    Unlocked,
    Shared,
    Reserved,
    Pending,
    Exclusive,
}

impl LockLevel {
    /// The level's place in the order of levels.
    pub open spec fn rank(self) -> int {
        match self {
            LockLevel::Unlocked => 0,
            LockLevel::Shared => 1,
            LockLevel::Reserved => 2,
            LockLevel::Pending => 3,
            LockLevel::Exclusive => 4,
        }
    }

    fn number(self) -> (n: u8)
        ensures
            n == self.rank(),
    {
        match self {
            LockLevel::Unlocked => 0,
            LockLevel::Shared => 1,
            LockLevel::Reserved => 2,
            LockLevel::Pending => 3,
            LockLevel::Exclusive => 4,
        }
    }

    /// Whether this level is at least the other.
    pub fn at_least(self, other: LockLevel) -> (r: bool)
        ensures
            r == (self.rank() >= other.rank()),
    {
        self.number() >= other.number()
    }
}

/// What the handles of one process hold on a file together.
#[derive(Clone, Copy, Debug, PartialEq, Eq, Structural)]
pub struct InodeState {
    /// How many handles hold a lock.
    pub n_shared: usize,
    /// How many handles keep the file from being closed.
    pub n_lock: usize,
    /// The highest level that a handle holds.
    pub max_lock: LockLevel,
    /// How many handles there are.
    pub n_ref: usize,
    /// How many closed handles' descriptors wait to be closed.
    pub pending: usize,
}

impl InodeState {
    /// A file on which nothing is held, and which no handle refers to.
    pub fn new() -> (s: InodeState)
        ensures
            s == (InodeState {
                n_shared: 0,
                n_lock: 0,
                max_lock: LockLevel::Unlocked,
                n_ref: 0,
                pending: 0,
            }),
    {
        InodeState {
            n_shared: 0,
            n_lock: 0,
            max_lock: LockLevel::Unlocked,
            n_ref: 0,
            pending: 0,
        }
    }
}

/// A call to make, or the outcome.
#[derive(Clone, Copy, Debug, PartialEq, Eq, Structural)]
pub enum LockAction {
    /// Put a read lock on bytes.
    Read { start: i64, len: i64 },
    /// Put a write lock on bytes.
    Write { start: i64, len: i64 },
    /// Take the locks from bytes; no length means up to the end.
    Unlock { start: i64, len: i64 },
    /// Done, with a code if it failed.
    Done(Option<i32>),
}

/// The action that succeeds.
pub open spec fn granted() -> LockAction {
    LockAction::Done(None)
}

/// The action that fails because someone else holds a lock.
pub open spec fn refused() -> LockAction {
    LockAction::Done(Some(SQLITE_BUSY))
}

/// Where the taking of a lock stands: which call's outcome is waited for.
#[derive(Clone, Copy, Debug, PartialEq, Eq, Structural)]
pub enum LockPhase {
    Start,
    /// The lock on the pending byte.
    Pending,
    /// The read lock on the shared bytes.
    Shared,
    /// The release of the pending byte, after the read lock's outcome.
    Release(Option<i32>),
    /// The last write lock.
    Last,
    Over,
}

/// A handle's level, the file's state, and where the taking of a lock stands.
pub struct LockState {
    pub level: LockLevel,
    pub inode: InodeState,
    pub phase: LockPhase,
}

/// The last part of taking a lock above the shared one.
pub open spec fn last_part(s: LockState, desired: LockLevel) -> (LockState, LockAction) {
    if desired == LockLevel::Exclusive && s.inode.n_shared > 1 {
        (LockState { phase: LockPhase::Over, ..s }, refused())
    } else if desired == LockLevel::Reserved {
        (
            LockState { phase: LockPhase::Last, ..s },
            LockAction::Write { start: RESERVED_BYTE, len: 1 },
        )
    } else if desired == LockLevel::Exclusive {
        (
            LockState { phase: LockPhase::Last, ..s },
            LockAction::Write { start: SHARED_FIRST, len: SHARED_SIZE },
        )
    } else {
        (
            LockState {
                level: desired,
                inode: InodeState { max_lock: desired, ..s.inode },
                phase: LockPhase::Over,
            },
            granted(),
        )
    }
}

/// One step of taking a lock. `outcome` is that of the call before: a code if
/// it failed.
pub open spec fn lock_step(s: LockState, desired: LockLevel, outcome: Option<i32>) -> (
    LockState,
    LockAction,
) {
    let over = LockState { phase: LockPhase::Over, ..s };
    let shared = desired == LockLevel::Shared;
    match s.phase {
        LockPhase::Start => if s.level.rank() >= desired.rank() {
            (over, granted())
        } else if s.level != s.inode.max_lock && (s.inode.max_lock.rank()
            >= LockLevel::Pending.rank() || desired.rank() > LockLevel::Shared.rank()) {
            (over, refused())
        } else if shared && (s.inode.max_lock == LockLevel::Shared || s.inode.max_lock
            == LockLevel::Reserved) {
            (
                LockState {
                    level: LockLevel::Shared,
                    inode: InodeState {
                        n_shared: (s.inode.n_shared + 1) as usize,
                        n_lock: (s.inode.n_lock + 1) as usize,
                        ..s.inode
                    },
                    phase: LockPhase::Over,
                },
                granted(),
            )
        } else if shared {
            (
                LockState { phase: LockPhase::Pending, ..s },
                LockAction::Read { start: PENDING_BYTE, len: 1 },
            )
        } else if desired == LockLevel::Exclusive && s.level == LockLevel::Reserved {
            (
                LockState { phase: LockPhase::Pending, ..s },
                LockAction::Write { start: PENDING_BYTE, len: 1 },
            )
        } else {
            last_part(s, desired)
        },
        LockPhase::Pending => if outcome is Some {
            (over, LockAction::Done(outcome))
        } else if shared {
            (
                LockState { phase: LockPhase::Shared, ..s },
                LockAction::Read { start: SHARED_FIRST, len: SHARED_SIZE },
            )
        } else {
            last_part(
                LockState {
                    level: LockLevel::Pending,
                    inode: InodeState { max_lock: LockLevel::Pending, ..s.inode },
                    ..s
                },
                desired,
            )
        },
        LockPhase::Shared => (
            LockState { phase: LockPhase::Release(outcome), ..s },
            LockAction::Unlock { start: PENDING_BYTE, len: 1 },
        ),
        LockPhase::Release(locked) => if locked is Some {
            (over, LockAction::Done(locked))
        } else if outcome is Some {
            (over, LockAction::Done(outcome))
        } else {
            (
                LockState {
                    level: LockLevel::Shared,
                    inode: InodeState {
                        n_shared: 1,
                        n_lock: (s.inode.n_lock + 1) as usize,
                        max_lock: LockLevel::Shared,
                        ..s.inode
                    },
                    phase: LockPhase::Over,
                },
                granted(),
            )
        },
        LockPhase::Last => if outcome is Some {
            (over, LockAction::Done(outcome))
        } else {
            (
                LockState {
                    level: desired,
                    inode: InodeState { max_lock: desired, ..s.inode },
                    phase: LockPhase::Over,
                },
                granted(),
            )
        },
        LockPhase::Over => (s, LockAction::Done(outcome)),
    }
}

/// Whether the counts can take a step: that of the handles with a shared lock
/// where one joins them, and that of the handles with a lock where one more
/// gets one.
pub open spec fn lock_fits(s: LockState, desired: LockLevel, outcome: Option<i32>) -> bool {
    match s.phase {
        LockPhase::Start => desired is Shared && s.level is Unlocked && (s.inode.max_lock is Shared
            || s.inode.max_lock is Reserved) ==> s.inode.n_shared < usize::MAX && s.inode.n_lock
            < usize::MAX,
        LockPhase::Release(None) => outcome is None ==> s.inode.n_lock < usize::MAX,
        _ => true,
    }
}

/// A lock being taken for one handle.
#[derive(Clone, Copy, Debug, PartialEq, Eq, Structural)]
pub struct Locking {
    pub desired: LockLevel,
    pub phase: LockPhase,
}

impl Locking {
    /// The taking of a lock, before its first step.
    pub fn new(desired: LockLevel) -> (l: Locking)
        ensures
            l == (Locking { desired, phase: LockPhase::Start }),
    {
        Locking { desired, phase: LockPhase::Start }
    }

    /// The last part of taking a lock above the shared one.
    fn finish(&mut self, level: &mut LockLevel, inode: &mut InodeState) -> (action: LockAction)
        ensures
            final(self).desired == old(self).desired,
            (
                LockState { level: *final(level), inode: *final(inode), phase: final(self).phase },
                action,
            ) == last_part(
                LockState { level: *old(level), inode: *old(inode), phase: old(self).phase },
                old(self).desired,
            ),
    {
        if self.desired == LockLevel::Exclusive && inode.n_shared > 1 {
            self.phase = LockPhase::Over;
            return LockAction::Done(Some(SQLITE_BUSY));
        }
        self.phase = LockPhase::Last;
        match self.desired {
            LockLevel::Reserved => LockAction::Write { start: RESERVED_BYTE, len: 1 },
            LockLevel::Exclusive => LockAction::Write { start: SHARED_FIRST, len: SHARED_SIZE },
            _ => {
                *level = self.desired;
                inode.max_lock = self.desired;
                self.phase = LockPhase::Over;
                LockAction::Done(None)
            },
        }
    }

    /// Takes the outcome of the call before, and says what to do next.
    pub fn step(&mut self, level: &mut LockLevel, inode: &mut InodeState, outcome: Option<i32>) -> (
    action: LockAction)
        requires
            lock_fits(
                LockState { level: *old(level), inode: *old(inode), phase: old(self).phase },
                old(self).desired,
                outcome,
            ),
        ensures
            final(self).desired == old(self).desired,
            (
                LockState { level: *final(level), inode: *final(inode), phase: final(self).phase },
                action,
            ) == lock_step(
                LockState { level: *old(level), inode: *old(inode), phase: old(self).phase },
                old(self).desired,
                outcome,
            ),
    {
        let shared = self.desired == LockLevel::Shared;
        match self.phase {
            LockPhase::Start => {
                if level.at_least(self.desired) {
                    self.phase = LockPhase::Over;
                    return LockAction::Done(None);
                }
                if *level != inode.max_lock && (inode.max_lock.at_least(LockLevel::Pending)
                    || !LockLevel::Shared.at_least(self.desired)) {
                    self.phase = LockPhase::Over;
                    return LockAction::Done(Some(SQLITE_BUSY));
                }
                if shared && (inode.max_lock == LockLevel::Shared || inode.max_lock
                    == LockLevel::Reserved) {
                    inode.n_shared = inode.n_shared + 1;
                    inode.n_lock = inode.n_lock + 1;
                    *level = LockLevel::Shared;
                    self.phase = LockPhase::Over;
                    return LockAction::Done(None);
                }
                if shared {
                    self.phase = LockPhase::Pending;
                    return LockAction::Read { start: PENDING_BYTE, len: 1 };
                }
                if self.desired == LockLevel::Exclusive && *level == LockLevel::Reserved {
                    self.phase = LockPhase::Pending;
                    return LockAction::Write { start: PENDING_BYTE, len: 1 };
                }
                self.finish(level, inode)
            },
            LockPhase::Pending => {
                if outcome.is_some() {
                    self.phase = LockPhase::Over;
                    return LockAction::Done(outcome);
                }
                if shared {
                    self.phase = LockPhase::Shared;
                    return LockAction::Read { start: SHARED_FIRST, len: SHARED_SIZE };
                }
                *level = LockLevel::Pending;
                inode.max_lock = LockLevel::Pending;
                self.finish(level, inode)
            },
            LockPhase::Shared => {
                self.phase = LockPhase::Release(outcome);
                LockAction::Unlock { start: PENDING_BYTE, len: 1 }
            },
            LockPhase::Release(locked) => {
                self.phase = LockPhase::Over;
                if locked.is_some() {
                    return LockAction::Done(locked);
                }
                if outcome.is_some() {
                    return LockAction::Done(outcome);
                }
                inode.n_shared = 1;
                inode.n_lock = inode.n_lock + 1;
                inode.max_lock = LockLevel::Shared;
                *level = LockLevel::Shared;
                LockAction::Done(None)
            },
            LockPhase::Last => {
                self.phase = LockPhase::Over;
                if outcome.is_some() {
                    return LockAction::Done(outcome);
                }
                *level = self.desired;
                inode.max_lock = self.desired;
                LockAction::Done(None)
            },
            LockPhase::Over => LockAction::Done(outcome),
        }
    }
}

/// Where the giving back of a lock stands: which call's outcome is waited for.
#[derive(Clone, Copy, Debug, PartialEq, Eq, Structural)]
pub enum UnlockPhase {
    Start,
    /// The read lock in place of a write lock on the shared bytes.
    Downgrade,
    /// The release of the pending and the reserved byte.
    Drop,
    /// The release of everything.
    Release,
    Over,
}

/// A handle's level, the file's state, and where the giving back stands.
pub struct UnlockState {
    pub level: LockLevel,
    pub inode: InodeState,
    pub phase: UnlockPhase,
}

/// The end of giving a lock back: the handle is at the level that was asked
/// for, and if it holds nothing it counts no more.
pub open spec fn unlock_end(s: UnlockState, desired: LockLevel) -> (UnlockState, LockAction) {
    let inode = if desired is Unlocked {
        InodeState {
            n_lock: (s.inode.n_lock - 1) as usize,
            pending: if s.inode.n_lock == 1 {
                0
            } else {
                s.inode.pending
            },
            ..s.inode
        }
    } else {
        s.inode
    };
    (UnlockState { level: desired, inode, phase: UnlockPhase::Over }, granted())
}

/// The part of giving a lock back that concerns the shared lock.
pub open spec fn unlock_shared(s: UnlockState, desired: LockLevel) -> (UnlockState, LockAction) {
    if desired is Unlocked {
        let inode = InodeState { n_shared: (s.inode.n_shared - 1) as usize, ..s.inode };
        if inode.n_shared == 0 {
            (
                UnlockState { inode, phase: UnlockPhase::Release, ..s },
                LockAction::Unlock { start: 0, len: 0 },
            )
        } else {
            unlock_end(UnlockState { inode, ..s }, desired)
        }
    } else {
        unlock_end(s, desired)
    }
}

/// One step of giving a lock back. `outcome` is that of the call before: a
/// code if it failed.
pub open spec fn unlock_step(s: UnlockState, desired: LockLevel, outcome: Option<i32>) -> (
    UnlockState,
    LockAction,
) {
    let over = UnlockState { phase: UnlockPhase::Over, ..s };
    let drop = (
        UnlockState { phase: UnlockPhase::Drop, ..s },
        LockAction::Unlock { start: PENDING_BYTE, len: 2 },
    );
    match s.phase {
        UnlockPhase::Start => if s.level.rank() <= desired.rank() {
            (over, granted())
        } else if s.level.rank() <= LockLevel::Shared.rank() {
            unlock_shared(s, desired)
        } else if desired is Shared {
            (
                UnlockState { phase: UnlockPhase::Downgrade, ..s },
                LockAction::Read { start: SHARED_FIRST, len: SHARED_SIZE },
            )
        } else {
            drop
        },
        UnlockPhase::Downgrade => if outcome is Some {
            (over, LockAction::Done(outcome))
        } else {
            drop
        },
        UnlockPhase::Drop => if outcome is Some {
            (over, LockAction::Done(outcome))
        } else {
            unlock_shared(
                UnlockState {
                    inode: InodeState { max_lock: LockLevel::Shared, ..s.inode },
                    ..s
                },
                desired,
            )
        },
        UnlockPhase::Release => if outcome is Some {
            (over, LockAction::Done(outcome))
        } else {
            unlock_end(
                UnlockState {
                    inode: InodeState { max_lock: LockLevel::Unlocked, ..s.inode },
                    ..s
                },
                desired,
            )
        },
        UnlockPhase::Over => (s, LockAction::Done(outcome)),
    }
}

/// Whether a lock can be given back: to hold none any more takes a handle that
/// was counted when it took the lock.
pub open spec fn unlock_fits(s: UnlockState, desired: LockLevel) -> bool {
    desired is Unlocked ==> match s.phase {
        UnlockPhase::Start => s.level is Unlocked || s.inode.n_lock > 0 && s.inode.n_shared > 0,
        UnlockPhase::Downgrade => s.inode.n_lock > 0 && s.inode.n_shared > 0,
        UnlockPhase::Drop => s.inode.n_lock > 0 && s.inode.n_shared > 0,
        UnlockPhase::Release => s.inode.n_lock > 0,
        UnlockPhase::Over => true,
    }
}

/// A lock being given back by one handle.
#[derive(Clone, Copy, Debug, PartialEq, Eq, Structural)]
pub struct Unlocking {
    pub desired: LockLevel,
    pub phase: UnlockPhase,
}

impl Unlocking {
    /// The giving back of a lock, before its first step.
    pub fn new(desired: LockLevel) -> (u: Unlocking)
        ensures
            u == (Unlocking { desired, phase: UnlockPhase::Start }),
    {
        Unlocking { desired, phase: UnlockPhase::Start }
    }

    /// The end of giving a lock back.
    fn end(&mut self, level: &mut LockLevel, inode: &mut InodeState) -> (action: LockAction)
        requires
            old(self).desired is Unlocked ==> old(inode).n_lock > 0,
        ensures
            final(self).desired == old(self).desired,
            (
                UnlockState { level: *final(level), inode: *final(inode), phase: final(self).phase },
                action,
            ) == unlock_end(
                UnlockState { level: *old(level), inode: *old(inode), phase: old(self).phase },
                old(self).desired,
            ),
    {
        if self.desired == LockLevel::Unlocked {
            inode.n_lock = inode.n_lock - 1;
            if inode.n_lock == 0 {
                inode.pending = 0;
            }
        }
        *level = self.desired;
        self.phase = UnlockPhase::Over;
        LockAction::Done(None)
    }

    /// The part of giving a lock back that concerns the shared lock.
    fn shared(&mut self, level: &mut LockLevel, inode: &mut InodeState) -> (action: LockAction)
        requires
            old(self).desired is Unlocked ==> old(inode).n_lock > 0 && old(inode).n_shared > 0,
        ensures
            final(self).desired == old(self).desired,
            (
                UnlockState { level: *final(level), inode: *final(inode), phase: final(self).phase },
                action,
            ) == unlock_shared(
                UnlockState { level: *old(level), inode: *old(inode), phase: old(self).phase },
                old(self).desired,
            ),
    {
        if self.desired == LockLevel::Unlocked {
            inode.n_shared = inode.n_shared - 1;
            if inode.n_shared == 0 {
                self.phase = UnlockPhase::Release;
                return LockAction::Unlock { start: 0, len: 0 };
            }
        }
        self.end(level, inode)
    }

    /// Takes the outcome of the call before, and says what to do next.
    pub fn step(&mut self, level: &mut LockLevel, inode: &mut InodeState, outcome: Option<i32>) -> (
    action: LockAction)
        requires
            unlock_fits(
                UnlockState { level: *old(level), inode: *old(inode), phase: old(self).phase },
                old(self).desired,
            ),
        ensures
            final(self).desired == old(self).desired,
            (
                UnlockState { level: *final(level), inode: *final(inode), phase: final(self).phase },
                action,
            ) == unlock_step(
                UnlockState { level: *old(level), inode: *old(inode), phase: old(self).phase },
                old(self).desired,
                outcome,
            ),
    {
        match self.phase {
            UnlockPhase::Start => {
                if self.desired.at_least(*level) {
                    self.phase = UnlockPhase::Over;
                    return LockAction::Done(None);
                }
                if LockLevel::Shared.at_least(*level) {
                    return self.shared(level, inode);
                }
                if self.desired == LockLevel::Shared {
                    self.phase = UnlockPhase::Downgrade;
                    return LockAction::Read { start: SHARED_FIRST, len: SHARED_SIZE };
                }
                self.phase = UnlockPhase::Drop;
                LockAction::Unlock { start: PENDING_BYTE, len: 2 }
            },
            UnlockPhase::Downgrade => {
                if outcome.is_some() {
                    self.phase = UnlockPhase::Over;
                    return LockAction::Done(outcome);
                }
                self.phase = UnlockPhase::Drop;
                LockAction::Unlock { start: PENDING_BYTE, len: 2 }
            },
            UnlockPhase::Drop => {
                if outcome.is_some() {
                    self.phase = UnlockPhase::Over;
                    return LockAction::Done(outcome);
                }
                inode.max_lock = LockLevel::Shared;
                self.shared(level, inode)
            },
            UnlockPhase::Release => {
                if outcome.is_some() {
                    self.phase = UnlockPhase::Over;
                    return LockAction::Done(outcome);
                }
                inode.max_lock = LockLevel::Unlocked;
                self.end(level, inode)
            },
            UnlockPhase::Over => LockAction::Done(outcome),
        }
    }
}

/// Why a system call failed.
#[derive(Clone, Copy, Debug, PartialEq, Eq, Structural)]
pub enum CallFailure {
    /// Someone else holds a lock.
    Held,
    Other,
}

/// The code for a lock that could not be put on a database file.
pub fn lock_code(failure: CallFailure) -> (code: i32)
    ensures
        code == if failure is Held {
            SQLITE_BUSY
        } else {
            SQLITE_IOERR_LOCK
        },
{
    match failure {
        CallFailure::Held => SQLITE_BUSY,
        CallFailure::Other => SQLITE_IOERR_LOCK,
    }
}

/// The code for a lock that could not be taken from a file.
pub fn unlock_code(failure: CallFailure) -> (code: i32)
    ensures
        code == SQLITE_IOERR_UNLOCK,
{
    SQLITE_IOERR_UNLOCK
}

/// Whether anyone holds at least a reserved lock, as far as this process
/// knows; nothing if the system has to be asked.
pub fn known_reserved(inode: &InodeState) -> (r: Option<bool>)
    ensures
        r == if inode.max_lock.rank() >= LockLevel::Reserved.rank() {
            Some(true)
        } else {
            None
        },
{
    if inode.max_lock.at_least(LockLevel::Reserved) {
        Some(true)
    } else {
        None
    }
}

/// Whether anyone holds at least a reserved lock. `probe` says whether some
/// other process holds a lock on the reserved byte, if the system could tell.
pub open spec fn reserved_result(inode: InodeState, probe: Option<bool>) -> Result<bool, i32> {
    if inode.max_lock.rank() >= LockLevel::Reserved.rank() {
        Ok(true)
    } else {
        match probe {
            None => Err(SQLITE_IOERR),
            Some(held) => Ok(held),
        }
    }
}

/// Whether anyone holds at least a reserved lock.
pub fn check_reserved_lock(inode: &InodeState, probe: Option<bool>) -> (r: Result<bool, i32>)
    ensures
        r == reserved_result(*inode, probe),
{
    match known_reserved(inode) {
        Some(r) => Ok(r),
        None => match probe {
            None => Err(SQLITE_IOERR),
            Some(held) => Ok(held),
        },
    }
}

/// A new handle on a file.
pub fn join_inode(inode: &mut InodeState)
    requires
        old(inode).n_ref < usize::MAX,
    ensures
        *final(inode) == (InodeState { n_ref: (old(inode).n_ref + 1) as usize, ..*old(inode) }),
{
    inode.n_ref = inode.n_ref + 1;
}

/// What to do with a handle that is closed.
#[derive(Clone, Copy, Debug, PartialEq, Eq, Structural)]
pub struct Closing {
    /// Keep the descriptor open until no handle holds a lock: the system takes
    /// all locks when any descriptor is closed.
    pub defer: bool,
    /// Forget the file's state: no handle is left.
    pub forget: bool,
    /// Report this in the end, whatever comes of removing a file that is to go
    /// with its handle: the code of a lock that could not be given back.
    pub code: Option<i32>,
}

/// Closes a handle, after it was asked to give its lock back with the outcome
/// `unlocked`. A failure of that is kept to be reported, and does not keep the
/// count of handles from being right.
pub fn close_handle(inode: &mut InodeState, unlocked: Option<i32>) -> (closing: Closing)
    requires
        old(inode).n_ref > 0,
        old(inode).n_lock > 0 ==> old(inode).pending < usize::MAX,
    ensures
        closing.code == unlocked,
        closing.defer == (old(inode).n_lock > 0),
        closing.forget == (old(inode).n_ref == 1),
        *final(inode) == (InodeState {
            n_ref: (old(inode).n_ref - 1) as usize,
            pending: (old(inode).pending + if closing.defer {
                1int
            } else {
                0int
            }) as usize,
            ..*old(inode)
        }),
{
    let defer = inode.n_lock > 0;
    if defer {
        inode.pending = inode.pending + 1;
    }
    inode.n_ref = inode.n_ref - 1;
    Closing { defer, forget: inode.n_ref == 0, code: unlocked }
}

} // verus!
