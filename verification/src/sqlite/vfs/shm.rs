//! Locks on the shared memory beside a database. The connections that one
//! process has to it share its locks: the system knows one holder of each
//! slot, and who holds what among the connections is kept here.

use vstd::prelude::*;
use crate::sqlite::vfs::codes::{
    SQLITE_BUSY, SQLITE_CANTOPEN, SQLITE_IOERR, SQLITE_IOERR_LOCK, SQLITE_IOERR_SHMLOCK,
    SQLITE_IOERR_SHMOPEN, SQLITE_READONLY_CANTINIT, SQLITE_SHM_NLOCK,
};
use crate::sqlite::vfs::file::{map_vfs_err, vfs_code, FileErrorKind};

verus! {

broadcast use vstd::string::group_string_axioms;

/// What a connection does to some slots.
#[derive(Clone, Copy, Debug, PartialEq, Eq, Structural)]
pub enum ShmLockMode {
    UnlockShared,
    UnlockExclusive,
    LockShared,
    LockExclusive,
}

/// The slots that a connection holds.
#[derive(Clone, Copy, Debug)]
pub struct ShmConn {
    pub shared: [bool; 8],
    pub exclusive: [bool; 8],
}

impl ShmConn {
    /// A connection that holds nothing.
    pub fn new() -> (c: ShmConn)
        ensures
            forall|i: int| 0 <= i < 8 ==> !(#[trigger] c.shared@[i]) && !c.exclusive@[i],
    {
        ShmConn { shared: [false; 8], exclusive: [false; 8] }
    }
}

/// The slots of the shared memory, as its connections hold them: none holds a
/// slot at zero, that many share one above zero, and one alone holds a slot
/// below zero.
#[derive(Clone, Copy, Debug)]
pub struct ShmSlots {
    /// Whether the file is there to be locked.
    pub open: bool,
    pub slots: [i32; 8],
    /// How many connections there are.
    pub n_ref: usize,
}

/// A call to make, or the outcome.
#[derive(Clone, Copy, Debug, PartialEq, Eq, Structural)]
pub enum ShmAction {
    /// Put a read lock on slots.
    Read { offset: usize, count: usize },
    /// Put a write lock on slots.
    Write { offset: usize, count: usize },
    /// Take the locks from slots.
    Unlock { offset: usize, count: usize },
    /// Done, with a code if it failed.
    Done(Option<i32>),
}

/// Values with those of some slots replaced.
pub open spec fn filled<T>(s: Seq<T>, offset: int, count: int, v: T) -> Seq<T> {
    Seq::new(
        s.len(),
        |i: int|
            if offset <= i < offset + count {
                v
            } else {
                s[i]
            },
    )
}

/// Whether all of some slots are at zero.
pub open spec fn all_free(slots: Seq<i32>, offset: int, count: int) -> bool {
    forall|i: int| offset <= i < offset + count ==> #[trigger] slots[i] == 0
}

/// What a connection holds and what the slots say.
pub struct SlotState {
    pub shared: Seq<bool>,
    pub exclusive: Seq<bool>,
    pub slots: Seq<i32>,
}

pub open spec fn slot_state(conn: ShmConn, node: ShmSlots) -> SlotState {
    SlotState { shared: conn.shared@, exclusive: conn.exclusive@, slots: node.slots@ }
}

/// The first step of locking or unlocking: what can be done without the
/// system, and what the system is to be asked for.
pub open spec fn shm_begun(s: SlotState, offset: int, count: int, mode: ShmLockMode) -> (
    SlotState,
    ShmAction,
) {
    match mode {
        ShmLockMode::UnlockShared => {
            let slots = s.slots.update(offset, (s.slots[offset] - 1) as i32);
            if slots[offset] == 0 {
                (
                    SlotState { slots, ..s },
                    ShmAction::Unlock { offset: offset as usize, count: 1 },
                )
            } else {
                (
                    SlotState { slots, shared: filled(s.shared, offset, count, false), ..s },
                    ShmAction::Done(None),
                )
            }
        },
        ShmLockMode::UnlockExclusive => (
            s,
            ShmAction::Unlock { offset: offset as usize, count: count as usize },
        ),
        ShmLockMode::LockShared => if s.slots[offset] < 0 {
            (s, ShmAction::Done(Some(SQLITE_BUSY)))
        } else if s.slots[offset] == 0 {
            (s, ShmAction::Read { offset: offset as usize, count: 1 })
        } else {
            (shared_taken(s, offset, count), ShmAction::Done(None))
        },
        ShmLockMode::LockExclusive => if all_free(s.slots, offset, count) {
            (s, ShmAction::Write { offset: offset as usize, count: count as usize })
        } else {
            (s, ShmAction::Done(Some(SQLITE_BUSY)))
        },
    }
}

/// One more connection shares a slot.
pub open spec fn shared_taken(s: SlotState, offset: int, count: int) -> SlotState {
    SlotState {
        slots: s.slots.update(offset, (s.slots[offset] + 1) as i32),
        shared: filled(s.shared, offset, count, true),
        ..s
    }
}

/// The last step, once the system did what it was asked for.
pub open spec fn shm_ended(s: SlotState, offset: int, count: int, mode: ShmLockMode) -> SlotState {
    match mode {
        ShmLockMode::UnlockShared => SlotState {
            shared: filled(s.shared, offset, count, false),
            ..s
        },
        ShmLockMode::UnlockExclusive => SlotState {
            slots: filled(s.slots, offset, count, 0),
            exclusive: filled(s.exclusive, offset, count, false),
            ..s
        },
        ShmLockMode::LockShared => shared_taken(s, offset, count),
        ShmLockMode::LockExclusive => SlotState {
            slots: filled(s.slots, offset, count, (-1) as i32),
            exclusive: filled(s.exclusive, offset, count, true),
            ..s
        },
    }
}

/// Whether the slots can be locked or unlocked so: shared locks go slot by
/// slot, and only what is held is unlocked.
pub open spec fn shm_fits(s: SlotState, offset: int, count: int, mode: ShmLockMode) -> bool {
    &&& s.shared.len() == 8
    &&& s.exclusive.len() == 8
    &&& s.slots.len() == 8
    &&& 0 <= offset
    &&& 0 <= count
    &&& offset + count <= 8
    &&& match mode {
        ShmLockMode::UnlockShared => count == 1 && s.shared[offset] && s.slots[offset] > i32::MIN,
        ShmLockMode::LockShared => count == 1 && s.slots[offset] < i32::MAX,
        ShmLockMode::UnlockExclusive => forall|i: int|
            offset <= i < offset + count ==> #[trigger] s.exclusive[i],
        ShmLockMode::LockExclusive => true,
    }
}

/// Gives some slots of a connection the same flag.
fn fill_flags(flags: &mut [bool; 8], offset: usize, count: usize, v: bool)
    requires
        offset + count <= 8,
    ensures
        final(flags)@ == filled(old(flags)@, offset as int, count as int, v),
{
    let ghost before = flags@;
    let mut i: usize = offset;
    assert(flags@ =~= filled(before, offset as int, 0, v));
    while i < offset + count
        invariant
            offset <= i <= offset + count <= 8,
            before.len() == 8,
            flags@ == filled(before, offset as int, i - offset, v),
        decreases offset + count - i,
    {
        flags[i] = v;
        assert(flags@ =~= filled(before, offset as int, i + 1 - offset, v));
        i = i + 1;
    }
}

/// Gives some slots the same number.
fn fill_slots(slots: &mut [i32; 8], offset: usize, count: usize, v: i32)
    requires
        offset + count <= 8,
    ensures
        final(slots)@ == filled(old(slots)@, offset as int, count as int, v),
{
    let ghost before = slots@;
    let mut i: usize = offset;
    assert(slots@ =~= filled(before, offset as int, 0, v));
    while i < offset + count
        invariant
            offset <= i <= offset + count <= 8,
            before.len() == 8,
            slots@ == filled(before, offset as int, i - offset, v),
        decreases offset + count - i,
    {
        slots[i] = v;
        assert(slots@ =~= filled(before, offset as int, i + 1 - offset, v));
        i = i + 1;
    }
}

impl ShmSlots {
    /// The slots of a file that was just opened by one connection.
    pub fn new() -> (s: ShmSlots)
        ensures
            s.open,
            s.n_ref == 1,
            s.slots@ =~= Seq::new(8, |i: int| 0i32),
    {
        ShmSlots { open: true, slots: [0; 8], n_ref: 1 }
    }

    /// One more connection.
    pub fn join(&mut self)
        requires
            old(self).n_ref < usize::MAX,
        ensures
            *final(self) == (ShmSlots { n_ref: (old(self).n_ref + 1) as usize, ..*old(self) }),
    {
        self.n_ref = self.n_ref + 1;
    }

    /// Begins to lock or unlock slots for a connection.
    pub fn begin(&mut self, conn: &mut ShmConn, offset: usize, count: usize, mode: ShmLockMode) -> (
    action: ShmAction)
        requires
            shm_fits(slot_state(*old(conn), *old(self)), offset as int, count as int, mode),
        ensures
            final(self).n_ref == old(self).n_ref,
            final(self).open == old(self).open,
            !old(self).open ==> action == ShmAction::Done(Some(SQLITE_IOERR_SHMLOCK)) && slot_state(
                *final(conn),
                *final(self),
            ) == slot_state(*old(conn), *old(self)),
            old(self).open ==> (slot_state(*final(conn), *final(self)), action) == shm_begun(
                slot_state(*old(conn), *old(self)),
                offset as int,
                count as int,
                mode,
            ),
    {
        if !self.open {
            return ShmAction::Done(Some(SQLITE_IOERR_SHMLOCK));
        }
        match mode {
            ShmLockMode::UnlockShared => {
                self.slots[offset] = self.slots[offset] - 1;
                if self.slots[offset] == 0 {
                    return ShmAction::Unlock { offset, count: 1 };
                }
                fill_flags(&mut conn.shared, offset, count, false);
                ShmAction::Done(None)
            },
            ShmLockMode::UnlockExclusive => ShmAction::Unlock { offset, count },
            ShmLockMode::LockShared => {
                if self.slots[offset] < 0 {
                    return ShmAction::Done(Some(SQLITE_BUSY));
                }
                if self.slots[offset] == 0 {
                    return ShmAction::Read { offset, count: 1 };
                }
                self.slots[offset] = self.slots[offset] + 1;
                fill_flags(&mut conn.shared, offset, count, true);
                ShmAction::Done(None)
            },
            ShmLockMode::LockExclusive => {
                let mut i: usize = offset;
                while i < offset + count
                    invariant
                        offset <= i <= offset + count <= 8,
                        *self == *old(self),
                        *conn == *old(conn),
                        self.open,
                        mode is LockExclusive,
                        forall|j: int| offset <= j < i ==> #[trigger] self.slots@[j] == 0,
                    decreases offset + count - i,
                {
                    if self.slots[i] != 0 {
                        assert(self.slots@[i as int] != 0);
                        assert(!all_free(self.slots@, offset as int, count as int));
                        return ShmAction::Done(Some(SQLITE_BUSY));
                    }
                    i = i + 1;
                }
                ShmAction::Write { offset, count }
            },
        }
    }

    /// Ends locking or unlocking with the system's answer: a code if it
    /// failed.
    pub fn end(
        &mut self,
        conn: &mut ShmConn,
        offset: usize,
        count: usize,
        mode: ShmLockMode,
        outcome: Option<i32>,
    ) -> (r: Option<i32>)
        requires
            offset + count <= 8,
            mode is LockShared ==> count == 1 && old(self).slots@[offset as int] < i32::MAX,
        ensures
            final(self).n_ref == old(self).n_ref,
            final(self).open == old(self).open,
            r == outcome,
            slot_state(*final(conn), *final(self)) == if outcome is Some {
                slot_state(*old(conn), *old(self))
            } else {
                shm_ended(
                    slot_state(*old(conn), *old(self)),
                    offset as int,
                    count as int,
                    mode,
                )
            },
    {
        if outcome.is_some() {
            return outcome;
        }
        match mode {
            ShmLockMode::UnlockShared => fill_flags(&mut conn.shared, offset, count, false),
            ShmLockMode::UnlockExclusive => {
                fill_slots(&mut self.slots, offset, count, 0);
                fill_flags(&mut conn.exclusive, offset, count, false);
            },
            ShmLockMode::LockShared => {
                self.slots[offset] = self.slots[offset] + 1;
                fill_flags(&mut conn.shared, offset, count, true);
            },
            ShmLockMode::LockExclusive => {
                fill_slots(&mut self.slots, offset, count, -1);
                fill_flags(&mut conn.exclusive, offset, count, true);
            },
        }
        None
    }
}

/// What a slot becomes when a connection leaves.
pub open spec fn slot_left(s: SlotState, i: int) -> i32 {
    if s.exclusive[i] {
        0
    } else if s.shared[i] {
        (s.slots[i] - 1) as i32
    } else {
        s.slots[i]
    }
}

/// Which locks the system is to be asked to take from a slot when a connection
/// leaves, once for what it shared and once for what it held alone.
pub open spec fn slot_released(s: SlotState, i: int) -> Seq<usize> {
    let first = if s.shared[i] && s.slots[i] == 1 {
        seq![i as usize]
    } else {
        Seq::empty()
    };
    let second = if s.exclusive[i] {
        seq![i as usize]
    } else {
        Seq::empty()
    };
    first + second
}

/// The same of the first `n` slots.
pub open spec fn slots_released(s: SlotState, n: nat) -> Seq<usize>
    decreases n,
{
    if n == 0 {
        Seq::empty()
    } else {
        slots_released(s, (n - 1) as nat) + slot_released(s, n - 1)
    }
}

/// What is left to do when a connection leaves.
#[derive(Debug)]
pub struct Leaving {
    /// The slots from which the system is to take the locks.
    pub release: Vec<usize>,
    /// Whether this was the last connection.
    pub last: bool,
}

impl ShmSlots {
    /// A connection leaves, and what it held is given back.
    pub fn disconnect(&mut self, conn: &ShmConn) -> (leaving: Leaving)
        requires
            old(self).n_ref > 0,
            old(self).open ==> forall|i: int|
                0 <= i < 8 && conn.shared@[i] ==> #[trigger] old(self).slots@[i] > i32::MIN,
        ensures
            final(self).open == old(self).open,
            final(self).n_ref == old(self).n_ref - 1,
            leaving.last == (old(self).n_ref == 1),
            final(self).slots@ == if old(self).open {
                Seq::new(8, |i: int| slot_left(slot_state(*conn, *old(self)), i))
            } else {
                old(self).slots@
            },
            leaving.release@ == if old(self).open {
                slots_released(slot_state(*conn, *old(self)), 8)
            } else {
                Seq::empty()
            },
    {
        let ghost s = slot_state(*conn, *self);
        let mut release: Vec<usize> = Vec::new();
        if self.open {
            let mut i: usize = 0;
            while i < SQLITE_SHM_NLOCK
                invariant
                    i <= 8,
                    s == slot_state(*conn, *old(self)),
                    self.open == old(self).open,
                    self.n_ref == old(self).n_ref,
                    forall|j: int|
                        0 <= j < 8 && conn.shared@[j] ==> #[trigger] old(self).slots@[j] > i32::MIN,
                    forall|j: int| i <= j < 8 ==> #[trigger] self.slots@[j] == s.slots[j],
                    forall|j: int| 0 <= j < i ==> #[trigger] self.slots@[j] == slot_left(s, j),
                    release@ == slots_released(s, i as nat),
                decreases 8 - i,
            {
                let ghost had = release@;
                assert(conn.shared@[i as int] ==> old(self).slots@[i as int] > i32::MIN);
                if conn.shared[i] {
                    self.slots[i] = self.slots[i] - 1;
                    if self.slots[i] == 0 {
                        release.push(i);
                    }
                }
                if conn.exclusive[i] {
                    self.slots[i] = 0;
                    release.push(i);
                }
                assert(release@ =~= had + slot_released(s, i as int));
                i = i + 1;
            }
            assert(self.slots@ =~= Seq::new(8, |i: int| slot_left(s, i)));
        }
        self.n_ref = self.n_ref - 1;
        Leaving { release, last: self.n_ref == 0 }
    }
}

/// Who holds the byte that tells whether anyone uses the shared memory.
#[derive(Clone, Copy, Debug, PartialEq, Eq, Structural)]
pub enum Probe {
    Nobody,
    Readers,
    Writer,
}

/// Where the taking of that byte stands: what is waited for.
#[derive(Clone, Copy, Debug, PartialEq, Eq, Structural)]
pub enum DmsPhase {
    Start,
    Probing,
    Writing,
    Truncating,
    Reading,
    Over,
}

/// What happened since the last step.
#[derive(Clone, Copy, Debug, PartialEq, Eq, Structural)]
pub enum DmsEvent {
    Begin,
    /// The system told who holds the byte, if it could.
    Probed(Option<Probe>),
    /// The call was made.
    Called { ok: bool },
}

/// What to do next.
#[derive(Clone, Copy, Debug, PartialEq, Eq, Structural)]
pub enum DmsAction {
    Probe,
    LockWrite,
    /// Cut the file to three bytes: whoever comes later makes it anew.
    Truncate,
    LockRead,
    /// Done, with a code if it failed.
    Done(Option<i32>),
}

/// One step of taking the byte: the first one to come makes the file anew, and
/// everyone ends up sharing the byte.
pub open spec fn dms_step(phase: DmsPhase, readonly: bool, event: DmsEvent) -> (DmsPhase, DmsAction) {
    match (phase, event) {
        (DmsPhase::Start, DmsEvent::Begin) => (DmsPhase::Probing, DmsAction::Probe),
        (DmsPhase::Probing, DmsEvent::Probed(None)) => (
            DmsPhase::Over,
            DmsAction::Done(Some(SQLITE_IOERR_LOCK)),
        ),
        (DmsPhase::Probing, DmsEvent::Probed(Some(Probe::Writer))) => (
            DmsPhase::Over,
            DmsAction::Done(Some(SQLITE_BUSY)),
        ),
        (DmsPhase::Probing, DmsEvent::Probed(Some(Probe::Readers))) => (
            DmsPhase::Reading,
            DmsAction::LockRead,
        ),
        (DmsPhase::Probing, DmsEvent::Probed(Some(Probe::Nobody))) => if readonly {
            (DmsPhase::Over, DmsAction::Done(Some(SQLITE_READONLY_CANTINIT)))
        } else {
            (DmsPhase::Writing, DmsAction::LockWrite)
        },
        (DmsPhase::Writing, DmsEvent::Called { ok }) => if ok {
            (DmsPhase::Truncating, DmsAction::Truncate)
        } else {
            (DmsPhase::Over, DmsAction::Done(Some(SQLITE_BUSY)))
        },
        (DmsPhase::Truncating, DmsEvent::Called { ok }) => if ok {
            (DmsPhase::Reading, DmsAction::LockRead)
        } else {
            (DmsPhase::Over, DmsAction::Done(Some(SQLITE_IOERR_SHMOPEN)))
        },
        (DmsPhase::Reading, DmsEvent::Called { ok }) => if ok {
            (DmsPhase::Over, DmsAction::Done(None))
        } else {
            (DmsPhase::Over, DmsAction::Done(Some(SQLITE_BUSY)))
        },
        _ => (DmsPhase::Over, DmsAction::Done(Some(SQLITE_IOERR))),
    }
}

/// One step of taking the byte.
pub fn lock_shm_dms(phase: DmsPhase, readonly: bool, event: DmsEvent) -> (r: (DmsPhase, DmsAction))
    ensures
        r == dms_step(phase, readonly, event),
{
    match (phase, event) {
        (DmsPhase::Start, DmsEvent::Begin) => (DmsPhase::Probing, DmsAction::Probe),
        (DmsPhase::Probing, DmsEvent::Probed(probe)) => match probe {
            None => (DmsPhase::Over, DmsAction::Done(Some(SQLITE_IOERR_LOCK))),
            Some(Probe::Writer) => (DmsPhase::Over, DmsAction::Done(Some(SQLITE_BUSY))),
            Some(Probe::Readers) => (DmsPhase::Reading, DmsAction::LockRead),
            Some(Probe::Nobody) => {
                if readonly {
                    (DmsPhase::Over, DmsAction::Done(Some(SQLITE_READONLY_CANTINIT)))
                } else {
                    (DmsPhase::Writing, DmsAction::LockWrite)
                }
            },
        },
        (DmsPhase::Writing, DmsEvent::Called { ok }) => {
            if ok {
                (DmsPhase::Truncating, DmsAction::Truncate)
            } else {
                (DmsPhase::Over, DmsAction::Done(Some(SQLITE_BUSY)))
            }
        },
        (DmsPhase::Truncating, DmsEvent::Called { ok }) => {
            if ok {
                (DmsPhase::Reading, DmsAction::LockRead)
            } else {
                (DmsPhase::Over, DmsAction::Done(Some(SQLITE_IOERR_SHMOPEN)))
            }
        },
        (DmsPhase::Reading, DmsEvent::Called { ok }) => {
            if ok {
                (DmsPhase::Over, DmsAction::Done(None))
            } else {
                (DmsPhase::Over, DmsAction::Done(Some(SQLITE_BUSY)))
            }
        },
        _ => (DmsPhase::Over, DmsAction::Done(Some(SQLITE_IOERR))),
    }
}

/// The file is cut only by who holds the byte for writing, and a file that can
/// only be read is never cut.
pub proof fn only_the_first_truncates(phase: DmsPhase, readonly: bool, event: DmsEvent)
    ensures
        dms_step(phase, readonly, event).1 is Truncate ==> phase is Writing && event
            == (DmsEvent::Called { ok: true }),
        readonly ==> !(dms_step(phase, readonly, event).0 is Writing),
        dms_step(phase, readonly, event).1 is LockWrite ==> event == DmsEvent::Probed(
            Some(Probe::Nobody),
        ),
{
}

/// How a connection gets at the shared memory.
#[derive(Debug)]
pub enum JoinPlan {
    /// It is connected already.
    Attached,
    /// It cannot, with this code.
    Fail(i32),
    /// It joins the other connections of this process.
    Join,
    /// It opens the file at this path.
    Open(String),
}

/// How a connection gets at the shared memory beside the database at
/// `db_path`.
pub fn open_or_join_shm(attached: bool, db_path: &Option<String>, shared: bool) -> (plan: JoinPlan)
    ensures
        attached ==> plan is Attached,
        !attached ==> match *db_path {
            None => plan == JoinPlan::Fail(SQLITE_IOERR),
            Some(path) => if shared {
                plan is Join
            } else {
                plan is Open && plan->Open_0@ == path@ + "-shm"@
            },
        },
{
    if attached {
        return JoinPlan::Attached;
    }
    match db_path {
        None => JoinPlan::Fail(SQLITE_IOERR),
        Some(path) => {
            if shared {
                return JoinPlan::Join;
            }
            let mut shm_path = path.clone();
            shm_path.append("-shm");
            JoinPlan::Open(shm_path)
        },
    }
}

/// How far the opening of the file has come.
#[derive(Clone, Copy, Debug, PartialEq, Eq, Structural)]
pub enum ShmOpenPhase {
    Start,
    /// Waiting for the file to be opened for writing.
    Writing,
    /// Waiting for the file to be opened for reading.
    Reading,
    Over,
}

/// What happened to the file.
#[derive(Clone, Copy, Debug, PartialEq, Eq, Structural)]
pub enum ShmOpenEvent {
    Begin,
    /// It was opened. Whether the system has a descriptor for it is another
    /// matter.
    Opened { descriptor: bool },
    Failed(FileErrorKind),
}

/// What to do with the file next.
#[derive(Clone, Copy, Debug, PartialEq, Eq, Structural)]
pub enum ShmOpenAction {
    /// Open it for reading and writing, and make it if it is not there.
    OpenWrite,
    /// Open it for reading only.
    OpenRead,
    /// Use it.
    Done { readonly: bool },
    /// Fail with this code.
    Fail(i32),
    /// Nothing: the event does not fit.
    Ignore,
}

/// What follows from an open file.
pub open spec fn shm_opened(descriptor: bool, readonly: bool) -> ShmOpenAction {
    if descriptor {
        ShmOpenAction::Done { readonly }
    } else {
        ShmOpenAction::Fail(SQLITE_CANTOPEN)
    }
}

/// One step of opening the file: for writing first, and for reading where that
/// fails, for whatever reason.
pub open spec fn shm_open_step(phase: ShmOpenPhase, event: ShmOpenEvent) -> (
    ShmOpenPhase,
    ShmOpenAction,
) {
    match (phase, event) {
        (ShmOpenPhase::Start, ShmOpenEvent::Begin) => (
            ShmOpenPhase::Writing,
            ShmOpenAction::OpenWrite,
        ),
        (ShmOpenPhase::Writing, ShmOpenEvent::Opened { descriptor }) => (
            ShmOpenPhase::Over,
            shm_opened(descriptor, false),
        ),
        (ShmOpenPhase::Writing, ShmOpenEvent::Failed(_)) => (
            ShmOpenPhase::Reading,
            ShmOpenAction::OpenRead,
        ),
        (ShmOpenPhase::Reading, ShmOpenEvent::Opened { descriptor }) => (
            ShmOpenPhase::Over,
            shm_opened(descriptor, true),
        ),
        (ShmOpenPhase::Reading, ShmOpenEvent::Failed(kind)) => (
            ShmOpenPhase::Over,
            ShmOpenAction::Fail(vfs_code(kind, SQLITE_CANTOPEN, SQLITE_IOERR_SHMOPEN)),
        ),
        _ => (phase, ShmOpenAction::Ignore),
    }
}

/// Takes what happened to the file, and says what to do next.
pub fn open_shm(phase: ShmOpenPhase, event: ShmOpenEvent) -> (r: (ShmOpenPhase, ShmOpenAction))
    ensures
        r == shm_open_step(phase, event),
{
    match (phase, event) {
        (ShmOpenPhase::Start, ShmOpenEvent::Begin) => (
            ShmOpenPhase::Writing,
            ShmOpenAction::OpenWrite,
        ),
        (ShmOpenPhase::Writing, ShmOpenEvent::Failed(_)) => (
            ShmOpenPhase::Reading,
            ShmOpenAction::OpenRead,
        ),
        (ShmOpenPhase::Writing, ShmOpenEvent::Opened { descriptor }) => {
            if descriptor {
                (ShmOpenPhase::Over, ShmOpenAction::Done { readonly: false })
            } else {
                (ShmOpenPhase::Over, ShmOpenAction::Fail(SQLITE_CANTOPEN))
            }
        },
        (ShmOpenPhase::Reading, ShmOpenEvent::Opened { descriptor }) => {
            if descriptor {
                (ShmOpenPhase::Over, ShmOpenAction::Done { readonly: true })
            } else {
                (ShmOpenPhase::Over, ShmOpenAction::Fail(SQLITE_CANTOPEN))
            }
        },
        (ShmOpenPhase::Reading, ShmOpenEvent::Failed(kind)) => {
            let code: i32 = map_vfs_err(kind, SQLITE_CANTOPEN, SQLITE_IOERR_SHMOPEN);
            (ShmOpenPhase::Over, ShmOpenAction::Fail(code))
        },
        _ => (phase, ShmOpenAction::Ignore),
    }
}

/// The file is used for reading only just where it could not be opened for
/// writing.
pub proof fn writing_is_tried_first(first: ShmOpenEvent, second: ShmOpenEvent)
    requires
        !(first is Begin),
    ensures
        ({
            let (p1, a1) = shm_open_step(ShmOpenPhase::Start, ShmOpenEvent::Begin);
            let (p2, a2) = shm_open_step(p1, first);
            let (p3, a3) = shm_open_step(p2, second);
            &&& a1 is OpenWrite
            &&& a2 is OpenRead <==> first is Failed
            &&& a2 == (ShmOpenAction::Done { readonly: false }) <==> first == (
            ShmOpenEvent::Opened { descriptor: true })
            &&& a3 == (ShmOpenAction::Done { readonly: true }) <==> first is Failed && second == (
            ShmOpenEvent::Opened { descriptor: true })
        }),
{
}

/// Whether the byte has still to be taken later, after the first try to take
/// it: a file that can only be read and that nobody made yet may be opened.
pub fn deferred(code: Option<i32>) -> (r: Result<bool, i32>)
    ensures
        r == match code {
            None => Ok::<bool, i32>(false),
            Some(e) => if e == SQLITE_READONLY_CANTINIT {
                Ok(true)
            } else {
                Err(e)
            },
        },
{
    match code {
        None => Ok(false),
        Some(e) => {
            if e == SQLITE_READONLY_CANTINIT {
                Ok(true)
            } else {
                Err(e)
            }
        },
    }
}

/// Whether the file is to be removed when a connection leaves: if that was
/// asked for, and no other connection is left.
pub fn remove_shm(delete: bool, n_ref: usize) -> (r: bool)
    ensures
        r == (delete && n_ref == 1),
{
    delete && n_ref == 1
}

} // verus!
