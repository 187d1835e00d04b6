//! What opening the files behind a database comes to.

use vstd::prelude::*;
use crate::sqlite::vfs::file::{
    hex, hex_digit, named_flags, temporary_flags, temporary_path, vfs_code, CreateMode,
    FileErrorKind, OpenFlags, OpenMode,
};
use crate::sqlite::vfs::shm::{dms_step, DmsAction, DmsEvent, DmsPhase, Probe};

verus! {

broadcast use vstd::string::group_string_axioms;

/// Every file can be read; only one that is opened for writing is written, and
/// it is made only where that was asked for. One that has to be new is never
/// one that was there, and temporary files are always new.
pub proof fn files_are_opened_as_asked(mode: OpenMode, flags: OpenFlags)
    ensures
        named_flags(mode) == flags <==> {
            &&& flags.read
            &&& flags.write <==> mode is ReadWrite
            &&& flags.create_new <==> mode
                == (OpenMode::ReadWrite { create: CreateMode::MustCreate })
            &&& flags.create <==> mode is ReadWrite && mode != (OpenMode::ReadWrite {
                create: CreateMode::Existing,
            })
        },
        temporary_flags().read && temporary_flags().write && temporary_flags().create_new,
{
}

/// The number that a hexadecimal digit stands for.
pub open spec fn hex_value(c: char) -> int {
    if '0' <= c <= '9' {
        c as int - '0' as int
    } else if 'a' <= c <= 'f' {
        10 + (c as int - 'a' as int)
    } else {
        -1
    }
}

/// A temporary file is called after its random bytes: two digits each, the
/// higher one first.
pub proof fn temporary_files_are_named_in_hexadecimal(bytes: Seq<u8>, i: int)
    requires
        0 <= i < bytes.len(),
    ensures
        hex(bytes).len() == 2 * bytes.len(),
        hex_value(hex(bytes)[2 * i]) * 16 + hex_value(hex(bytes)[2 * i + 1]) == bytes[i],
        0 <= hex_value(hex(bytes)[2 * i]) < 16,
        0 <= hex_value(hex(bytes)[2 * i + 1]) < 16,
        temporary_path(bytes) == "/tmp/etilqs_"@ + hex(bytes),
    decreases bytes.len(),
{
    let init = bytes.drop_last();
    lemma_hex_len(bytes);
    lemma_hex_len(init);
    if i < init.len() {
        temporary_files_are_named_in_hexadecimal(init, i);
        assert(hex(bytes)[2 * i] == hex(init)[2 * i]);
        assert(hex(bytes)[2 * i + 1] == hex(init)[2 * i + 1]);
    } else {
        let b = bytes.last() as int;
        lemma_digit(b / 16);
        lemma_digit(b % 16);
        assert(hex(bytes)[2 * i] == hex_digit(b / 16));
        assert(hex(bytes)[2 * i + 1] == hex_digit(b % 16));
    }
}

proof fn lemma_hex_len(bytes: Seq<u8>)
    ensures
        hex(bytes).len() == 2 * bytes.len(),
    decreases bytes.len(),
{
    if bytes.len() > 0 {
        lemma_hex_len(bytes.drop_last());
    }
}

proof fn lemma_digit(n: int)
    requires
        0 <= n < 16,
    ensures
        hex_value(hex_digit(n)) == n,
{
}

/// A file that may not be opened, or is there already, cannot be opened, one
/// that is missing is reported as its caller wants, and so is all the rest.
pub proof fn failures_have_their_code(kind: FileErrorKind, missing: i32, rest: i32)
    ensures
        kind is NotFound ==> vfs_code(kind, missing, rest) == missing,
        kind is Other ==> vfs_code(kind, missing, rest) == rest,
        kind is PermissionDenied || kind is AlreadyExists ==> vfs_code(kind, missing, rest) == 14,
{
}

/// What is done for the shared memory after some events, the last action last.
pub open spec fn dms_run(readonly: bool, events: Seq<DmsEvent>) -> (DmsPhase, Seq<DmsAction>)
    decreases events.len(),
{
    if events.len() == 0 {
        (DmsPhase::Start, Seq::empty())
    } else {
        let (phase, actions) = dms_run(readonly, events.drop_last());
        let (next, action) = dms_step(phase, readonly, events.last());
        (next, actions.push(action))
    }
}

proof fn lemma_dms_run(readonly: bool, events: Seq<DmsEvent>, event: DmsEvent)
    ensures
        ({
            let (phase, actions) = dms_run(readonly, events);
            let (next, action) = dms_step(phase, readonly, event);
            dms_run(readonly, events.push(event)) == (next, actions.push(action))
        }),
{
    assert(events.push(event).drop_last() =~= events);
}

/// Who finds nobody at the shared memory makes it anew while nobody else can
/// get in, and then shares it; who finds others shares it as it is; and who
/// finds someone making it, or cannot tell, stays out.
pub proof fn shared_memory_is_made_by_the_first(readonly: bool, shared: bool)
    ensures
        ({
            let begin = DmsEvent::Begin;
            let nobody = DmsEvent::Probed(Some(Probe::Nobody));
            let readers = DmsEvent::Probed(Some(Probe::Readers));
            let writer = DmsEvent::Probed(Some(Probe::Writer));
            let ok = DmsEvent::Called { ok: true };
            let last = DmsEvent::Called { ok: shared };
            let end = DmsAction::Done(if shared { None } else { Some(5i32) });
            &&& !readonly ==> dms_run(readonly, seq![begin, nobody, ok, ok, last]).1 == seq![
                DmsAction::Probe,
                DmsAction::LockWrite,
                DmsAction::Truncate,
                DmsAction::LockRead,
                end,
            ]
            &&& readonly ==> dms_run(readonly, seq![begin, nobody]).1 == seq![
                DmsAction::Probe,
                DmsAction::Done(Some(1288i32)),
            ]
            &&& dms_run(readonly, seq![begin, readers, last]).1 == seq![
                DmsAction::Probe,
                DmsAction::LockRead,
                end,
            ]
            &&& dms_run(readonly, seq![begin, writer]).1 == seq![
                DmsAction::Probe,
                DmsAction::Done(Some(5i32)),
            ]
            &&& dms_run(readonly, seq![begin, DmsEvent::Probed(None)]).1 == seq![
                DmsAction::Probe,
                DmsAction::Done(Some(3850i32)),
            ]
        }),
{
    let begin = DmsEvent::Begin;
    let nobody = DmsEvent::Probed(Some(Probe::Nobody));
    let readers = DmsEvent::Probed(Some(Probe::Readers));
    let writer = DmsEvent::Probed(Some(Probe::Writer));
    let ok = DmsEvent::Called { ok: true };
    let last = DmsEvent::Called { ok: shared };
    let none = Seq::<DmsEvent>::empty();
    let one = seq![begin];
    lemma_dms_run(readonly, none, begin);
    assert(none.push(begin) =~= one);
    lemma_dms_run(readonly, one, nobody);
    assert(one.push(nobody) =~= seq![begin, nobody]);
    lemma_dms_run(readonly, one, readers);
    assert(one.push(readers) =~= seq![begin, readers]);
    lemma_dms_run(readonly, one, writer);
    assert(one.push(writer) =~= seq![begin, writer]);
    lemma_dms_run(readonly, one, DmsEvent::Probed(None));
    assert(one.push(DmsEvent::Probed(None)) =~= seq![begin, DmsEvent::Probed(None)]);
    lemma_dms_run(readonly, seq![begin, readers], last);
    assert(seq![begin, readers].push(last) =~= seq![begin, readers, last]);
    lemma_dms_run(readonly, seq![begin, nobody], ok);
    assert(seq![begin, nobody].push(ok) =~= seq![begin, nobody, ok]);
    lemma_dms_run(readonly, seq![begin, nobody, ok], ok);
    assert(seq![begin, nobody, ok].push(ok) =~= seq![begin, nobody, ok, ok]);
    lemma_dms_run(readonly, seq![begin, nobody, ok, ok], last);
    assert(seq![begin, nobody, ok, ok].push(last) =~= seq![begin, nobody, ok, ok, last]);
    let end = DmsAction::Done(if shared {
        None
    } else {
        Some(5i32)
    });
    if !readonly {
        assert(dms_run(readonly, seq![begin, nobody, ok, ok, last]).1 =~= seq![
            DmsAction::Probe,
            DmsAction::LockWrite,
            DmsAction::Truncate,
            DmsAction::LockRead,
            end,
        ]);
    } else {
        assert(dms_run(readonly, seq![begin, nobody]).1 =~= seq![
            DmsAction::Probe,
            DmsAction::Done(Some(1288i32)),
        ]);
    }
    assert(dms_run(readonly, seq![begin, readers, last]).1 =~= seq![
        DmsAction::Probe,
        DmsAction::LockRead,
        end,
    ]);
    assert(dms_run(readonly, seq![begin, writer]).1 =~= seq![
        DmsAction::Probe,
        DmsAction::Done(Some(5i32)),
    ]);
    assert(dms_run(readonly, seq![begin, DmsEvent::Probed(None)]).1 =~= seq![
        DmsAction::Probe,
        DmsAction::Done(Some(3850i32)),
    ]);
}

} // verus!
