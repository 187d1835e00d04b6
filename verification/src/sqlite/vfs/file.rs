//! How the files behind a database are opened.

use vstd::prelude::*;
use crate::sqlite::vfs::codes::SQLITE_CANTOPEN;

verus! {

broadcast use vstd::string::group_string_axioms;

/// The file system that databases inside a shell's environment live in.
#[derive(Clone, Copy, Debug)]
pub struct ShellVfs;

/// Whether a file is made when it is opened.
#[derive(Clone, Copy, Debug, PartialEq, Eq, Structural)]
pub enum CreateMode {
    Existing,
    Create,
    MustCreate,
}

#[derive(Clone, Copy, Debug, PartialEq, Eq, Structural)]
pub enum OpenMode {
    ReadOnly,
    ReadWrite { create: CreateMode },
}

/// How a file is to be opened.
#[derive(Clone, Copy, Debug, PartialEq, Eq, Structural)]
pub struct OpenOpts {
    pub mode: OpenMode,
    pub delete_on_close: bool,
}

/// What to ask the system for when a file is opened.
#[derive(Clone, Copy, Debug, PartialEq, Eq, Structural)]
pub struct OpenFlags {
    pub read: bool,
    pub write: bool,
    pub create: bool,
    pub create_new: bool,
}

/// What to ask the system for when a named file is opened.
pub open spec fn named_flags(mode: OpenMode) -> OpenFlags {
    match mode {
        OpenMode::ReadOnly => OpenFlags {
            read: true,
            write: false,
            create: false,
            create_new: false,
        },
        OpenMode::ReadWrite { create } => OpenFlags {
            read: true,
            write: true,
            create: create is Create || create is MustCreate,
            create_new: create is MustCreate,
        },
    }
}

/// What to ask the system for when a temporary file is opened.
pub open spec fn temporary_flags() -> OpenFlags {
    OpenFlags { read: true, write: true, create: false, create_new: true }
}

/// A file about to be opened.
#[derive(Debug)]
pub struct OpenPlan {
    pub path: String,
    pub flags: OpenFlags,
    /// Whether the database is told that it can only read.
    pub readonly: bool,
    /// Whether the file is removed when it is closed.
    pub remove: bool,
    /// Whether shared memory can go beside the file.
    pub named: bool,
}

/// The hexadecimal digit of a number below sixteen.
pub open spec fn hex_digit(n: int) -> char {
    if n < 10 {
        (0x30 + n) as u8 as char
    } else {
        (0x57 + n) as u8 as char
    }
}

/// Bytes in hexadecimal, two digits each.
pub open spec fn hex(bytes: Seq<u8>) -> Seq<char>
    decreases bytes.len(),
{
    if bytes.len() == 0 {
        Seq::empty()
    } else {
        hex(bytes.drop_last()) + seq![
            hex_digit(bytes.last() as int / 16),
            hex_digit(bytes.last() as int % 16),
        ]
    }
}

/// The path of a temporary file with the random name `bytes`.
pub open spec fn temporary_path(bytes: Seq<u8>) -> Seq<char> {
    "/tmp/etilqs_"@ + hex(bytes)
}

/// The hexadecimal digit of a number below sixteen.
fn hex_char(n: u8) -> (c: char)
    requires
        n < 16,
    ensures
        c == hex_digit(n as int),
{
    if n < 10 {
        (0x30 + n) as char
    } else {
        (0x57 + n) as char
    }
}

/// The path of a temporary file with the random name `bytes`.
pub fn gen_temp_path(bytes: &Vec<u8>) -> (path: String)
    ensures
        path@ == temporary_path(bytes@),
{
    let mut path = "/tmp/etilqs_".to_owned();
    let mut i: usize = 0;
    assert(bytes@.take(0) =~= Seq::<u8>::empty());
    assert(path@ =~= temporary_path(bytes@.take(0)));
    while i < bytes.len()
        invariant
            i <= bytes@.len(),
            path@ == temporary_path(bytes@.take(i as int)),
        decreases bytes@.len() - i,
    {
        let b: u8 = bytes[i];
        let ghost before = path@;
        path.push(hex_char(b / 16));
        path.push(hex_char(b % 16));
        proof {
            let next = bytes@.take(i + 1);
            assert(next.drop_last() =~= bytes@.take(i as int));
            assert(next.last() == b);
            assert(path@ =~= temporary_path(next));
        }
        i = i + 1;
    }
    assert(bytes@.take(i as int) =~= bytes@);
    path
}

proof fn lemma_hex_digit(a: int, b: int)
    requires
        0 <= a < 16,
        0 <= b < 16,
        hex_digit(a) == hex_digit(b),
    ensures
        a == b,
{
    assert(hex_digit(a) as u32 == if a < 10 {
        0x30 + a
    } else {
        0x57 + a
    });
    assert(hex_digit(b) as u32 == if b < 10 {
        0x30 + b
    } else {
        0x57 + b
    });
}

/// Different random names give different hexadecimal digits.
proof fn lemma_hex_injective(a: Seq<u8>, b: Seq<u8>)
    requires
        hex(a) == hex(b),
    ensures
        a == b,
    decreases a.len(),
{
    lemma_hex_len(a);
    lemma_hex_len(b);
    if a.len() > 0 {
        let x = hex(a);
        let y = hex(b);
        let n = x.len();
        assert(x.take(n - 2) =~= hex(a.drop_last()));
        assert(y.take(n - 2) =~= hex(b.drop_last()));
        lemma_hex_injective(a.drop_last(), b.drop_last());
        assert(x[n - 2] == hex_digit(a.last() as int / 16));
        assert(y[n - 2] == hex_digit(b.last() as int / 16));
        assert(x[n - 1] == hex_digit(a.last() as int % 16));
        assert(y[n - 1] == hex_digit(b.last() as int % 16));
        lemma_hex_digit(a.last() as int / 16, b.last() as int / 16);
        lemma_hex_digit(a.last() as int % 16, b.last() as int % 16);
        assert(a.last() == b.last());
        assert(a =~= a.drop_last().push(a.last()));
        assert(b =~= b.drop_last().push(b.last()));
    } else {
        assert(a =~= b);
    }
}

proof fn lemma_hex_len(bytes: Seq<u8>)
    ensures
        hex(bytes).len() == 2 * bytes.len(),
    decreases bytes.len(),
{
    if bytes.len() > 0 {
        lemma_hex_len(bytes.drop_last());
    }
}

/// Temporary files with different random names have different paths.
pub proof fn temporary_paths_differ(a: Seq<u8>, b: Seq<u8>)
    requires
        a != b,
    ensures
        temporary_path(a) != temporary_path(b),
{
    if temporary_path(a) == temporary_path(b) {
        let n = "/tmp/etilqs_"@.len() as int;
        assert(temporary_path(a).skip(n) =~= hex(a));
        assert(temporary_path(b).skip(n) =~= hex(b));
        lemma_hex_injective(a, b);
    }
}

/// What the database wants to know of a file.
#[derive(Clone, Copy, Debug, PartialEq, Eq, Structural)]
pub enum AccessFlags {
    Exists,
    Read,
    ReadWrite,
}

/// The rights to ask the system about; with neither, whether there is a file.
#[derive(Clone, Copy, Debug, PartialEq, Eq, Structural)]
pub struct AccessRights {
    pub read: bool,
    pub write: bool,
}

/// The size of a sector if the system does not say.
pub const DEFAULT_SECTOR_SIZE: i32 = 4096;

pub const SQLITE_IOCAP_POWERSAFE_OVERWRITE: i32 = 0x1000;

pub const SQLITE_IOCAP_BATCH_ATOMIC: i32 = 0x4000;

pub const SQLITE_IOCAP_SUBPAGE_READ: i32 = 0x8000;

/// The bit by which a file system says that it writes atomically.
pub const F2FS_FEATURE_ATOMIC_WRITE: u32 = 0x0004;

impl ShellVfs {
    /// What to do to open a file. One without a path is temporary; `random`
    /// names it.
    pub fn open(&self, path: &Option<String>, opts: OpenOpts, random: &Vec<u8>) -> (plan: OpenPlan)
        ensures
            plan.readonly == (opts.mode is ReadOnly),
            match *path {
                Some(p) => {
                    &&& plan.path@ == p@
                    &&& plan.flags == named_flags(opts.mode)
                    &&& plan.remove == opts.delete_on_close
                    &&& plan.named
                },
                None => {
                    &&& plan.path@ == temporary_path(random@)
                    &&& plan.flags == temporary_flags()
                    &&& plan.remove
                    &&& !plan.named
                },
            },
    {
        let readonly = match opts.mode {
            OpenMode::ReadOnly => true,
            OpenMode::ReadWrite { .. } => false,
        };
        match path {
            Some(p) => {
                let mut flags = OpenFlags {
                    read: true,
                    write: false,
                    create: false,
                    create_new: false,
                };
                if let OpenMode::ReadWrite { create } = opts.mode {
                    flags.write = true;
                    match create {
                        CreateMode::Existing => {},
                        CreateMode::Create => {
                            flags.create = true;
                        },
                        CreateMode::MustCreate => {
                            flags.create = true;
                            flags.create_new = true;
                        },
                    }
                }
                OpenPlan {
                    path: p.clone(),
                    flags,
                    readonly,
                    remove: opts.delete_on_close,
                    named: true,
                }
            },
            None => OpenPlan {
                path: gen_temp_path(random),
                flags: OpenFlags { read: true, write: true, create: false, create_new: true },
                readonly,
                remove: true,
                named: false,
            },
        }
    }

    /// The rights to ask the system about.
    pub fn access(&self, flags: AccessFlags) -> (rights: AccessRights)
        ensures
            rights.read == !(flags is Exists),
            rights.write == (flags is ReadWrite),
    {
        match flags {
            AccessFlags::Exists => AccessRights { read: false, write: false },
            AccessFlags::Read => AccessRights { read: true, write: false },
            AccessFlags::ReadWrite => AccessRights { read: true, write: true },
        }
    }

    /// A path stands for itself.
    pub fn canonical_path(&self, path: String) -> (r: String)
        ensures
            r == path,
    {
        path
    }

    /// The size of a sector, from the block size that the system says.
    pub fn sector_size(&self, block_size: Option<i64>) -> (n: i32)
        ensures
            n == match block_size {
                None => DEFAULT_SECTOR_SIZE,
                Some(b) => if b < 512 {
                    512
                } else if b > i32::MAX {
                    i32::MAX
                } else {
                    b as i32
                },
            },
    {
        match block_size {
            None => DEFAULT_SECTOR_SIZE,
            Some(b) => {
                if b < 512 {
                    512
                } else if b > i32::MAX as i64 {
                    i32::MAX
                } else {
                    b as i32
                }
            },
        }
    }

    /// What the database may count on, from the features that the file system
    /// says it has.
    pub fn device_characteristics(&self, features: Option<u32>) -> (flags: i32)
        ensures
            flags == SQLITE_IOCAP_POWERSAFE_OVERWRITE + SQLITE_IOCAP_SUBPAGE_READ + if features matches Some(
                f,
            ) && f & F2FS_FEATURE_ATOMIC_WRITE != 0 {
                SQLITE_IOCAP_BATCH_ATOMIC as int
            } else {
                0int
            },
    {
        let mut flags: i32 = SQLITE_IOCAP_POWERSAFE_OVERWRITE + SQLITE_IOCAP_SUBPAGE_READ;
        if let Some(f) = features {
            if f & F2FS_FEATURE_ATOMIC_WRITE != 0 {
                flags = flags + SQLITE_IOCAP_BATCH_ATOMIC;
            }
        }
        flags
    }
}

/// Why a file operation failed, as far as it matters.
#[derive(Clone, Copy, Debug, PartialEq, Eq, Structural)]
pub enum FileErrorKind {
    NotFound,
    PermissionDenied,
    AlreadyExists,
    Other,
}

/// The code for a file operation that failed.
pub open spec fn vfs_code(kind: FileErrorKind, not_found_code: i32, default_code: i32) -> i32 {
    match kind {
        FileErrorKind::NotFound => not_found_code,
        FileErrorKind::PermissionDenied => SQLITE_CANTOPEN,
        FileErrorKind::AlreadyExists => SQLITE_CANTOPEN,
        FileErrorKind::Other => default_code,
    }
}

/// The code for a file operation that failed.
pub fn map_vfs_err(kind: FileErrorKind, not_found_code: i32, default_code: i32) -> (code: i32)
    ensures
        code == vfs_code(kind, not_found_code, default_code),
{
    match kind {
        FileErrorKind::NotFound => not_found_code,
        FileErrorKind::PermissionDenied | FileErrorKind::AlreadyExists => SQLITE_CANTOPEN,
        FileErrorKind::Other => default_code,
    }
}

} // verus!
