//! The header block in front of every archive entry.

use vstd::prelude::*;
use vstd::utf8::encode_utf8;
use tokio_tar::Header;

verus! {

broadcast use vstd::string::group_string_axioms;

/// The type of an archive entry.
#[derive(Clone, Copy, Debug, PartialEq, Eq, Structural)]
pub enum EntryType {
    Regular,
    Link,
    Symlink,
    Char,
    Block,
    Directory,
    Fifo,
    Continuous,
    Other,
}

/// The byte that stands for an entry type; types of no interest here have
/// others.
pub open spec fn type_byte(ty: EntryType) -> u8 {
    match ty {
        EntryType::Regular => 48,
        EntryType::Link => 49,
        EntryType::Symlink => 50,
        EntryType::Char => 51,
        EntryType::Block => 52,
        EntryType::Directory => 53,
        EntryType::Fifo => 54,
        EntryType::Continuous => 55,
        EntryType::Other => 63,
    }
}

/// The entry type that a byte stands for. Old archives mark regular files
/// with a nul byte.
pub open spec fn byte_type(b: u8) -> EntryType {
    if b == 0 || b == 48 {
        EntryType::Regular
    } else if b == 49 {
        EntryType::Link
    } else if b == 50 {
        EntryType::Symlink
    } else if b == 51 {
        EntryType::Char
    } else if b == 52 {
        EntryType::Block
    } else if b == 53 {
        EntryType::Directory
    } else if b == 54 {
        EntryType::Fifo
    } else if b == 55 {
        EntryType::Continuous
    } else {
        EntryType::Other
    }
}

/// Eight to the power of `n`.
pub open spec fn eight_to(n: nat) -> nat
    decreases n,
{
    if n == 0 {
        1
    } else {
        8 * eight_to((n - 1) as nat)
    }
}

/// The lowest `count` octal digits of `n`.
pub open spec fn octal_digits(n: nat, count: nat) -> Seq<u8>
    decreases count,
{
    if count == 0 {
        Seq::empty()
    } else {
        octal_digits(n / 8, (count - 1) as nat).push((48 + n % 8) as u8)
    }
}

/// The number that octal digits write.
pub open spec fn octal_value(digits: Seq<u8>) -> nat
    decreases digits.len(),
{
    if digits.len() == 0 {
        0
    } else {
        (8 * octal_value(digits.drop_last()) + (digits.last() - 48)) as nat
    }
}

/// `n` in octal digits that fill a field of `width` bytes but for a final
/// nul.
pub open spec fn octal_field(width: nat, n: nat) -> Seq<u8> {
    octal_digits(n, (width - 1) as nat).push(0)
}

/// Whether a field holds octal digits and a final nul.
pub open spec fn is_octal_field(field: Seq<u8>) -> bool {
    &&& field.len() > 1
    &&& field.last() == 0
    &&& forall|i: int| 0 <= i < field.len() - 1 ==> 48 <= #[trigger] field[i] <= 55
}

/// Two hundred and fifty-six to the power of `n`.
pub open spec fn byte_to(n: nat) -> nat
    decreases n,
{
    if n == 0 {
        1
    } else {
        256 * byte_to((n - 1) as nat)
    }
}

/// The lowest `count` bytes of `n`, the highest of them first.
pub open spec fn low_bytes(n: nat, count: nat) -> Seq<u8>
    decreases count,
{
    if count == 0 {
        Seq::empty()
    } else {
        low_bytes(n / 256, (count - 1) as nat).push((n % 256) as u8)
    }
}

/// The number that bytes write, the highest of them first.
pub open spec fn bytes_value(bytes: Seq<u8>) -> nat
    decreases bytes.len(),
{
    if bytes.len() == 0 {
        0
    } else {
        256 * bytes_value(bytes.drop_last()) + bytes.last() as nat
    }
}

/// A byte with its highest bit set.
pub open spec fn marked(b: u8) -> u8 {
    if b < 128 {
        (b + 128) as u8
    } else {
        b
    }
}

/// `n` in binary with the highest bit of the field set: what a field of
/// `width` bytes holds for a number that octal digits cannot write there.
pub open spec fn binary_field(width: nat, n: nat) -> Seq<u8> {
    let bytes = low_bytes(n, width);
    bytes.update(0, marked(bytes[0]))
}

/// Whether octal digits can write `n` in a field of `width` bytes.
pub open spec fn fits_octal(width: nat, n: nat) -> bool {
    n < 8_589_934_592 && (width == 8 ==> n < 2_097_152)
}

/// What a numeric field of `width` bytes holds.
pub open spec fn number_field(width: nat, n: u64) -> Seq<u8> {
    if fits_octal(width, n as nat) {
        octal_field(width, n as nat)
    } else {
        binary_field(width, n as nat)
    }
}

/// `header` with `field` in the place from `at` on.
pub open spec fn replaced(header: Seq<u8>, at: int, field: Seq<u8>) -> Seq<u8> {
    header.take(at) + field + header.skip((at + field.len()) as int)
}

/// The bytes from `at` on.
pub open spec fn field_at(header: Seq<u8>, at: int, width: int) -> Seq<u8> {
    header.subrange(at, at + width)
}

/// The mark of the GNU format.
pub open spec fn gnu_mark() -> Seq<u8> {
    seq![117, 115, 116, 97, 114, 32, 32, 0]
}

/// The mark of the ustar format.
pub open spec fn ustar_mark() -> Seq<u8> {
    seq![117, 115, 116, 97, 114, 0, 48, 48]
}

/// Whether a header block is in a format that names the owner.
pub open spec fn names_owner(header: Seq<u8>) -> bool {
    field_at(header, 257, 8) == gnu_mark() || field_at(header, 257, 8) == ustar_mark()
}

/// The bytes before the first nul.
pub open spec fn up_to_nul(bytes: Seq<u8>) -> Seq<u8>
    decreases bytes.len(),
{
    if bytes.len() == 0 || bytes[0] == 0 {
        Seq::empty()
    } else {
        seq![bytes[0]] + up_to_nul(bytes.skip(1))
    }
}

/// The name in a field for names.
pub open spec fn name_at(header: Seq<u8>, at: int) -> Option<Seq<u8>> {
    if names_owner(header) {
        Some(up_to_nul(field_at(header, at, 32)))
    } else {
        None
    }
}

/// Whether the bytes are a header block in GNU format.
pub open spec fn is_gnu(header: Seq<u8>) -> bool {
    header.len() == 512 && field_at(header, 257, 8) == gnu_mark()
}

/// A name in a field of its own: its bytes, and a nul where there is room.
pub open spec fn name_field(name: Seq<char>, width: nat) -> Seq<u8> {
    let bytes = encode_utf8(name);
    if bytes.len() < width {
        bytes.push(0)
    } else {
        bytes
    }
}

/// Whether a name can be written into a field.
pub open spec fn fits_name(name: Seq<char>, width: nat) -> bool {
    encode_utf8(name).len() <= width && !encode_utf8(name).contains(0)
}

/// A header with a user name, or why it cannot have it.
pub uninterp spec fn with_username(header: Seq<u8>, name: Seq<char>) -> Result<Seq<u8>, Seq<char>>;

/// A header with a group name, or why it cannot have it.
pub uninterp spec fn with_groupname(header: Seq<u8>, name: Seq<char>) -> Result<Seq<u8>, Seq<char>>;

/// Whether a path has the same parts wherever paths are taken apart: it has
/// nothing that looks like the name of a drive or of another machine, and no
/// backslash.
pub open spec fn portable(path: Seq<char>) -> bool {
    &&& !path.contains('\\')
    &&& !(path.len() >= 2 && path[0] == '/' && path[1] == '/')
    &&& !(path.len() >= 2 && path[1] == ':')
}

/// Whether a path has no parts that can be left out: no empty ones, and no
/// dot by itself but at the beginning.
pub open spec fn tidy(path: Seq<char>) -> bool {
    &&& portable(path)
    &&& path.len() > 0
    &&& path != seq!['/']
    &&& !encode_utf8(path).contains(0)
    &&& forall|i: int|
        #![trigger path[i]]
        0 <= i < path.len() - 1 && path[i] == '/' ==> path[i + 1] != '/' && (path[i + 1] == '.' ==> i
            + 2 < path.len() && path[i + 2] != '/')
}

/// A header with a link name, or why it cannot have it, for portable paths.
pub uninterp spec fn with_link_name(header: Seq<u8>, path: Seq<char>) -> Result<Seq<u8>, Seq<char>>;

/// The size that a header gives, or why it gives none.
pub uninterp spec fn size_of_header(header: Seq<u8>) -> Result<u64, Seq<char>>;

/// The mode bits that a header gives, or why it gives none.
pub uninterp spec fn mode_of_header(header: Seq<u8>) -> Result<u32, Seq<char>>;

/// The user number that a header gives, or why it gives none.
pub uninterp spec fn uid_of_header(header: Seq<u8>) -> Result<u64, Seq<char>>;

/// The group number that a header gives, or why it gives none.
pub uninterp spec fn gid_of_header(header: Seq<u8>) -> Result<u64, Seq<char>>;

/// The modification time that a header gives, or why it gives none.
pub uninterp spec fn mtime_of_header(header: Seq<u8>) -> Result<u64, Seq<char>>;

/// The major device number that a header gives, if its format has one, or why
/// it gives none.
pub uninterp spec fn device_major_of_header(header: Seq<u8>) -> Result<Option<u32>, Seq<char>>;

/// The minor device number that a header gives, if its format has one, or why
/// it gives none.
pub uninterp spec fn device_minor_of_header(header: Seq<u8>) -> Result<Option<u32>, Seq<char>>;

/// What may come of writing a link name: a path is written as it stands if it
/// is tidy and fits. Nothing but the field changes.
pub open spec fn linked(header: Seq<u8>, path: Seq<char>, r: Result<Seq<u8>, Seq<char>>) -> bool {
    &&& portable(path) ==> r == with_link_name(header, path)
    &&& tidy(path) ==> (r is Ok <==> fits_name(path, 100))
    &&& r matches Ok(h) ==> {
        &&& tidy(path) ==> h == replaced(header, 157, name_field(path, 100))
        &&& h.len() == 512
        &&& h.take(157) == header.take(157)
        &&& h.skip(257) == header.skip(257)
    }
}

/// A result whose parts are seen by their content.
pub open spec fn bytes_or_message(r: Result<Vec<u8>, String>) -> Result<Seq<u8>, Seq<char>> {
    match r {
        Ok(v) => Ok(v@),
        Err(e) => Err(e@),
    }
}

/// A result whose error is seen by its content.
pub open spec fn value_or_message<T>(r: Result<T, String>) -> Result<T, Seq<char>> {
    match r {
        Ok(v) => Ok(v),
        Err(e) => Err(e@),
    }
}

/// Whether `n` was read.
pub open spec fn gives_u64(r: Result<u64, String>, n: nat) -> bool {
    r matches Ok(v) && v == n
}

/// Whether `n` was read.
pub open spec fn gives_u32(r: Result<u32, String>, n: nat) -> bool {
    r matches Ok(v) && v == n
}

/// Whether `n` was there and was read.
pub open spec fn gives_some(r: Result<Option<u32>, String>, n: nat) -> bool {
    r matches Ok(Some(v)) && v == n
}

/// `Header::new_gnu`: a block of zeros with the mark of the GNU format and the
/// epoch as its modification time.
#[verifier::external_body]
pub(crate) fn new_gnu() -> (r: Vec<u8>)
    ensures
        r@ == replaced(
            replaced(Seq::new(512, |i: int| 0u8), 257, gnu_mark()),
            136,
            octal_field(12, 0),
        ),
{
    Header::new_gnu().as_bytes().to_vec()
}

/// `Header::set_entry_type`, for the types with the digits zero to seven:
/// it writes the type's byte.
#[verifier::external_body]
fn set_type_byte(header: Vec<u8>, byte: u8) -> (r: Vec<u8>)
    requires
        header@.len() == 512,
        48 <= byte <= 55,
    ensures
        r@ == header@.update(156, byte),
{
    let mut h = Header::from_byte_slice(&header).clone();
    h.set_entry_type(tokio_tar::EntryType::new(byte));
    h.as_bytes().to_vec()
}

/// The byte of an entry type in a header.
pub(crate) fn set_entry_type(header: Vec<u8>, ty: EntryType) -> (r: Vec<u8>)
    requires
        header@.len() == 512,
        ty != EntryType::Other,
    ensures
        r@ == header@.update(156, type_byte(ty)),
{
    let byte: u8 = match ty {
        EntryType::Regular => 48,
        EntryType::Link => 49,
        EntryType::Symlink => 50,
        EntryType::Char => 51,
        EntryType::Block => 52,
        EntryType::Directory => 53,
        EntryType::Fifo => 54,
        _ => 55,
    };
    set_type_byte(header, byte)
}

/// `Header::set_size` writes a numeric field of twelve bytes.
#[verifier::external_body]
pub(crate) fn set_size(header: Vec<u8>, size: u64) -> (r: Vec<u8>)
    requires
        header@.len() == 512,
    ensures
        r@ == replaced(header@, 124, number_field(12, size)),
{
    let mut h = Header::from_byte_slice(&header).clone();
    h.set_size(size);
    h.as_bytes().to_vec()
}

/// `Header::set_mode` writes seven octal digits, the lowest ones.
#[verifier::external_body]
pub(crate) fn set_mode(header: Vec<u8>, mode: u32) -> (r: Vec<u8>)
    requires
        header@.len() == 512,
    ensures
        r@ == replaced(header@, 100, octal_field(8, mode as nat)),
{
    let mut h = Header::from_byte_slice(&header).clone();
    h.set_mode(mode);
    h.as_bytes().to_vec()
}

/// `Header::set_uid` writes a numeric field of eight bytes.
#[verifier::external_body]
pub(crate) fn set_uid(header: Vec<u8>, uid: u64) -> (r: Vec<u8>)
    requires
        header@.len() == 512,
    ensures
        r@ == replaced(header@, 108, number_field(8, uid)),
{
    let mut h = Header::from_byte_slice(&header).clone();
    h.set_uid(uid);
    h.as_bytes().to_vec()
}

/// `Header::set_gid` writes a numeric field of eight bytes.
#[verifier::external_body]
pub(crate) fn set_gid(header: Vec<u8>, gid: u64) -> (r: Vec<u8>)
    requires
        header@.len() == 512,
    ensures
        r@ == replaced(header@, 116, number_field(8, gid)),
{
    let mut h = Header::from_byte_slice(&header).clone();
    h.set_gid(gid);
    h.as_bytes().to_vec()
}

/// `Header::set_mtime` writes a numeric field of twelve bytes.
#[verifier::external_body]
pub(crate) fn set_mtime(header: Vec<u8>, mtime: u64) -> (r: Vec<u8>)
    requires
        header@.len() == 512,
    ensures
        r@ == replaced(header@, 136, number_field(12, mtime)),
{
    let mut h = Header::from_byte_slice(&header).clone();
    h.set_mtime(mtime);
    h.as_bytes().to_vec()
}

/// `Header::set_username` on a header in GNU format: it takes names that fit
/// the field and hold no nul, and writes nothing else.
#[verifier::external_body]
pub(crate) fn set_username(header: Vec<u8>, name: &str) -> (r: Result<Vec<u8>, String>)
    requires
        is_gnu(header@),
    ensures
        bytes_or_message(r) == with_username(header@, name@),
        r is Ok <==> fits_name(name@, 32),
        r matches Ok(h) ==> h@ == replaced(header@, 265, name_field(name@, 32)),
{
    let mut h = Header::from_byte_slice(&header).clone();
    h.set_username(name).map_err(|e| e.to_string())?;
    Ok(h.as_bytes().to_vec())
}

/// `Header::set_groupname` on a header in GNU format: it takes names that fit
/// the field and hold no nul, and writes nothing else.
#[verifier::external_body]
pub(crate) fn set_groupname(header: Vec<u8>, name: &str) -> (r: Result<Vec<u8>, String>)
    requires
        is_gnu(header@),
    ensures
        bytes_or_message(r) == with_groupname(header@, name@),
        r is Ok <==> fits_name(name@, 32),
        r matches Ok(h) ==> h@ == replaced(header@, 297, name_field(name@, 32)),
{
    let mut h = Header::from_byte_slice(&header).clone();
    h.set_groupname(name).map_err(|e| e.to_string())?;
    Ok(h.as_bytes().to_vec())
}

/// `Header::set_link_name` takes the path apart and writes its parts, with
/// slashes between them, into the field for the link name and nowhere else. It
/// fails where they do not fit. What it makes of paths that are not portable
/// depends on the platform.
#[verifier::external_body]
pub(crate) fn set_link_name(header: Vec<u8>, path: &str) -> (r: Result<Vec<u8>, String>)
    requires
        header@.len() == 512,
    ensures
        portable(path@) ==> bytes_or_message(r) == with_link_name(header@, path@),
        linked(header@, path@, bytes_or_message(r)),
{
    let mut h = Header::from_byte_slice(&header).clone();
    h.set_link_name(path).map_err(|e| e.to_string())?;
    Ok(h.as_bytes().to_vec())
}

/// `Header::set_device_major` on a header in GNU format writes seven octal
/// digits, the lowest ones.
#[verifier::external_body]
pub(crate) fn set_device_major(header: Vec<u8>, major: u32) -> (r: Result<Vec<u8>, String>)
    requires
        is_gnu(header@),
    ensures
        r is Ok,
        r->Ok_0@ == replaced(header@, 329, octal_field(8, major as nat)),
{
    let mut h = Header::from_byte_slice(&header).clone();
    h.set_device_major(major).map_err(|e| e.to_string())?;
    Ok(h.as_bytes().to_vec())
}

/// `Header::set_device_minor` on a header in GNU format writes seven octal
/// digits, the lowest ones.
#[verifier::external_body]
pub(crate) fn set_device_minor(header: Vec<u8>, minor: u32) -> (r: Result<Vec<u8>, String>)
    requires
        is_gnu(header@),
    ensures
        r is Ok,
        r->Ok_0@ == replaced(header@, 337, octal_field(8, minor as nat)),
{
    let mut h = Header::from_byte_slice(&header).clone();
    h.set_device_minor(minor).map_err(|e| e.to_string())?;
    Ok(h.as_bytes().to_vec())
}

/// `Header::entry_type`, as the byte it stands for: a nul byte counts as the
/// digit zero.
#[verifier::external_body]
fn read_type_byte(header: &Vec<u8>) -> (r: u8)
    requires
        header@.len() == 512,
    ensures
        r == if header@[156] == 0 {
            48
        } else {
            header@[156]
        },
{
    Header::from_byte_slice(header).entry_type().as_byte()
}

/// The entry type that a header gives.
pub(crate) fn entry_type(header: &Vec<u8>) -> (r: EntryType)
    requires
        header@.len() == 512,
    ensures
        r == byte_type(header@[156]),
{
    match read_type_byte(header) {
        48 => EntryType::Regular,
        49 => EntryType::Link,
        50 => EntryType::Symlink,
        51 => EntryType::Char,
        52 => EntryType::Block,
        53 => EntryType::Directory,
        54 => EntryType::Fifo,
        55 => EntryType::Continuous,
        _ => EntryType::Other,
    }
}

/// `Header::size` reads octal digits, or, if the highest bit is set, the last
/// eight bytes of the size field; sparse files have their size elsewhere.
#[verifier::external_body]
pub(crate) fn size(header: &Vec<u8>) -> (r: Result<u64, String>)
    requires
        header@.len() == 512,
    ensures
        value_or_message(r) == size_of_header(header@),
        header@[156] != 83 && is_octal_field(field_at(header@, 124, 12)) ==> gives_u64(
            r,
            octal_value(field_at(header@, 124, 11)),
        ),
        header@[156] != 83 && header@[124] >= 128 ==> gives_u64(
            r,
            bytes_value(field_at(header@, 128, 8)),
        ),
{
    Header::from_byte_slice(header).size().map_err(|e| e.to_string())
}

/// `Header::mode` reads octal digits.
#[verifier::external_body]
pub(crate) fn mode(header: &Vec<u8>) -> (r: Result<u32, String>)
    requires
        header@.len() == 512,
    ensures
        value_or_message(r) == mode_of_header(header@),
        is_octal_field(field_at(header@, 100, 8)) ==> gives_u32(
            r,
            octal_value(field_at(header@, 100, 7)),
        ),
{
    Header::from_byte_slice(header).mode().map_err(|e| e.to_string())
}

/// `Header::uid` reads octal digits, or, if the highest bit is set, all other
/// bits of the field.
#[verifier::external_body]
pub(crate) fn uid(header: &Vec<u8>) -> (r: Result<u64, String>)
    requires
        header@.len() == 512,
    ensures
        value_or_message(r) == uid_of_header(header@),
        is_octal_field(field_at(header@, 108, 8)) ==> gives_u64(
            r,
            octal_value(field_at(header@, 108, 7)),
        ),
        header@[108] >= 128 ==> gives_u64(
            r,
            bytes_value(field_at(header@, 108, 8).update(0, (header@[108] - 128) as u8)),
        ),
{
    Header::from_byte_slice(header).uid().map_err(|e| e.to_string())
}

/// `Header::gid` reads octal digits, or, if the highest bit is set, all other
/// bits of the field.
#[verifier::external_body]
pub(crate) fn gid(header: &Vec<u8>) -> (r: Result<u64, String>)
    requires
        header@.len() == 512,
    ensures
        value_or_message(r) == gid_of_header(header@),
        is_octal_field(field_at(header@, 116, 8)) ==> gives_u64(
            r,
            octal_value(field_at(header@, 116, 7)),
        ),
        header@[116] >= 128 ==> gives_u64(
            r,
            bytes_value(field_at(header@, 116, 8).update(0, (header@[116] - 128) as u8)),
        ),
{
    Header::from_byte_slice(header).gid().map_err(|e| e.to_string())
}

/// `Header::mtime` reads octal digits, or, if the highest bit is set, the last
/// eight bytes of its field.
#[verifier::external_body]
pub(crate) fn mtime(header: &Vec<u8>) -> (r: Result<u64, String>)
    requires
        header@.len() == 512,
    ensures
        value_or_message(r) == mtime_of_header(header@),
        is_octal_field(field_at(header@, 136, 12)) ==> gives_u64(
            r,
            octal_value(field_at(header@, 136, 11)),
        ),
        header@[136] >= 128 ==> gives_u64(
            r,
            bytes_value(field_at(header@, 140, 8)),
        ),
{
    Header::from_byte_slice(header).mtime().map_err(|e| e.to_string())
}

/// `Header::username_bytes` reads the bytes before the first nul of the field,
/// in the formats that have it.
#[verifier::external_body]
pub(crate) fn username_bytes(header: &Vec<u8>) -> (r: Option<Vec<u8>>)
    requires
        header@.len() == 512,
    ensures
        optional_bytes(r) == name_at(header@, 265),
{
    Header::from_byte_slice(header).username_bytes().map(|b| b.to_vec())
}

/// `Header::groupname_bytes` reads the bytes before the first nul of the
/// field, in the formats that have it.
#[verifier::external_body]
pub(crate) fn groupname_bytes(header: &Vec<u8>) -> (r: Option<Vec<u8>>)
    requires
        header@.len() == 512,
    ensures
        optional_bytes(r) == name_at(header@, 297),
{
    Header::from_byte_slice(header).groupname_bytes().map(|b| b.to_vec())
}

/// Optional bytes, by their content.
pub open spec fn optional_bytes(b: Option<Vec<u8>>) -> Option<Seq<u8>> {
    match b {
        Some(b) => Some(b@),
        None => None,
    }
}

/// `Header::device_major` reads octal digits from a header in GNU format.
#[verifier::external_body]
pub(crate) fn device_major(header: &Vec<u8>) -> (r: Result<Option<u32>, String>)
    requires
        header@.len() == 512,
    ensures
        value_or_message(r) == device_major_of_header(header@),
        is_gnu(header@) && is_octal_field(field_at(header@, 329, 8)) ==> gives_some(
            r,
            octal_value(field_at(header@, 329, 7)),
        ),
{
    Header::from_byte_slice(header).device_major().map_err(|e| e.to_string())
}

/// `Header::device_minor` reads octal digits from a header in GNU format.
#[verifier::external_body]
pub(crate) fn device_minor(header: &Vec<u8>) -> (r: Result<Option<u32>, String>)
    requires
        header@.len() == 512,
    ensures
        value_or_message(r) == device_minor_of_header(header@),
        is_gnu(header@) && is_octal_field(field_at(header@, 337, 8)) ==> gives_some(
            r,
            octal_value(field_at(header@, 337, 7)),
        ),
{
    Header::from_byte_slice(header).device_minor().map_err(|e| e.to_string())
}

/// Octal digits give their number back.
proof fn lemma_octal_digits(n: nat, count: nat)
    ensures
        octal_digits(n, count).len() == count,
        forall|i: int| 0 <= i < count ==> 48 <= #[trigger] octal_digits(n, count)[i] <= 55,
        n < eight_to(count) ==> octal_value(octal_digits(n, count)) == n,
    decreases count,
{
    if count > 0 {
        let before = octal_digits(n / 8, (count - 1) as nat);
        lemma_octal_digits(n / 8, (count - 1) as nat);
        let all = octal_digits(n, count);
        assert(all.drop_last() =~= before);
        assert forall|i: int| 0 <= i < count implies 48 <= #[trigger] all[i] <= 55 by {
            if i < count - 1 {
                assert(all[i] == before[i]);
            }
        }
    }
}

/// Bytes give their number back.
proof fn lemma_low_bytes(n: nat, count: nat)
    ensures
        low_bytes(n, count).len() == count,
        n < byte_to(count) ==> bytes_value(low_bytes(n, count)) == n,
        count > 0 ==> low_bytes(n, count)[0] == (n / byte_to((count - 1) as nat)) % 256,
    decreases count,
{
    if count > 0 {
        lemma_low_bytes(n / 256, (count - 1) as nat);
        assert(low_bytes(n, count).drop_last() =~= low_bytes(n / 256, (count - 1) as nat));
        if count > 1 {
            let before = low_bytes(n / 256, (count - 1) as nat);
            let d = byte_to((count - 2) as nat);
            lemma_byte_to_positive((count - 2) as nat);
            vstd::arithmetic::div_mod::lemma_div_denominator(n as int, 256, d as int);
            assert(256 * d == byte_to((count - 1) as nat));
            assert(low_bytes(n, count)[0] == before[0]);
            assert(before[0] == ((n / 256) / d) % 256);
        } else {
            assert(byte_to(0) == 1);
            vstd::arithmetic::div_mod::lemma_div_basics(n as int);
            assert(n / byte_to(0) == n);
            assert(low_bytes(n / 256, 0) =~= Seq::<u8>::empty());
        }
    }
}

proof fn lemma_byte_to_positive(n: nat)
    ensures
        byte_to(n) > 0,
    decreases n,
{
    if n > 0 {
        lemma_byte_to_positive((n - 1) as nat);
    }
}

/// The lowest bytes do not depend on how many there are.
proof fn lemma_low_bytes_skip(n: nat, j: nat, k: nat)
    ensures
        low_bytes(n, j + k).skip(j as int) == low_bytes(n, k),
    decreases k,
{
    lemma_low_bytes(n, j + k);
    lemma_low_bytes(n, k);
    if k == 0 {
        assert(low_bytes(n, j + k).skip(j as int) =~= low_bytes(n, k));
    } else {
        lemma_low_bytes_skip(n / 256, j, (k - 1) as nat);
        lemma_low_bytes(n / 256, (j + k - 1) as nat);
        let before = low_bytes(n / 256, (j + k - 1) as nat);
        assert(before.push((n % 256) as u8).skip(j as int) =~= before.skip(j as int).push(
            (n % 256) as u8,
        ));
    }
}

/// The powers that the fields run up to.
proof fn lemma_powers()
    ensures
        eight_to(7) == 2_097_152,
        eight_to(11) == 8_589_934_592,
        byte_to(7) == 0x100_0000_0000_0000,
        byte_to(8) == 0x1_0000_0000_0000_0000,
        byte_to(11) == 0x100_0000_0000_0000 * 0x1_0000_0000,
{
    reveal_with_fuel(eight_to, 12);
    reveal_with_fuel(byte_to, 12);
}

/// A field of twelve bytes holds any number and gives it back: as octal
/// digits, or in binary with the mark that says so.
pub proof fn long_field_round_trips(n: u64)
    ensures
        number_field(12, n).len() == 12,
        is_octal_field(number_field(12, n)) || number_field(12, n)[0] >= 128,
        is_octal_field(number_field(12, n)) ==> octal_value(number_field(12, n).take(11)) == n,
        number_field(12, n)[0] >= 128 ==> bytes_value(number_field(12, n).skip(4)) == n,
{
    lemma_powers();
    let f = number_field(12, n);
    if fits_octal(12, n as nat) {
        lemma_octal_digits(n as nat, 11);
        assert(f.take(11) =~= octal_digits(n as nat, 11));
        assert(f[0] == octal_digits(n as nat, 11)[0]);
    } else {
        lemma_low_bytes(n as nat, 12);
        lemma_low_bytes(n as nat, 8);
        lemma_low_bytes_skip(n as nat, 4, 8);
        let bytes = low_bytes(n as nat, 12);
        assert(n as nat / byte_to(11) == 0) by {
            vstd::arithmetic::div_mod::lemma_basic_div(n as int, byte_to(11) as int);
        }
        assert(f.skip(4) =~= bytes.skip(4));
        assert(f[0] == 128);
    }
}

/// A field of eight bytes holds any number below two to the sixty-third and
/// gives it back: as octal digits, or in binary with the mark that says so.
pub proof fn short_field_round_trips(n: u64)
    ensures
        number_field(8, n).len() == 8,
        is_octal_field(number_field(8, n)) || number_field(8, n)[0] >= 128,
        is_octal_field(number_field(8, n)) ==> octal_value(number_field(8, n).take(7)) == n,
        number_field(8, n)[0] >= 128 && n < 0x8000_0000_0000_0000 ==> bytes_value(
            number_field(8, n).update(0, (number_field(8, n)[0] - 128) as u8),
        ) == n,
{
    lemma_powers();
    let f = number_field(8, n);
    if fits_octal(8, n as nat) {
        lemma_octal_digits(n as nat, 7);
        assert(f.take(7) =~= octal_digits(n as nat, 7));
        assert(f[0] == octal_digits(n as nat, 7)[0]);
    } else {
        lemma_low_bytes(n as nat, 8);
        let bytes = low_bytes(n as nat, 8);
        if n < 0x8000_0000_0000_0000 {
            let top = n as nat / byte_to(7);
            assert(top < 128) by (nonlinear_arith)
                requires
                    top == n as nat / 0x100_0000_0000_0000,
                    n < 0x8000_0000_0000_0000,
            ;
            assert(bytes[0] == top % 256);
            assert(f.update(0, (f[0] - 128) as u8) =~= bytes);
        }
        assert(f[0] >= 128);
    }
}

/// Octal digits in a field of eight bytes give back what seven of them can
/// write.
pub proof fn digits_round_trip(n: u32)
    ensures
        octal_field(8, n as nat).len() == 8,
        is_octal_field(octal_field(8, n as nat)),
        n < 2_097_152 ==> octal_value(octal_field(8, n as nat).take(7)) == n,
{
    lemma_powers();
    lemma_octal_digits(n as nat, 7);
    assert(octal_field(8, n as nat).take(7) =~= octal_digits(n as nat, 7));
}

/// A name that was written into a field is what stands before the first nul.
pub proof fn names_round_trip(name: Seq<u8>, rest: Seq<u8>)
    requires
        !name.contains(0),
        rest.len() == 0 || rest[0] == 0,
    ensures
        up_to_nul(name + rest) == name,
    decreases name.len(),
{
    let all = name + rest;
    if name.len() == 0 {
        assert(all =~= rest);
        assert(up_to_nul(all) =~= name);
    } else {
        assert(name.contains(name[0]));
        assert(all[0] == name[0]);
        let tail = name.skip(1);
        assert(!tail.contains(0)) by {
            if tail.contains(0) {
                let i = choose|i: int| 0 <= i < tail.len() && tail[i] == 0;
                assert(name[i + 1] == 0);
            }
        }
        assert(all.skip(1) =~= tail + rest);
        names_round_trip(tail, rest);
        assert(seq![name[0]] + tail =~= name);
    }
}

} // verus!
