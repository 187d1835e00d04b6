use dolang_ext::error::Error;
use dolang_ext::shell::paths;
use dolang_ext::shell::time::SystemTime;
use dolang_ext::tar::archive::{
    archive_path, entry_data, entry_device_major, entry_device_minor, entry_gid, entry_group_name, entry_mode,
    entry_mtime, entry_name, entry_size, entry_type, entry_uid, entry_user_name, read_size,
    start_entry, write_outcome, TarEntryWriter, TarReader, TarWriter,
};
use dolang_ext::tar::compression::{
    compression_sym, detect_compression, parse_compression, Compression,
};
use dolang_ext::tar::entry::{
    build_header, entry_type_sym, nonnegative_u64, optional_string, optional_u64,
    optional_unix_path_string, parse_entry_type, unix_path_string, EntryArgs, EntrySpec, PathArg,
    TimeArg,
};
use dolang_ext::tar::extension::TarExt;
use dolang_ext::tar::header::EntryType;
use dolang_ext::value::Value;

fn sym(s: &str) -> Option<Value> {
    Some(Value::Sym(s.to_string()))
}

fn args() -> EntryArgs {
    EntryArgs {
        path: PathArg::Str("dir/file".to_string()),
        size: Some(Value::Int(5)),
        ty: None,
        mode: None,
        uid: None,
        gid: None,
        mtime: None,
        user_name: None,
        group_name: None,
        link_name: None,
        device_major: None,
        device_minor: None,
    }
}

fn spec() -> EntrySpec {
    args().check().unwrap()
}

fn message(r: Result<EntrySpec, Error>) -> String {
    match r {
        Err(Error::Value(m)) | Err(Error::Type(m)) => m,
        other => panic!("{other:?}"),
    }
}

fn current() -> (TarReader, dolang_ext::tar::archive::TarEntry) {
    let mut reader = TarReader::new(Compression::Uncompressed);
    reader.advance().unwrap();
    let entry = reader.arrive(true).unwrap();
    (reader, entry)
}

#[test]
fn compressions_are_detected_by_their_magic() {
    assert_eq!(detect_compression(&vec![0x1f, 0x8b]), Compression::Gzip);
    assert_eq!(
        detect_compression(&vec![0x28, 0xb5, 0x2f, 0xfd]),
        Compression::Zstd
    );
    assert_eq!(
        detect_compression(&vec![0x28, 0xb5, 0x2f]),
        Compression::Uncompressed
    );
    assert_eq!(detect_compression(&vec![]), Compression::Uncompressed);
}

#[test]
fn compressions_are_chosen_by_symbol_or_extension() {
    let ext = |s: &str| Some(s.to_string());
    assert_eq!(parse_compression(&None, &ext("TGZ")).unwrap(), Compression::Gzip);
    assert_eq!(parse_compression(&None, &ext("zst")).unwrap(), Compression::Zstd);
    assert_eq!(parse_compression(&None, &ext("tar")).unwrap(), Compression::Uncompressed);
    assert_eq!(parse_compression(&None, &None).unwrap(), Compression::Uncompressed);
    assert_eq!(parse_compression(&sym("NONE"), &ext("gz")).unwrap(), Compression::Uncompressed);
    for c in [Compression::Uncompressed, Compression::Gzip, Compression::Zstd] {
        assert_eq!(parse_compression(&sym(compression_sym(c)), &None).unwrap(), c);
    }
    match parse_compression(&Some(Value::Int(1)), &None) {
        Err(Error::Value(m)) => assert_eq!(m, "compression must be :NONE:, :GZIP:, or :ZSTD:"),
        other => panic!("{other:?}"),
    }
}

#[test]
fn entry_types_have_symbols() {
    assert_eq!(parse_entry_type(&None).unwrap(), EntryType::Regular);
    for name in [
        "FILE", "HARDLINK", "SYMLINK", "CHAR_DEVICE", "BLOCK_DEVICE", "DIR", "FIFO", "CONTIGUOUS",
    ] {
        assert_eq!(entry_type_sym(parse_entry_type(&sym(name)).unwrap()), name);
    }
    assert_eq!(entry_type_sym(EntryType::Other), "UNKNOWN");
    assert!(parse_entry_type(&sym("UNKNOWN")).is_err());
}

#[test]
fn numbers_and_names_are_checked() {
    assert_eq!(nonnegative_u64(&Value::Int(7), "size").unwrap(), 7);
    assert!(nonnegative_u64(&Value::Int(-7), "size").is_err());
    assert!(nonnegative_u64(&Value::Nil, "size").is_err());
    assert_eq!(optional_u64(&None, 3, "uid").unwrap(), 3);
    assert_eq!(optional_string(&None, "user_name").unwrap(), None);
    assert!(optional_string(&Some(Value::Int(1)), "user_name").is_err());
    assert_eq!(unix_path_string(&PathArg::UnixPath("a".to_string()), "path").unwrap(), "a");
    assert!(unix_path_string(&PathArg::Other, "path").is_err());
    assert_eq!(optional_unix_path_string(&None, "link_name").unwrap(), None);
}

#[test]
fn entries_need_what_their_type_needs() {
    let mut a = args();
    a.size = None;
    assert_eq!(message(a.check()), "size is required");
    let mut a = args();
    a.ty = sym("SYMLINK");
    assert_eq!(message(a.check()), "link_name is required for link entries");
    let mut a = args();
    a.ty = sym("CHAR_DEVICE");
    a.device_major = Some(Value::Int(1));
    assert_eq!(
        message(a.check()),
        "device_major and device_minor are required for device entries"
    );
    let mut a = args();
    a.mtime = Some(TimeArg::Other);
    assert_eq!(message(a.check()), "mtime must be a DateTime");
    let mut a = args();
    a.mtime = Some(TimeArg::DateTime(SystemTime {
        before_epoch: true,
        secs: 1,
        nanos: 0,
    }));
    assert_eq!(message(a.check()), "mtime is before the Unix epoch");
    let mut a = args();
    a.mode = Some(Value::Int(1 << 40));
    assert!(matches!(a.check(), Err(Error::Overflow)));
    assert_eq!(spec().mode, 0o644);
}

#[test]
fn headers_read_back() {
    let mut s = spec();
    s.size = 1 << 35;
    s.mode = 0o755;
    s.uid = 1000;
    s.gid = 1 << 40;
    s.mtime = 1_700_000_000;
    s.user_name = Some("user".to_string());
    s.group_name = Some("group".to_string());
    let header = build_header(&s).unwrap();
    assert_eq!(header.len(), 512);
    let (reader, entry) = current();
    assert_eq!(entry_type(&reader, &entry, &header).unwrap(), "FILE");
    assert_eq!(entry_size(&reader, &entry, &header).unwrap(), 1 << 35);
    assert_eq!(entry_mode(&reader, &entry, &header).unwrap(), 0o755);
    assert_eq!(entry_uid(&reader, &entry, &header).unwrap(), 1000);
    assert_eq!(entry_gid(&reader, &entry, &header).unwrap(), 1 << 40);
    let mtime = entry_mtime(&reader, &entry, &header).unwrap();
    assert_eq!((mtime.before_epoch, mtime.secs, mtime.nanos), (false, 1_700_000_000, 0));
    let user = entry_user_name(&reader, &entry, &header, &None).unwrap();
    assert_eq!(user.as_deref(), Some("user"));
    let group = entry_group_name(&reader, &entry, &header, &None).unwrap();
    assert_eq!(group.as_deref(), Some("group"));
    let mut real = tokio_tar::Header::new_gnu();
    real.as_mut_bytes().copy_from_slice(&header);
    assert_eq!(real.size().unwrap(), 1 << 35);
    assert_eq!(real.mode().unwrap(), 0o755);
    assert_eq!(real.username().unwrap(), Some("user"));
    assert_eq!(real.groupname().unwrap(), Some("group"));
}

#[test]
fn headers_hold_devices_and_links() {
    let mut s = spec();
    s.ty = EntryType::Block;
    s.device_major = Some(8);
    s.device_minor = Some(17);
    let header = build_header(&s).unwrap();
    let (reader, entry) = current();
    assert_eq!(entry_type(&reader, &entry, &header).unwrap(), "BLOCK_DEVICE");
    assert_eq!(entry_device_major(&reader, &entry, &header).unwrap(), Some(8));
    assert_eq!(entry_device_minor(&reader, &entry, &header).unwrap(), Some(17));
    let mut s = spec();
    s.ty = EntryType::Symlink;
    s.link_name = Some("target".to_string());
    let header = build_header(&s).unwrap();
    let mut real = tokio_tar::Header::new_gnu();
    real.as_mut_bytes().copy_from_slice(&header);
    assert_eq!(real.link_name_bytes().unwrap().as_ref(), b"target");
    s.user_name = Some("x".repeat(40));
    assert!(build_header(&s).is_err());
}

#[test]
fn tidy_link_names_are_written_as_they_stand() {
    let mut s = spec();
    s.ty = EntryType::Link;
    for path in ["a", "a/b", "/a/b/", "./a", "../..", "a/.b"] {
        s.link_name = Some(path.to_string());
        let header = build_header(&s).unwrap();
        let field = &header[157..257];
        assert_eq!(&field[..path.len()], path.as_bytes());
        assert_eq!(field[path.len()], 0);
    }
    s.link_name = Some("x".repeat(100));
    assert_eq!(build_header(&s).unwrap()[157..257], [b'x'; 100]);
    s.link_name = Some("x".repeat(101));
    assert!(matches!(build_header(&s), Err(Error::Runtime(_))));
    s.link_name = Some("a//b".to_string());
    assert_eq!(&build_header(&s).unwrap()[157..161], b"a/b\0");
}

#[test]
fn extension_records_override_owner_names() {
    let mut s = spec();
    s.user_name = Some("x".repeat(32));
    s.group_name = Some("".to_string());
    let header = build_header(&s).unwrap();
    let (reader, entry) = current();
    let user = |e: Option<Vec<u8>>| entry_user_name(&reader, &entry, &header, &e);
    assert_eq!(user(None).unwrap(), Some("x".repeat(32)));
    assert_eq!(user(Some(b"other".to_vec())).unwrap(), Some("other".to_string()));
    assert_eq!(user(Some(vec![])).unwrap(), None);
    let problem = String::from_utf8(vec![b'a', 0xff]).unwrap_err().to_string();
    assert!(matches!(user(Some(vec![b'a', 0xff])), Err(Error::Runtime(m)) if m == problem));
    let group = |e: Option<Vec<u8>>| entry_group_name(&reader, &entry, &header, &e);
    assert_eq!(group(None).unwrap(), Some(String::new()));
    assert_eq!(group(Some(vec![])).unwrap(), None);
    let old = tokio_tar::Header::new_old().as_bytes().to_vec();
    assert_eq!(entry_user_name(&reader, &entry, &old, &None).unwrap(), None);
    assert_eq!(entry_group_name(&reader, &entry, &old, &None).unwrap(), None);
}

#[test]
fn left_entries_cannot_be_read() {
    let (mut reader, first) = current();
    let header = build_header(&spec()).unwrap();
    assert!(reader.active_entry(&first).is_ok());
    assert_eq!(entry_name(&reader, &first, b"a/b".to_vec()).unwrap(), "a/b");
    assert!(matches!(
        entry_name(&reader, &first, vec![0xff]),
        Err(Error::Runtime(m)) if m == "invalid utf-8 sequence of 1 bytes from index 0"
    ));
    assert_eq!(read_size(&reader, &first, &Value::Int(9)).unwrap(), 9);
    reader.advance().unwrap();
    let second = reader.arrive(true).unwrap();
    match entry_size(&reader, &first, &header) {
        Err(Error::State(m)) => assert_eq!(m, "tar entry is no longer active"),
        other => panic!("{other:?}"),
    }
    assert!(reader.active_entry(&second).is_ok());
    reader.close();
    assert!(reader.active_entry(&second).is_err());
    match reader.advance() {
        Err(Error::State(m)) => assert_eq!(m, "tar reader is closed"),
        other => panic!("{other:?}"),
    }
    assert_eq!(reader.compression(), Compression::Uncompressed);
}

#[test]
fn the_end_of_an_archive_has_no_entry() {
    let mut reader = TarReader::new(Compression::Gzip);
    reader.advance().unwrap();
    assert!(reader.arrive(false).is_none());
}

#[test]
fn entries_are_written_one_at_a_time() {
    let mut writer = TarWriter::new(Compression::Zstd);
    let started = start_entry(&mut writer, &args()).unwrap();
    assert_eq!(started.path, "dir/file");
    assert_eq!(started.header.len(), 512);
    assert!(matches!(start_entry(&mut writer, &args()), Err(Error::Conflict)));
    let mut entry = started.writer;
    entry.validate(&writer).unwrap();
    entry.check_write(5).unwrap();
    entry.wrote(5);
    match entry.check_write(1) {
        Err(Error::Value(m)) => assert_eq!(m, "tar entry exceeds declared size"),
        other => panic!("{other:?}"),
    }
    assert_eq!(entry.close(), 5);
    assert!(entry.validate(&writer).is_err());
    writer.end_entry(Ok(()), Ok(()), 5, 5).unwrap();
    assert!(start_entry(&mut writer, &args()).is_ok());
}

#[test]
fn short_entries_spoil_the_archive() {
    let mut writer = TarWriter::new(Compression::Uncompressed);
    start_entry(&mut writer, &args()).unwrap();
    match writer.end_entry(Ok(()), Ok(()), 3, 5) {
        Err(Error::Value(m)) => assert_eq!(m, "tar entry declared 5 bytes but received 3"),
        other => panic!("{other:?}"),
    }
    match start_entry(&mut writer, &args()) {
        Err(Error::State(m)) => assert_eq!(m, "tar writer is poisoned"),
        other => panic!("{other:?}"),
    }
    match writer.finish() {
        Err(Error::State(m)) => assert_eq!(m, "tar writer did not finish cleanly"),
        other => panic!("{other:?}"),
    }
}

#[test]
fn finished_archives_are_closed() {
    let mut writer = TarWriter::new(Compression::Uncompressed);
    writer.finish().unwrap();
    assert!(matches!(writer.finish(), Err(Error::State(_))));
    match start_entry(&mut writer, &args()) {
        Err(Error::State(m)) => assert_eq!(m, "tar writer is closed"),
        other => panic!("{other:?}"),
    }
    let block = Err(Error::Runtime("block".to_string()));
    match write_outcome(block, Err(Error::NotSupported)) {
        Err(Error::Runtime(m)) => assert_eq!(m, "block"),
        other => panic!("{other:?}"),
    }
}

#[test]
fn entry_data_is_text_or_bytes() {
    assert_eq!(entry_data(&Value::Str("a".to_string())).unwrap(), b"a");
    assert_eq!(entry_data(&Value::Bin(vec![9])).unwrap(), [9]);
    match entry_data(&Value::Nil) {
        Err(Error::Type(m)) => assert_eq!(m, "expected str or bin"),
        other => panic!("{other:?}"),
    }
    assert_eq!(TarEntryWriter::new(1, 10).written(), 0);
    assert_eq!(TarExt.name(), "dolang-tar");
    assert_eq!(TarExt.modules(), ["tar"]);
}

#[test]
fn archives_are_at_paths() {
    let path = paths::PathArg::Path("a.tar".to_string());
    assert_eq!(archive_path(&path).unwrap(), "a.tar");
    assert_eq!(archive_path(&paths::PathArg::Str("b".to_string())).unwrap(), "b");
    assert!(matches!(
        archive_path(&paths::PathArg::Other),
        Err(Error::Type(m)) if m == "path must be a str or Path"
    ));
}
