use dolang_ext::error::Error;
use dolang_ext::security::ace::{
    access_mask_from_int, ace_flags_from_int, ace_from_args, coerce_ace, new_ace, AceArgs, AceItem,
    Action,
};
use dolang_ext::security::acl::{
    acl_from_args, acl_revision, coerce_acl, new_acl, revision_sym, AclItem,
};
use dolang_ext::security::acl_input::{
    acl_kind_sym, create_any_acl, resolve_acl_input, AclKind, AnyAcl,
};
use dolang_ext::security::coerce::{ace_bool, ace_u32, ace_u8, coerce, posix_id, spec_id};
use dolang_ext::security::flags::rank_of;
use dolang_ext::security::lookup::{self, token_info, user_query, SecurityInfo, UserQuery};
use dolang_ext::security::macos::{
    self, create_macos_acl, id_for_uuid, resolve_uid_or_gid_arg, resolved_number, tagged_id,
    uuid_for_gid, uuid_for_uid, IdQuery, PrincipalId, PrincipalIdKind, PrincipalQuery,
};
use dolang_ext::security::macos_flags::{MacosAceFlags, MacosAceMask};
use dolang_ext::security::model::{
    AceRecord, AceType, AclRecord, AclRevision, FlagClass, MacosAce, MacosAceType, Nfs4Ace,
    Nfs4AceType, Nfs4Qualifier, PosixAce, PosixQualifier, Readings, SecDescRecord, Sid, SpecValue,
};
use dolang_ext::security::nfs4::{self, create_nfs4_acl, nfs4_ace_type};
use dolang_ext::security::nfs4_flags::{Nfs4AceFlags, Nfs4AceMask};
use dolang_ext::security::path::{constructed, SpecPath};
use dolang_ext::security::posix_flags::Permission;
use dolang_ext::security::records::{
    ace_flag, ace_is_audit, create_acl, create_sid_name, create_token_info, with_ace, with_acl,
    AceAnnex, AclAnnex, SidNameUse, TokenGroup, WindowsTokenInfo,
};
use dolang_ext::security::sec_desc::{
    amend_outcome, coerce_sec_desc, create_sec_desc, downcast_acl_component, downcast_sid_component,
    empty_sec_desc, find_control, new_sec_desc, parse_bool_component, rigid_components,
    sec_desc_components_from_spec, sec_desc_from_args, sec_desc_from_value, AclSlot, Base, Control,
    NewSecDesc, NullableComponent, SecDescArgs, SecDescComponents,
};
use dolang_ext::security::sid::{
    as_windows_sid, coerce_sid, coerce_sid_non_str, coerce_sid_option, create_sid, lookup_arg,
    sid_from_sym, windows_sid, Lookup, WellKnownSids,
};
use dolang_ext::security::unix::{
    self, acl_from_args as posix_acl_from_args, create_identity, create_posix_acl, AclArg,
    PosixAceArgs, UnixSecurityInfo,
};
use dolang_ext::security::windows_flags::{
    AccessMask, AceFlags, SecDescControl, SecInfo, TokenGroupAttributes,
};
use dolang_ext::shell::sys::{Architecture, OperatingSystem, OperatingSystemFamily, Target};

fn sym(s: &str) -> SpecValue {
    SpecValue::Sym(s.to_string())
}

fn readings() -> Readings {
    Readings {
        sid: Err("invalid SID".to_string()),
        uuid: Err("invalid UUID".to_string()),
    }
}

fn text(s: &str) -> SpecValue {
    SpecValue::Str(s.to_string(), readings())
}

fn bin(b: &[u8]) -> SpecValue {
    SpecValue::Bin(b.to_vec(), readings())
}

fn dict(pairs: Vec<(&str, SpecValue)>) -> SpecValue {
    SpecValue::Dict(pairs.into_iter().map(|(k, v)| (sym(k), v)).collect())
}

fn root(s: &str) -> SpecPath {
    SpecPath::root(s)
}

fn sid(authority: u64, sub: &[u32]) -> Sid {
    Sid {
        authority,
        sub_authorities: sub.to_vec(),
    }
}

fn message<T: std::fmt::Debug>(r: Result<T, Error>) -> String {
    match r {
        Err(e) => error_message(e),
        Ok(v) => panic!("{v:?}"),
    }
}

fn error_message(e: Error) -> String {
    match e {
        Error::Value(m) | Error::Type(m) | Error::Field(m) => m,
        other => panic!("{other:?}"),
    }
}

fn ace_record(kind: AceType, flags: u32, packet: &[u8]) -> AceRecord {
    AceRecord {
        ace_type: kind,
        type_code: 0,
        flags,
        size: 20,
        mask: Some(3),
        sid: Some(sid(5, &[18])),
        object_flags: None,
        object_type: None,
        inherited_object_type: None,
        application_data: None,
        packet: packet.to_vec(),
    }
}

fn acl_record(packet: &[u8]) -> AclRecord {
    AclRecord {
        revision: AclRevision::Basic,
        size: 8,
        aces: vec![ace_record(AceType::AccessAllowed, 0, &[1])],
        packet: packet.to_vec(),
    }
}

fn ace_args(mask: SpecValue) -> AceArgs {
    AceArgs {
        mask,
        allow: None,
        deny: None,
        audit: None,
        flags: None,
        object_type: None,
        inherited_object_type: None,
        callback: None,
        application_data: None,
        successful: None,
        failed: None,
    }
}

fn desc_args() -> SecDescArgs {
    SecDescArgs {
        value: None,
        owner: None,
        group: None,
        dacl: None,
        sacl: None,
        controls: [
            None, None, None, None, None, None, None, None, None, None, None, None,
        ],
        rm_control: None,
    }
}

#[test]
fn flags_have_names_and_operators() {
    let read = Permission::named("READ").unwrap();
    let write = Permission::named("WRITE").unwrap();
    assert_eq!((read | write).0, 6);
    assert_eq!((read & write).0, 0);
    assert_eq!((read ^ (read | write)).0, 2);
    assert_eq!((!read).0, 3);
    assert!((read | write).contains(write));
    assert!(!read.contains(write));
    assert_eq!((read | write).rank(), 2);
    assert!(Permission::named("read").is_none());
    assert_eq!(Permission::empty().rank(), 0);
    assert_eq!(rank_of(u32::MAX), 32);
}

#[test]
fn every_set_of_flags_knows_its_bits() {
    assert_eq!(MacosAceMask::named("READ_DATA").unwrap().0, 2);
    assert_eq!(MacosAceFlags::named("INHERITED").unwrap().0, 16);
    assert_eq!(Nfs4AceMask::named("SYNCHRONIZE").unwrap().0, 0x100000);
    assert_eq!(Nfs4AceFlags::named("INHERITED").unwrap().0, 0x80);
    assert_eq!(AccessMask::named("GENERIC_READ").unwrap().0, 0x80000000);
    assert_eq!(AceFlags::named("FAILED_ACCESS").unwrap().0, 0x80);
    assert_eq!(SecDescControl::named("SELF_RELATIVE").unwrap().0, 0x8000);
    assert_eq!(SecInfo::named("ALL").unwrap().rank(), 4);
    assert_eq!(TokenGroupAttributes::named("LOGON_ID").unwrap().rank(), 2);
    assert_eq!(SecDescControl::names().len(), 14);
    assert!(AceFlags::named("TRUST_PROTECTED_FILTER").is_none());
    let mask = AccessMask(0x8011_0007);
    assert_eq!(mask.specific_rights(), 7);
    assert_eq!(mask.standard_rights().0, 0x11_0000);
    assert_eq!(mask.generic_rights().0, 0x8000_0000);
}

#[test]
fn paths_name_positions() {
    let path = root("acl").index(2).key("mask");
    assert_eq!(path.display(), "acl[2].mask");
}

#[test]
fn numbers_and_truth_values_are_checked() {
    assert_eq!(posix_id(&SpecValue::Int(7), "uid").unwrap(), 7);
    assert_eq!(message(posix_id(&SpecValue::Int(-1), "uid")), "uid: out of range");
    assert_eq!(message(posix_id(&SpecValue::Nil, "uid")), "uid: expected Int");
    assert_eq!(message(spec_id(&text("1"), &root("a"))), "a: expected Int");
    assert_eq!(ace_u32(&SpecValue::Int(0xffff_ffff), &root("m")).unwrap(), u32::MAX);
    assert_eq!(message(ace_u8(&SpecValue::Int(256), &root("m"))), "m: out of range");
    assert!(ace_bool(&SpecValue::Bool(true), &root("b")).unwrap());
    assert_eq!(message(ace_bool(&SpecValue::Int(1), &root("b"))), "b: expected Bool");
    assert_eq!(access_mask_from_int(&SpecValue::Int(5)).unwrap().0, 5);
    assert_eq!(message(ace_flags_from_int(&SpecValue::Int(300))), "value: out of range");
}

#[test]
fn flags_are_named_by_symbols() {
    let both = SpecValue::Items(vec![sym("READ"), sym("EXECUTE")]);
    assert_eq!(coerce(FlagClass::Permission, &both), Some(5));
    assert_eq!(coerce(FlagClass::Permission, &sym("WRITE")), Some(2));
    assert_eq!(coerce(FlagClass::Permission, &sym("LIST")), None);
    let flags = SpecValue::Flags(FlagClass::Permission, 7);
    assert_eq!(coerce(FlagClass::Permission, &flags), Some(7));
    assert_eq!(coerce(FlagClass::AceFlags, &flags), None);
    assert_eq!(coerce(FlagClass::AceFlags, &SpecValue::Items(vec![])), Some(0));
}

#[test]
fn unix_entries_are_specified() {
    let path = root("ace");
    let entry = dict(vec![("user", SpecValue::Int(7)), ("permissions", sym("READ"))]);
    let ace = unix::coerce_ace(&entry, &path).unwrap();
    assert_eq!((ace.qualifier, ace.permissions), (PosixQualifier::User(7), 4));
    assert_eq!(ace.type_sym(), "USER");
    assert_eq!(ace.id().unwrap(), 7);
    let ace = unix::coerce_ace(&dict(vec![("mask", sym("WRITE"))]), &path).unwrap();
    assert_eq!(ace.qualifier, PosixQualifier::Mask);
    assert_eq!(message(ace.id()), "id");
    assert_eq!(
        unix::coerce_ace(&SpecValue::PosixAce(ace), &path).unwrap(),
        ace
    );
    let cases = [
        (SpecValue::Nil, "ace: expected security.unix.Ace or Dict"),
        (dict(vec![]), "ace: expected one qualifier"),
        (
            dict(vec![("mask", sym("READ")), ("user", SpecValue::Int(1))]),
            "ace: multiple keys name conflicting qualifiers",
        ),
        (
            dict(vec![("permissions", sym("READ")), ("mask", sym("READ"))]),
            "ace: permissions conflicts with qualifier value",
        ),
        (
            dict(vec![("mask", sym("READ")), ("permissions", sym("READ"))]),
            "ace: duplicate key `permissions`",
        ),
        (dict(vec![("who", SpecValue::Nil)]), "ace: unknown key `who`"),
        (
            dict(vec![("other", SpecValue::Nil)]),
            "ace.other: expected security.unix.Permission",
        ),
        (dict(vec![("user", SpecValue::Nil)]), "ace.user: expected Int"),
        (
            SpecValue::Dict(vec![(SpecValue::Int(1), SpecValue::Nil)]),
            "ace: keys must be symbols",
        ),
    ];
    for (value, expected) in cases {
        assert_eq!(message(unix::coerce_ace(&value, &path)), expected);
    }
}

#[test]
fn unix_lists_are_made_of_entries() {
    let ace = PosixAce {
        qualifier: PosixQualifier::Other,
        permissions: 1,
    };
    let items = vec![SpecValue::PosixAce(ace), dict(vec![("group", SpecValue::Int(3))])];
    let acl = unix::coerce_acl(&SpecValue::Items(items), &root("acl")).unwrap();
    assert_eq!(acl[0], ace);
    assert_eq!(acl[1].qualifier, PosixQualifier::Group(3));
    let bad = SpecValue::Items(vec![SpecValue::PosixAce(ace), SpecValue::Nil]);
    assert_eq!(
        message(unix::coerce_acl(&bad, &root("acl"))),
        "acl[1]: expected security.unix.Ace or Dict"
    );
    assert!(matches!(
        unix::coerce_acl(&SpecValue::Nil, &root("acl")),
        Err(Error::NotSupported)
    ));
    assert_eq!(unix::new_posix_acl(&vec![SpecValue::PosixAce(ace)]).unwrap(), [ace]);
    assert_eq!(
        message(unix::new_posix_acl(&vec![SpecValue::Nil])),
        "Acl: iterable must contain security.unix.Ace"
    );
    let args = vec![AclArg::Pos(SpecValue::PosixAce(ace)), AclArg::Key("x".to_string())];
    assert!(matches!(posix_acl_from_args(&args), Err(Error::UnexpectedKey(k)) if k == "x"));
    let problem = Some("missing mask".to_string());
    assert_eq!(
        message(unix::validated(vec![ace], &problem, &root("acl"))),
        "acl: missing mask"
    );
    assert_eq!(unix::validated(vec![ace], &None, &root("acl")).unwrap(), [ace]);
    assert!(matches!(create_posix_acl(None), SpecValue::Nil));
    assert!(matches!(create_posix_acl(Some(vec![ace])), SpecValue::PosixAcl(v) if v == [ace]));
}

#[test]
fn unix_entries_are_constructed() {
    let p = Some(SpecValue::Flags(FlagClass::Permission, 6));
    assert_eq!(
        unix::new_posix_ace(PosixQualifier::Mask, &p).unwrap().permissions,
        6
    );
    assert_eq!(unix::new_posix_ace(PosixQualifier::Mask, &None).unwrap().permissions, 0);
    assert_eq!(
        message(unix::new_posix_ace(PosixQualifier::Mask, &Some(sym("READ")))),
        "expected security.unix.Permission"
    );
    let ace = unix::new_numbered_ace(true, &SpecValue::Int(4), &p).unwrap();
    assert_eq!(ace.qualifier, PosixQualifier::Group(4));
    assert_eq!(
        message(unix::new_numbered_ace(false, &SpecValue::Nil, &None)),
        "uid: expected Int"
    );
    let none = || PosixAceArgs {
        user_obj: None,
        group_obj: None,
        mask: None,
        other: None,
        user: None,
        group: None,
        permissions: None,
    };
    assert_eq!(message(unix::ace_from_args(&none())), "ace: expected one qualifier");
    let mut args = none();
    args.user = Some(SpecValue::Int(1));
    args.permissions = Some(sym("READ"));
    assert_eq!(unix::ace_from_args(&args).unwrap().permissions, 4);
    args.mask = Some(sym("READ"));
    assert_eq!(
        message(unix::ace_from_args(&args)),
        "ace: multiple keys name conflicting qualifiers"
    );
    args.user = None;
    assert_eq!(
        message(unix::ace_from_args(&args)),
        "ace: permissions conflicts with qualifier value"
    );
    let info = UnixSecurityInfo {
        uid: 1,
        gid: 2,
        effective_uid: 3,
        effective_gid: 4,
        groups: vec![5, 6],
    };
    let id = create_identity(&info);
    assert_eq!((id.uid, id.gid, id.euid, id.egid), (1, 2, 3, 4));
    assert_eq!(id.groups, [5, 6]);
}

#[test]
fn nfs_entries_are_specified() {
    let path = root("ace");
    let entry = dict(vec![
        ("allow", dict(vec![("user", SpecValue::Int(9))])),
        ("mask", sym("READ_DATA")),
        ("flags", SpecValue::Items(vec![sym("FILE_INHERIT"), sym("INHERITED")])),
    ]);
    let ace = nfs4::coerce_ace(&entry, &path).unwrap();
    assert_eq!(
        ace,
        Nfs4Ace {
            ace_type: Nfs4AceType::Allow,
            qualifier: Nfs4Qualifier::User(9),
            mask: 1,
            flags: 0x81,
        }
    );
    assert_eq!((ace.type_sym(), ace.principal_sym()), ("ALLOW", "USER"));
    assert_eq!(ace.id().unwrap(), 9);
    let cases = [
        (dict(vec![]), "ace: expected one of allow, deny, audit, or alarm"),
        (dict(vec![("deny", sym("OWNER"))]), "ace.mask: required"),
        (
            dict(vec![("deny", sym("OWNER")), ("allow", sym("OWNER"))]),
            "ace: multiple keys name conflicting ACE types",
        ),
        (
            dict(vec![("deny", sym("NOBODY"))]),
            "ace.deny: expected OWNER, OWNING_GROUP, EVERYONE, user, or group",
        ),
        (dict(vec![("alarm", SpecValue::Nil)]), "ace.alarm: expected principal"),
        (dict(vec![("audit", dict(vec![]))]), "ace.audit: expected user or group"),
        (
            dict(vec![(
                "audit",
                dict(vec![("user", SpecValue::Int(1)), ("group", SpecValue::Int(1))]),
            )]),
            "ace.audit: multiple principal keys",
        ),
        (dict(vec![("mask", SpecValue::Nil)]), "ace.mask: expected security.nfs4.Mask"),
        (
            dict(vec![("flags", sym("X"))]),
            "ace.flags: expected security.nfs4.Flags",
        ),
        (SpecValue::Nil, "ace: expected security.nfs4.Ace or Dict"),
    ];
    for (value, expected) in cases {
        assert_eq!(message(nfs4::coerce_ace(&value, &path)), expected);
    }
    assert_eq!(nfs4_ace_type(&Some(sym("ALARM"))).unwrap(), Nfs4AceType::Alarm);
    assert!(matches!(nfs4_ace_type(&Some(sym("X"))), Err(Error::Value(_))));
    assert!(matches!(nfs4_ace_type(&None), Err(Error::Type(_))));
}

#[test]
fn nfs_entries_are_constructed_and_listed() {
    let mask = Some(SpecValue::Flags(FlagClass::Nfs4Mask, 3));
    let ace = nfs4::new_nfs4_ace(Nfs4Qualifier::Everyone, &Some(sym("DENY")), &mask, &None).unwrap();
    assert_eq!((ace.mask, ace.flags), (3, 0));
    assert_eq!(message(ace.id()), "id");
    assert_eq!(
        message(nfs4::new_nfs4_ace(Nfs4Qualifier::Owner, &Some(sym("DENY")), &None, &None)),
        "mask: expected security.nfs4.Mask"
    );
    let ace2 = nfs4::new_numbered_ace(true, &SpecValue::Int(1), &Some(sym("AUDIT")), &mask, &None).unwrap();
    assert_eq!(ace2.qualifier, Nfs4Qualifier::Group(1));
    let items = vec![SpecValue::Nfs4Ace(ace), SpecValue::Nfs4Ace(ace2)];
    assert_eq!(nfs4::new_nfs4_acl(&items).unwrap(), [ace, ace2]);
    assert_eq!(nfs4::coerce_acl(&SpecValue::Items(items), &root("a")).unwrap(), [ace, ace2]);
    assert!(matches!(create_nfs4_acl(Some(vec![ace])), SpecValue::Nfs4Acl(_)));
    let args = nfs4::Nfs4AceArgs {
        mask: sym("READ_ACL"),
        allow: Some(sym("OWNING_GROUP")),
        deny: None,
        audit: None,
        alarm: None,
        flags: None,
    };
    let ace = nfs4::ace_from_args(&args).unwrap();
    assert_eq!((ace.qualifier, ace.mask), (Nfs4Qualifier::OwningGroup, 0x20000));
}

#[test]
fn macos_entries_are_specified() {
    let path = root("ace");
    let uuid = SpecValue::Str(
        "u".to_string(),
        Readings {
            sid: Err(String::new()),
            uuid: Ok(77),
        },
    );
    let entry = dict(vec![("deny", uuid), ("mask", sym("DELETE"))]);
    let ace = macos::coerce_ace(&entry, &path).unwrap();
    assert_eq!(
        ace,
        MacosAce {
            ace_type: MacosAceType::Deny,
            principal: 77,
            mask: 16,
            flags: 0,
        }
    );
    assert_eq!(ace.type_sym(), "DENY");
    assert_eq!(
        message(macos::coerce_ace(&dict(vec![("allow", text("x"))]), &path)),
        "ace.allow: expected uuid.Uuid, Str, or Bin"
    );
    assert_eq!(
        message(macos::coerce_ace(&dict(vec![]), &path)),
        "ace: expected allow or deny"
    );
    let mask = Some(SpecValue::Flags(FlagClass::MacosMask, 2));
    let made = macos::new_macos_ace(MacosAceType::Allow, &SpecValue::Uuid(5), &mask, &None).unwrap();
    assert_eq!((made.principal, made.mask), (5, 2));
    assert_eq!(
        message(macos::new_macos_ace(MacosAceType::Allow, &text("5"), &mask, &None)),
        "principal: expected uuid.Uuid"
    );
    assert!(matches!(create_macos_acl(None), SpecValue::Nil));
    assert_eq!(
        macos::coerce_acl(&SpecValue::Items(vec![SpecValue::MacosAce(ace)]), &path).unwrap(),
        [ace]
    );
    assert_eq!(macos::new_macos_acl(&vec![SpecValue::MacosAce(ace)]).unwrap(), [ace]);
    assert_eq!(
        message(macos::new_macos_acl(&vec![SpecValue::Nil])),
        "Acl: iterable must contain security.macos.Ace"
    );
    let args = macos::MacosAceArgs {
        mask: sym("EXECUTE"),
        allow: Some(SpecValue::Uuid(1)),
        deny: Some(SpecValue::Uuid(2)),
        flags: None,
    };
    assert_eq!(
        message(macos::ace_from_args(&args)),
        "ace: multiple keys name conflicting ACE types"
    );
}

#[test]
fn unread_uuids_are_reported_as_read() {
    let unread = SpecValue::Str(
        "x".to_string(),
        Readings {
            sid: Err(String::new()),
            uuid: Err("invalid UUID".to_string()),
        },
    );
    assert!(matches!(macos::value_to_uuid(&unread), Err(Error::Value(m)) if m == "invalid UUID"));
    let args = macos::MacosAceArgs {
        mask: sym("READ_DATA"),
        allow: Some(unread),
        deny: None,
        flags: None,
    };
    assert!(matches!(macos::ace_from_args(&args), Err(Error::Value(m)) if m == "invalid UUID"));
    let args = macos::MacosAceArgs {
        mask: sym("READ_DATA"),
        allow: Some(SpecValue::Nil),
        deny: None,
        flags: None,
    };
    assert_eq!(message(macos::ace_from_args(&args)), "expected uuid.Uuid, Str, or Bin");
}

#[test]
fn ids_are_numbers_or_resolved() {
    let uid = PrincipalIdKind::Uid;
    assert_eq!(
        resolve_uid_or_gid_arg(&SpecValue::Int(5), OperatingSystem::Linux, uid).unwrap(),
        IdQuery::Number(5)
    );
    let query = PrincipalQuery {
        id: PrincipalId::Uuid(9),
        want: PrincipalIdKind::Gid,
    };
    assert_eq!(
        resolve_uid_or_gid_arg(&SpecValue::Uuid(9), OperatingSystem::Macos, PrincipalIdKind::Gid)
            .unwrap(),
        IdQuery::Resolve(query)
    );
    assert!(matches!(
        resolve_uid_or_gid_arg(&SpecValue::Uuid(9), OperatingSystem::Linux, uid),
        Err(Error::NotSupported)
    ));
    assert!(matches!(
        resolve_uid_or_gid_arg(&SpecValue::Int(-1), OperatingSystem::Linux, uid),
        Err(Error::Overflow)
    ));
    assert_eq!(resolved_number(PrincipalId::Uid(4)).unwrap(), 4);
    assert_eq!(resolved_number(PrincipalId::Gid(5)).unwrap(), 5);
    assert!(matches!(resolved_number(PrincipalId::Other), Err(Error::NotSupported)));
}

#[test]
fn uuids_belong_to_macos() {
    let macos = OperatingSystem::Macos;
    assert_eq!(
        uuid_for_uid(&SpecValue::Int(501), macos).unwrap(),
        PrincipalQuery {
            id: PrincipalId::Uid(501),
            want: PrincipalIdKind::Uuid,
        }
    );
    assert_eq!(uuid_for_gid(&SpecValue::Int(20), macos).unwrap().id, PrincipalId::Gid(20));
    assert!(matches!(uuid_for_gid(&SpecValue::Int(-1), macos), Err(Error::Overflow)));
    assert!(matches!(
        uuid_for_uid(&SpecValue::Nil, OperatingSystem::Linux),
        Err(Error::NotSupported)
    ));
    assert!(matches!(
        uuid_for_gid(&SpecValue::Int(1), OperatingSystem::FreeBsd),
        Err(Error::NotSupported)
    ));
    assert_eq!(
        id_for_uuid(&SpecValue::Uuid(7), macos).unwrap(),
        PrincipalQuery {
            id: PrincipalId::Uuid(7),
            want: PrincipalIdKind::Uid,
        }
    );
    assert!(matches!(
        id_for_uuid(&SpecValue::Uuid(7), OperatingSystem::Linux),
        Err(Error::NotSupported)
    ));
    assert_eq!(message(id_for_uuid(&SpecValue::Int(7), macos)), "expected uuid.Uuid, Str, or Bin");
    assert_eq!(tagged_id(PrincipalId::Uid(3)).unwrap(), ("UID", 3));
    assert_eq!(tagged_id(PrincipalId::Gid(4)).unwrap(), ("GID", 4));
    assert!(matches!(tagged_id(PrincipalId::Other), Err(Error::NotSupported)));
}

fn target(os: OperatingSystem, family: OperatingSystemFamily) -> Target {
    Target {
        os,
        family,
        arch: Architecture::X86_64,
        is_wine: None,
        logical_cpus: 1,
    }
}

#[test]
fn names_and_numbers_are_looked_up_on_unix() {
    let linux = target(OperatingSystem::Linux, OperatingSystemFamily::Unix);
    let windows = target(OperatingSystem::Windows, OperatingSystemFamily::Windows);
    assert_eq!(lookup::user_name(&SpecValue::Int(0), &linux).unwrap(), IdQuery::Number(0));
    assert_eq!(lookup::group_name(&SpecValue::Int(7), &linux).unwrap(), IdQuery::Number(7));
    assert!(matches!(lookup::user_name(&SpecValue::Nil, &windows), Err(Error::NotSupported)));
    assert!(matches!(lookup::group_name(&SpecValue::Nil, &windows), Err(Error::NotSupported)));
    let mac = target(OperatingSystem::Macos, OperatingSystemFamily::Unix);
    assert!(matches!(
        lookup::group_name(&SpecValue::Uuid(1), &mac),
        Ok(IdQuery::Resolve(q)) if q.want == PrincipalIdKind::Gid
    ));
    assert_eq!(lookup::user_id(&text("root"), &linux).unwrap(), "root");
    assert_eq!(lookup::group_id(&text("wheel"), &linux).unwrap(), "wheel");
    assert_eq!(message(lookup::user_id(&SpecValue::Int(1), &linux)), "user_id: expected Str");
    assert_eq!(message(lookup::group_id(&SpecValue::Nil, &linux)), "group_id: expected Str");
    assert!(matches!(lookup::user_id(&SpecValue::Nil, &windows), Err(Error::NotSupported)));
    assert!(matches!(lookup::group_id(&SpecValue::Nil, &windows), Err(Error::NotSupported)));
}

#[test]
fn the_current_user_is_found_by_family() {
    let unix = SecurityInfo::Unix(UnixSecurityInfo {
        uid: 10,
        gid: 20,
        effective_uid: 0,
        effective_gid: 0,
        groups: vec![20],
    });
    assert!(matches!(user_query(OperatingSystemFamily::Unix, &unix), UserQuery::Uid(10)));
    assert_eq!(lookup::id(&unix).unwrap().euid, 0);
    assert!(matches!(token_info(&unix), Err(Error::NotSupported)));
    let windows = SecurityInfo::Windows(WindowsTokenInfo {
        is_elevated: false,
        user_sid: sid(5, &[18]),
        owner_sid: sid(5, &[2]),
        primary_group_sid: sid(5, &[3]),
        groups: vec![],
        logon_sid: Some(sid(5, &[5])),
    });
    assert!(matches!(
        user_query(OperatingSystemFamily::Windows, &windows),
        UserQuery::Sid(s) if s.same(&sid(5, &[18]))
    ));
    assert!(token_info(&windows).unwrap().logon_sid.unwrap().same(&sid(5, &[5])));
    assert!(matches!(lookup::id(&windows), Err(Error::NotSupported)));
}

#[test]
fn lists_of_any_kind_are_resolved() {
    assert_eq!(acl_kind_sym(&None).unwrap(), AclKind::Posix);
    assert_eq!(acl_kind_sym(&Some(sym("NFS4"))).unwrap(), AclKind::Nfs4);
    assert!(matches!(acl_kind_sym(&Some(sym("X"))), Err(Error::Value(_))));
    assert!(matches!(acl_kind_sym(&Some(SpecValue::Nil)), Err(Error::Type(_))));
    let path = root("set_acl");
    let input = resolve_acl_input(&SpecValue::Nil, &None, &path).unwrap();
    assert!(input.kind == AclKind::Posix && input.acl.is_none());
    let list = create_any_acl(Some(AnyAcl::Nfs4(vec![])));
    let input = resolve_acl_input(&list, &None, &path).unwrap();
    assert!(input.kind == AclKind::Nfs4 && matches!(input.acl, Some(AnyAcl::Nfs4(_))));
    assert_eq!(
        message(resolve_acl_input(&list, &Some(sym("MACOS")), &path)),
        "set_acl: ACL kind does not match kind:"
    );
    let spec = SpecValue::Items(vec![]);
    assert_eq!(
        message(resolve_acl_input(&spec, &None, &path)),
        "set_acl: kind: is required for an ACL specification"
    );
    let input = resolve_acl_input(&spec, &Some(sym("POSIX")), &path).unwrap();
    assert!(input.unchecked);
    assert!(matches!(create_any_acl(Some(AnyAcl::Other)), SpecValue::Nil));
}

#[test]
fn identifiers_are_named_and_read() {
    let sids = WellKnownSids::new();
    let admins = sids.get("BUILTIN_ADMINISTRATORS").unwrap();
    assert!(admins.same(&sid(5, &[32, 544])));
    assert!(sids.get("ADMINS").is_none());
    assert!(sid_from_sym("EVERYONE", &root("x")).unwrap().same(&sid(1, &[0])));
    assert_eq!(
        message(sid_from_sym("ADMINS", &root("x"))),
        "x: `ADMINS` does not name a well-known SID"
    );
    assert_eq!(message(coerce_sid(&text("S-1"), &root("x"))), "x: invalid SID");
    let good = SpecValue::Bin(
        vec![1],
        Readings {
            sid: Ok(sid(5, &[19])),
            uuid: Err(String::new()),
        },
    );
    assert!(coerce_sid(&good, &root("x")).unwrap().same(&sid(5, &[19])));
    assert_eq!(
        message(coerce_sid(&SpecValue::Int(1), &root("x"))),
        "x: expected Str, Bin, or Sym"
    );
    assert!(coerce_sid_option(&SpecValue::Nil, &root("x")).unwrap().is_none());
    assert!(coerce_sid_non_str(&text("name"), &root("x")).unwrap().is_none());
    let value = windows_sid(sid(5, &[20]));
    assert!(as_windows_sid(&value).unwrap().same(&sid(5, &[20])));
    assert!(as_windows_sid(&SpecValue::Nil).is_none());
    assert_eq!(create_sid(sid(5, &[21, 7])).sub_authorities, [21, 7]);
    assert_eq!(sid(16, &[]).authority_sym(), Some("MANDATORY_LABEL"));
    assert_eq!(sid(99, &[]).authority_sym(), None);
    assert!(matches!(lookup_arg(&text("me"), true), Ok(Lookup::Name(n)) if n == "me"));
    assert!(matches!(lookup_arg(&value, true), Ok(Lookup::Sid(_))));
    assert!(matches!(lookup_arg(&value, false), Err(Error::NotSupported)));
    assert_eq!(
        message(lookup_arg(&SpecValue::Nil, true)),
        "SidName.lookup: expected Sid, Str, Sym, or Bin"
    );
}

#[test]
fn windows_entries_are_specified() {
    let path = root("acl[0]");
    let entry = dict(vec![
        ("audit", sym("EVERYONE")),
        ("mask", SpecValue::Int(5)),
        ("failed", SpecValue::Bool(true)),
        ("flags", sym("INHERITED")),
        ("callback", SpecValue::Bool(true)),
        ("application_data", bin(&[9])),
    ]);
    match coerce_ace(&entry, &path).unwrap() {
        AceItem::Request(r) => {
            assert_eq!(
                r.action,
                Action::Audit {
                    successful: false,
                    failed: true
                }
            );
            assert!(r.sid.same(&sid(1, &[0])));
            assert_eq!((r.mask, r.flags, r.callback), (5, Some(0x10), true));
            assert_eq!(r.application_data, Some(vec![9]));
        }
        other => panic!("{other:?}"),
    }
    let packed = SpecValue::Ace(ace_record(AceType::AccessAllowed, 0, &[1, 2]));
    assert!(matches!(coerce_ace(&packed, &path), Ok(AceItem::Packed(b)) if b == [1, 2]));
    let everyone = || ("allow", sym("EVERYONE"));
    let mask = || ("mask", sym("GENERIC_ALL"));
    let cases = [
        (dict(vec![mask()]), "acl[0]: expected one of allow, deny, audit"),
        (dict(vec![everyone()]), "acl[0]: missing key `mask`"),
        (
            dict(vec![everyone(), ("deny", sym("EVERYONE")), mask()]),
            "acl[0]: multiple keys name conflicting ACE types",
        ),
        (
            dict(vec![everyone(), mask(), ("failed", SpecValue::Bool(true))]),
            "acl[0]: successful and failed apply only to audit",
        ),
        (
            dict(vec![("audit", sym("EVERYONE")), mask()]),
            "acl[0]: audit requires successful or failed",
        ),
        (dict(vec![everyone(), everyone()]), "acl[0]: duplicate key `allow`"),
        (dict(vec![("who", SpecValue::Nil)]), "acl[0]: unknown key `who`"),
        (
            dict(vec![("application_data", SpecValue::Nil)]),
            "acl[0].application_data: expected Bin",
        ),
        (dict(vec![("callback", SpecValue::Nil)]), "acl[0].callback: expected Bool"),
        (dict(vec![("object_type", text("x"))]), "invalid UUID"),
        (
            dict(vec![("mask", SpecValue::Nil)]),
            "acl[0].mask: expected security.windows.AccessMask (or a subtype), Int, Sym, or iterable of Sym",
        ),
        (
            dict(vec![("flags", SpecValue::Nil)]),
            "acl[0].flags: expected security.windows.AceFlags, Int, Sym, or iterable of Sym",
        ),
        (SpecValue::Nil, "acl[0]: expected a dictionary"),
        (
            SpecValue::Dict(vec![(SpecValue::Int(0), SpecValue::Nil)]),
            "acl[0]: keys must be symbols",
        ),
    ];
    for (value, expected) in cases {
        assert_eq!(message(coerce_ace(&value, &path)), expected);
    }
}

#[test]
fn windows_entries_are_constructed() {
    let mask = || SpecValue::Flags(FlagClass::AccessMask, 7);
    let mut args = ace_args(mask());
    assert_eq!(message(new_ace(&args)), "Ace: expected one of allow, deny, audit");
    args.deny = Some(SpecValue::Sid(sid(5, &[18])));
    args.object_type = Some(SpecValue::Guid(3));
    let rigid = new_ace(&args).unwrap();
    let declared = ace_from_args(&args, &root("ace")).unwrap();
    assert_eq!((rigid.action, rigid.mask, rigid.object_type), (Action::Deny, 7, Some(3)));
    assert_eq!(
        (declared.action, declared.mask, declared.object_type),
        (Action::Deny, 7, Some(3))
    );
    args.callback = Some(SpecValue::Nil);
    assert_eq!(message(new_ace(&args)), "Ace.callback: expected Bool");
    args.callback = None;
    args.failed = Some(SpecValue::Bool(true));
    assert_eq!(message(new_ace(&args)), "Ace: successful and failed apply only to audit");
    let mut args = ace_args(sym("DELETE"));
    args.allow = Some(sym("EVERYONE"));
    assert_eq!(message(new_ace(&args)), "Ace.allow: expected security.windows.Sid");
    assert_eq!(ace_from_args(&args, &root("ace")).unwrap().mask, 0x10000);
    let mut args = ace_args(SpecValue::Rights(Box::new(SpecValue::Int(12))));
    args.allow = Some(SpecValue::Sid(sid(5, &[18])));
    assert_eq!(message(new_ace(&args)), "Ace.mask: expected security.windows.AccessMask");
    assert_eq!(ace_from_args(&args, &root("ace")).unwrap().mask, 12);
}

#[test]
fn windows_lists_are_specified() {
    let entry = || dict(vec![("allow", sym("EVERYONE")), ("mask", SpecValue::Int(1))]);
    let spec = SpecValue::Dict(vec![
        (SpecValue::Int(0), entry()),
        (sym("revision"), sym("DIRECTORY_SERVICE")),
        (SpecValue::Int(1), entry()),
    ]);
    let (item, error) = coerce_acl(&spec, &root("dacl"));
    assert!(error.is_none());
    match item {
        AclItem::Plan(plan) => {
            assert_eq!(plan.aces.len(), 2);
            assert_eq!(plan.revision, Some(AclRevision::DirectoryService));
        }
        other => panic!("{other:?}"),
    }
    let wrong = |pairs| error_message(coerce_acl(&SpecValue::Dict(pairs), &root("dacl")).1.unwrap());
    assert_eq!(
        wrong(vec![(SpecValue::Int(0), entry()), (SpecValue::Int(-5), entry())]),
        "dacl: expected entry 1, found -5"
    );
    assert_eq!(
        wrong(vec![(sym("size"), SpecValue::Nil)]),
        "dacl: unknown key `size`; expected revision"
    );
    assert_eq!(
        wrong(vec![(SpecValue::Nil, SpecValue::Nil)]),
        "dacl: keys must be symbols or entry indices"
    );
    let (item, error) = coerce_acl(
        &SpecValue::Items(vec![entry(), SpecValue::Nil, entry()]),
        &root("dacl"),
    );
    assert_eq!(error_message(error.unwrap()), "dacl[1]: expected a dictionary");
    assert!(matches!(item, AclItem::Plan(plan) if plan.aces.len() == 1));
    let (item, _) = coerce_acl(&SpecValue::Acl(acl_record(&[4])), &root("dacl"));
    assert!(matches!(item, AclItem::Packed(b) if b == [4]));
    assert!(matches!(
        coerce_acl(&SpecValue::Nil, &root("dacl")).1,
        Some(Error::NotSupported)
    ));
}

#[test]
fn windows_lists_are_constructed() {
    assert_eq!(acl_revision(&SpecValue::Int(2), &root("r")).unwrap(), AclRevision::Basic);
    assert_eq!(acl_revision(&SpecValue::Int(4), &root("r")).unwrap(), AclRevision::DirectoryService);
    assert_eq!(acl_revision(&SpecValue::Int(9), &root("r")).unwrap(), AclRevision::Unknown(9));
    assert_eq!(
        message(acl_revision(&sym("X"), &root("r"))),
        "r: expected BASIC or DIRECTORY_SERVICE"
    );
    assert_eq!(revision_sym(AclRevision::Basic), Some("BASIC"));
    let ace = || SpecValue::Ace(ace_record(AceType::AccessAllowed, 0, &[1]));
    let p = new_acl(&None, &vec![ace(), ace()]);
    assert!(p.error.is_none() && p.plan.aces.len() == 2);
    let p = new_acl(&None, &vec![SpecValue::Nil]);
    assert_eq!(
        error_message(p.error.unwrap()),
        "Acl: iterable must contain security.windows.Ace"
    );
    let args = vec![AclArg::Pos(ace()), AclArg::Key("x".to_string())];
    let p = acl_from_args(&Some(sym("BASIC")), &args, &root("acl"));
    assert_eq!(p.plan.aces.len(), 1);
    assert_eq!(p.plan.revision, Some(AclRevision::Basic));
    assert_eq!(error_message(p.error.unwrap()), "acl: unknown key `x`");
}

#[test]
fn descriptors_are_specified() {
    let pairs = vec![
        (sym("owner"), sym("LOCAL_SYSTEM")),
        (sym("group"), SpecValue::Nil),
        (sym("sacl"), SpecValue::Items(vec![])),
        (sym("dacl"), SpecValue::Nil),
        (sym("dacl_protected"), SpecValue::Bool(true)),
        (sym("rm_control"), SpecValue::Int(3)),
    ];
    let p = sec_desc_components_from_spec(&pairs, &root("sd"));
    assert!(p.error.is_none());
    assert_eq!(p.order, [AclSlot::Sacl]);
    let update = p.components.into_update();
    assert!(update.owner.unwrap().unwrap().same(&sid(5, &[18])));
    assert!(matches!(update.group, Some(None)));
    assert!(matches!(update.dacl, Some(None)));
    assert!(matches!(update.sacl, Some(Some(_))));
    assert_eq!(update.controls[Control::DaclProtected.index()], Some(true));
    assert_eq!(update.controls[Control::SaclProtected.index()], None);
    assert_eq!(update.rm_control, Some(Some(3)));
    let error = |pairs| {
        error_message(
            sec_desc_components_from_spec(&pairs, &root("sd"))
                .error
                .unwrap(),
        )
    };
    assert_eq!(
        error(vec![(sym("owner"), SpecValue::Nil), (sym("owner"), SpecValue::Nil)]),
        "sd: duplicate key `owner`"
    );
    assert_eq!(
        error(vec![
            (sym("sacl_present"), SpecValue::Bool(true)),
            (sym("sacl_present"), SpecValue::Bool(true))
        ]),
        "sd: duplicate key `sacl_present`"
    );
    assert_eq!(error(vec![(sym("x"), SpecValue::Nil)]), "sd: unknown key `x`");
    assert_eq!(
        error(vec![(sym("dacl_present"), SpecValue::Nil)]),
        "sd.dacl_present: expected Bool"
    );
    assert_eq!(
        error(vec![(sym("rm_control"), SpecValue::Int(256))]),
        "sd.rm_control: out of range"
    );
    assert_eq!(find_control("owner_defaulted"), Some(Control::OwnerDefaulted));
}

#[test]
fn descriptors_come_from_arguments() {
    let path = root("sec_desc");
    let r = sec_desc_from_args(&desc_args(), &path);
    assert_eq!(
        error_message(r.error.unwrap()),
        "sec_desc: expected a security descriptor or component options"
    );
    let mut args = desc_args();
    args.controls[2] = Some(SpecValue::Bool(true));
    let r = sec_desc_from_args(&args, &path);
    assert!(matches!(r.base, Some(Base::Empty)) && r.error.is_none());
    assert!(!r.parts.components.is_empty());
    args.value = Some(bin(&[1, 2]));
    let r = sec_desc_from_args(&args, &path);
    assert!(matches!(r.base, Some(Base::Packet(b)) if b == [1, 2]));
    args.owner = Some(SpecValue::Int(1));
    let r = sec_desc_from_args(&args, &path);
    assert_eq!(
        error_message(r.parts.error.unwrap()),
        "sec_desc.owner: expected Str, Bin, or Sym"
    );
    let given = create_sec_desc(empty_sec_desc());
    assert!(matches!(coerce_sec_desc(&given, &path), (Some(Base::Given), None)));
    let (_, error) = sec_desc_from_value(&SpecValue::Nil, "sd");
    assert_eq!(error_message(error.unwrap()), "sd: expected a dictionary");
    assert!(SecDescComponents::new().is_empty());
}

#[test]
fn descriptors_are_constructed() {
    let mut args = desc_args();
    args.value = Some(bin(&[7]));
    assert!(matches!(new_sec_desc(&args), Ok(NewSecDesc::Packet(b)) if b == [7]));
    args.owner = Some(SpecValue::Nil);
    assert_eq!(
        message(new_sec_desc(&args)),
        "SecDesc: packet form does not accept component options"
    );
    args.value = None;
    args.dacl = Some(SpecValue::Acl(acl_record(&[5])));
    args.controls[0] = Some(SpecValue::Bool(false));
    match new_sec_desc(&args).unwrap() {
        NewSecDesc::Components(c) => {
            assert!(matches!(c.owner, NullableComponent::Clear));
            assert!(matches!(c.dacl, NullableComponent::Given(AclItem::Packed(b)) if b == [5]));
            assert_eq!(c.controls[0], Some(false));
        }
        other => panic!("{other:?}"),
    }
    args.value = Some(SpecValue::Nil);
    args.owner = None;
    args.dacl = None;
    args.controls[0] = None;
    assert_eq!(message(new_sec_desc(&args)), "SecDesc: expected Bin");
    args.sacl = Some(sym("x"));
    assert_eq!(
        message(rigid_components(&args)),
        "sacl: expected security.windows.Acl or nil"
    );
    assert_eq!(
        message(downcast_sid_component(&Some(sym("x")), "owner")),
        "owner: expected security.windows.Sid or nil"
    );
    assert!(matches!(
        downcast_acl_component(&None, "dacl"),
        Ok(NullableComponent::Unspecified)
    ));
    assert_eq!(parse_bool_component(&None, "x").unwrap(), None);
    assert_eq!(
        message(parse_bool_component(&Some(SpecValue::Nil), "x")),
        "x: expected Bool"
    );
    assert!(NullableComponent::from_option(Some(1)).is_unspecified() == false);
}

#[test]
fn descriptors_show_what_was_loaded() {
    let mut d: SecDescRecord = empty_sec_desc();
    assert_eq!(message(d.owner()), "owner");
    assert_eq!(message(d.control(Control::DaclPresent)), "dacl_present");
    assert_eq!(message(d.dacl()), "dacl");
    assert_eq!(message(d.rm_control()), "rm_control");
    d.mask = 0xf;
    d.owner = Some(sid(5, &[18]));
    assert!(d.owner().unwrap().same(&sid(5, &[18])));
    assert_eq!(message(d.group()), "group");
    assert!(!d.control(Control::DaclPresent).unwrap());
    d.control = 0x4 | 0x10 | 0x4000;
    d.rm_control = 9;
    assert!(d.control(Control::SaclPresent).unwrap());
    assert!(d.dacl().unwrap().is_none());
    d.sacl = Some(acl_record(&[1]));
    assert_eq!(d.sacl().unwrap().unwrap().packet, [1]);
    assert!(d.rm_control_valid());
    assert_eq!(d.rm_control().unwrap(), 9);
    d.dacl = Some(acl_record(&[2]));
    let in_desc = create_acl(AclSlot::Dacl);
    assert_eq!(with_acl(&in_desc, &d).packet, [2]);
    let owned = AclAnnex::Owned(acl_record(&[3]));
    let acl = with_acl(&owned, &d);
    assert_eq!(acl.packet, [3]);
    assert_eq!(with_ace(&AceAnnex::InAcl(0), acl).packet, [1]);
}

#[test]
fn entries_show_their_parts() {
    let mut ace = ace_record(AceType::SystemAudit, 0x41, &[1]);
    assert_eq!(ace.type_sym(), "SYSTEM_AUDIT");
    assert!(ace_is_audit(ace.ace_type));
    assert!(ace.successful_access().unwrap());
    assert!(!ace.failed_access().unwrap());
    assert!(ace_flag(&ace, 1) && !ace_flag(&ace, 2));
    assert_eq!(message(ace.trust_protected_filter()), "trust_protected_filter");
    assert_eq!(message(ace.object_type()), "object_type");
    assert_eq!(message(ace.inherited_object_type()), "inherited_object_type");
    assert_eq!(message(ace.object_flags()), "object_flags");
    assert_eq!(message(ace.application_data()), "application_data");
    assert_eq!(ace.mask().unwrap(), 3);
    assert!(ace.sid().unwrap().same(&sid(5, &[18])));
    ace.ace_type = AceType::SystemAccessFilter;
    assert!(ace.trust_protected_filter().unwrap());
    assert_eq!(message(ace.successful_access()), "successful_access");
    assert_eq!(message(ace.failed_access()), "failed_access");
    ace.object_flags = Some(1);
    ace.object_type = Some(6);
    assert_eq!(ace.object_type().unwrap(), Some(6));
    assert_eq!(ace.inherited_object_type().unwrap(), None);
    ace.mask = None;
    ace.sid = None;
    assert_eq!(message(ace.mask()), "mask");
    assert_eq!(message(ace.sid()), "sid");
}

#[test]
fn accounts_and_tokens_are_shown() {
    let name = create_sid_name(
        sid(5, &[18]),
        "SYSTEM".to_string(),
        "NT AUTHORITY".to_string(),
        SidNameUse::WellKnownGroup,
    );
    assert_eq!(name.qualified_name(), "NT AUTHORITY\\SYSTEM");
    assert_eq!(name.kind_sym(), "WELL_KNOWN_GROUP");
    let plain = create_sid_name(sid(1, &[0]), "Everyone".to_string(), String::new(), SidNameUse::Group);
    assert_eq!(plain.qualified_name(), "Everyone");
    let group = |n: u32, attributes: u32| TokenGroup {
        sid: sid(5, &[n]),
        attributes,
    };
    assert!(group(11, 7).flag(0x4) && !group(11, 7).flag(0xc000_0000));
    let info = WindowsTokenInfo {
        is_elevated: true,
        user_sid: sid(5, &[1]),
        owner_sid: sid(5, &[2]),
        primary_group_sid: sid(5, &[3]),
        groups: vec![group(11, 7), group(15, 0xf)],
        logon_sid: None,
    };
    let token = create_token_info(&info);
    assert!(token.is_elevated && token.logon_sid.is_none());
    assert!(token.owner_sid.same(&sid(5, &[2])));
    assert!(token.primary_group_sid.same(&sid(5, &[3])));
    assert!(token.user_sid.same(&sid(5, &[1])));
    assert_eq!(token.group_count(), 2);
    assert!(token.group(0).sid.same(&sid(5, &[11])) && token.group(0).attributes == 7);
    assert!(token.group(1).sid.same(&sid(5, &[15])) && token.group(1).attributes == 0xf);
}

#[test]
fn outside_problems_are_reported() {
    let path = root("sec_desc");
    let amended = || {
        let mut desc = empty_sec_desc();
        desc.rm_control = 9;
        desc
    };
    let made = amend_outcome(empty_sec_desc(), false, Ok(amended()), &path).unwrap();
    assert_eq!(made.rm_control, 9);
    let kept = amend_outcome(empty_sec_desc(), true, Ok(amended()), &path).unwrap();
    assert_eq!(kept.rm_control, 0);
    assert!(amend_outcome(empty_sec_desc(), true, Err("bad".to_string()), &path).is_ok());
    assert!(matches!(
        amend_outcome(empty_sec_desc(), false, Err("bad".to_string()), &path),
        Err(Error::Value(m)) if m == "sec_desc: bad"
    ));
    assert_eq!(root("Ace").packed(Ok(3)).unwrap(), 3);
    assert_eq!(message(root("Ace").packed::<u8>(Err("too long".to_string()))), "Ace: too long");
    assert_eq!(constructed(Ok(4)).unwrap(), 4);
    assert!(matches!(
        constructed::<u8>(Err("too long".to_string())),
        Err(Error::Value(m)) if m == "too long"
    ));
    assert!(unix::posix_acl_outcome(vec![], None).unwrap().is_empty());
    assert!(matches!(
        unix::posix_acl_outcome(vec![], Some("no mask".to_string())),
        Err(Error::Value(m)) if m == "no mask"
    ));
}

#[test]
fn identifiers_are_their_values() {
    let a = sid(5, &[18]);
    assert!(a.eq_to(&SpecValue::Sid(sid(5, &[18]))).unwrap());
    assert!(!a.eq_to(&SpecValue::Sid(sid(5, &[19]))).unwrap());
    assert!(matches!(a.eq_to(&SpecValue::Nil), Err(Error::NotSupported)));
    assert!(a.lookup(true).unwrap().same(&a));
    assert!(matches!(a.lookup(false), Err(Error::NotSupported)));
    assert_eq!(a.debug("S-1-5-18"), "<security.windows.Sid S-1-5-18>");
}
