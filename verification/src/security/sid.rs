//! Windows security identifiers.

use vstd::prelude::*;
use crate::error::{outcome, Error, ErrorView};
use crate::security::model::{copy_list, Sid, SidView, SpecValue};
use crate::security::path::{reported, SpecPath};
use crate::text::str_eq;

verus! {

broadcast use vstd::string::group_string_axioms;

/// An identifier as a program sees it, with the numbers under its authority.
#[derive(Debug)]
pub struct SidObject {
    pub sid: Sid,
    pub sub_authorities: Vec<u32>,
}

/// An identifier as a program sees it.
pub fn create_sid(sid: Sid) -> (object: SidObject)
    ensures
        object.sid == sid,
        object.sub_authorities@ == sid.sub_authorities@,
{
    let sub_authorities = copy_list(&sid.sub_authorities);
    SidObject { sid, sub_authorities }
}

/// The identifier that a value is, if it is one.
pub open spec fn as_sid(value: SpecValue) -> Option<SidView> {
    match value {
        SpecValue::Sid(sid) => Some(sid@),
        _ => None,
    }
}

/// An optional identifier by its content.
pub open spec fn sid_option(sid: Option<Sid>) -> Option<SidView> {
    match sid {
        Some(sid) => Some(sid@),
        None => None,
    }
}

/// The identifier that a value is, if it is one.
pub fn as_windows_sid(value: &SpecValue) -> (r: Option<Sid>)
    ensures
        sid_option(r) == as_sid(*value),
{
    match value {
        SpecValue::Sid(sid) => Some(sid.copy()),
        _ => None,
    }
}

/// The value that an identifier is.
pub fn windows_sid(sid: Sid) -> (value: SpecValue)
    ensures
        value == SpecValue::Sid(sid),
{
    SpecValue::Sid(sid)
}

/// The identifiers that are the same on every Windows installation: their
/// names, their authorities, and the numbers under these, as Windows defines
/// them.
pub open spec fn well_known() -> Seq<(Seq<char>, u64, Seq<u32>)> {
    seq![
        ("NULL"@, 0, seq![0]),
        ("EVERYONE"@, 1, seq![0]),
        ("LOCAL"@, 2, seq![0]),
        ("CONSOLE_LOGON"@, 2, seq![1]),
        ("CREATOR_OWNER"@, 3, seq![0]),
        ("CREATOR_GROUP"@, 3, seq![1]),
        ("OWNER_RIGHTS"@, 3, seq![4]),
        ("DIALUP"@, 5, seq![1]),
        ("NETWORK"@, 5, seq![2]),
        ("BATCH"@, 5, seq![3]),
        ("INTERACTIVE"@, 5, seq![4]),
        ("SERVICE"@, 5, seq![6]),
        ("ANONYMOUS"@, 5, seq![7]),
        ("PRINCIPAL_SELF"@, 5, seq![10]),
        ("AUTHENTICATED_USERS"@, 5, seq![11]),
        ("RESTRICTED_CODE"@, 5, seq![12]),
        ("REMOTE_INTERACTIVE_LOGON"@, 5, seq![14]),
        ("THIS_ORGANIZATION"@, 5, seq![15]),
        ("LOCAL_SYSTEM"@, 5, seq![18]),
        ("LOCAL_SERVICE"@, 5, seq![19]),
        ("NETWORK_SERVICE"@, 5, seq![20]),
        ("LOCAL_ACCOUNT"@, 5, seq![113]),
        ("LOCAL_ACCOUNT_ADMINISTRATOR"@, 5, seq![114]),
        ("BUILTIN_ADMINISTRATORS"@, 5, seq![32, 544]),
        ("BUILTIN_USERS"@, 5, seq![32, 545]),
        ("BUILTIN_GUESTS"@, 5, seq![32, 546]),
        ("BUILTIN_POWER_USERS"@, 5, seq![32, 547]),
        ("BUILTIN_BACKUP_OPERATORS"@, 5, seq![32, 551]),
        ("BUILTIN_REMOTE_DESKTOP_USERS"@, 5, seq![32, 555]),
        ("BUILTIN_REMOTE_MANAGEMENT_USERS"@, 5, seq![32, 580]),
        ("ALL_APPLICATION_PACKAGES"@, 15, seq![2, 1]),
        ("ALL_RESTRICTED_APPLICATION_PACKAGES"@, 15, seq![2, 2]),
        ("UNTRUSTED_LABEL"@, 16, seq![0]),
        ("LOW_LABEL"@, 16, seq![4096]),
        ("MEDIUM_LABEL"@, 16, seq![8192]),
        ("MEDIUM_PLUS_LABEL"@, 16, seq![8448]),
        ("HIGH_LABEL"@, 16, seq![12288]),
        ("SYSTEM_LABEL"@, 16, seq![16384]),
    ]
}

/// The identifier of the first entry with the name.
pub open spec fn named_in(table: Seq<(Seq<char>, u64, Seq<u32>)>, name: Seq<char>) -> Option<SidView>
    decreases table.len(),
{
    if table.len() == 0 {
        None
    } else if table[0].0 == name {
        Some(SidView { authority: table[0].1, sub_authorities: table[0].2 })
    } else {
        named_in(table.skip(1), name)
    }
}

/// The identifier that a name stands for on every Windows installation.
pub open spec fn well_known_sid(name: Seq<char>) -> Option<SidView> {
    named_in(well_known(), name)
}

/// The identifiers that are the same on every Windows installation, by name.
#[derive(Debug)]
pub struct WellKnownSids {
    entries: Vec<(&'static str, u64, Vec<u32>)>,
}

/// Whether a table has the content `table`.
pub open spec fn tabulates(
    v: Seq<(&'static str, u64, Vec<u32>)>,
    table: Seq<(Seq<char>, u64, Seq<u32>)>,
) -> bool {
    &&& v.len() == table.len()
    &&& forall|i: int|
        0 <= i < v.len() ==> (#[trigger] v[i]).0@ == table[i].0 && v[i].1 == table[i].1 && v[i].2@
            == table[i].2
}

/// An entry with one number under the authority.
fn one(name: &'static str, authority: u64, a: u32) -> (e: (&'static str, u64, Vec<u32>))
    ensures
        e.0 == name,
        e.1 == authority,
        e.2@ == seq![a],
{
    let v: Vec<u32> = vec![a];
    assert(v@ =~= seq![a]);
    (name, authority, v)
}

/// An entry with two numbers under the authority.
fn two(name: &'static str, authority: u64, a: u32, b: u32) -> (e: (&'static str, u64, Vec<u32>))
    ensures
        e.0 == name,
        e.1 == authority,
        e.2@ == seq![a, b],
{
    let v: Vec<u32> = vec![a, b];
    assert(v@ =~= seq![a, b]);
    (name, authority, v)
}

impl WellKnownSids {
    #[verifier::type_invariant]
    spec fn inv(self) -> bool {
        tabulates(self.entries@, well_known())
    }

    /// Whether the table has the content `table`.
    pub closed spec fn lists(self, table: Seq<(Seq<char>, u64, Seq<u32>)>) -> bool {
        tabulates(self.entries@, table)
    }

    /// The table of names.
    pub fn new() -> (sids: WellKnownSids)
        ensures
            sids.lists(well_known()),
    {
        WellKnownSids {
            entries: vec![
                one("NULL", 0, 0),
                one("EVERYONE", 1, 0),
                one("LOCAL", 2, 0),
                one("CONSOLE_LOGON", 2, 1),
                one("CREATOR_OWNER", 3, 0),
                one("CREATOR_GROUP", 3, 1),
                one("OWNER_RIGHTS", 3, 4),
                one("DIALUP", 5, 1),
                one("NETWORK", 5, 2),
                one("BATCH", 5, 3),
                one("INTERACTIVE", 5, 4),
                one("SERVICE", 5, 6),
                one("ANONYMOUS", 5, 7),
                one("PRINCIPAL_SELF", 5, 10),
                one("AUTHENTICATED_USERS", 5, 11),
                one("RESTRICTED_CODE", 5, 12),
                one("REMOTE_INTERACTIVE_LOGON", 5, 14),
                one("THIS_ORGANIZATION", 5, 15),
                one("LOCAL_SYSTEM", 5, 18),
                one("LOCAL_SERVICE", 5, 19),
                one("NETWORK_SERVICE", 5, 20),
                one("LOCAL_ACCOUNT", 5, 113),
                one("LOCAL_ACCOUNT_ADMINISTRATOR", 5, 114),
                two("BUILTIN_ADMINISTRATORS", 5, 32, 544),
                two("BUILTIN_USERS", 5, 32, 545),
                two("BUILTIN_GUESTS", 5, 32, 546),
                two("BUILTIN_POWER_USERS", 5, 32, 547),
                two("BUILTIN_BACKUP_OPERATORS", 5, 32, 551),
                two("BUILTIN_REMOTE_DESKTOP_USERS", 5, 32, 555),
                two("BUILTIN_REMOTE_MANAGEMENT_USERS", 5, 32, 580),
                two("ALL_APPLICATION_PACKAGES", 15, 2, 1),
                two("ALL_RESTRICTED_APPLICATION_PACKAGES", 15, 2, 2),
                one("UNTRUSTED_LABEL", 16, 0),
                one("LOW_LABEL", 16, 4096),
                one("MEDIUM_LABEL", 16, 8192),
                one("MEDIUM_PLUS_LABEL", 16, 8448),
                one("HIGH_LABEL", 16, 12288),
                one("SYSTEM_LABEL", 16, 16384),
            ],
        }
    }

    /// The identifier that a name stands for.
    pub fn get(&self, name: &str) -> (r: Option<Sid>)
        ensures
            sid_option(r) == well_known_sid(name@),
    {
        proof {
            use_type_invariant(self);
        }
        let ghost table = well_known();
        let mut i: usize = 0;
        assert(table.skip(0) =~= table);
        while i < self.entries.len()
            invariant
                i <= self.entries@.len(),
                tabulates(self.entries@, table),
                table == well_known(),
                well_known_sid(name@) == named_in(table.skip(i as int), name@),
            decreases self.entries@.len() - i,
        {
            proof {
                assert(table.skip(i as int)[0] == table[i as int]);
                assert(table.skip(i as int).skip(1) =~= table.skip(i + 1));
                assert(self.entries@[i as int].0@ == table[i as int].0);
            }
            if str_eq(self.entries[i].0, name) {
                return Some(
                    Sid {
                        authority: self.entries[i].1,
                        sub_authorities: copy_list(&self.entries[i].2),
                    },
                );
            }
            i = i + 1;
        }
        None
    }
}

/// The identifier that a symbol names.
pub open spec fn symbol_sid(name: Seq<char>, path: Seq<char>) -> Result<SidView, ErrorView> {
    match well_known_sid(name) {
        Some(sid) => Ok(sid),
        None => Err(
            ErrorView::Value(path + ": `"@ + name + "` does not name a well-known SID"@),
        ),
    }
}

/// An identifier that was read, by its content.
pub open spec fn sid_view(r: Result<Sid, Error>) -> Result<SidView, ErrorView> {
    match r {
        Ok(sid) => Ok(sid@),
        Err(e) => Err(e@),
    }
}

/// The identifier that a symbol names.
pub fn sid_from_sym(name: &str, path: &SpecPath) -> (r: Result<Sid, Error>)
    ensures
        sid_view(r) == symbol_sid(name@, path@),
{
    let sids = WellKnownSids::new();
    match sids.get(name) {
        Some(sid) => Ok(sid),
        None => {
            let mut message = path.message(": `");
            message.append(name);
            message.append("` does not name a well-known SID");
            Err(Error::Value(message))
        },
    }
}

/// What a string or a packet reads as, or the error that it does not.
pub open spec fn reading(r: Result<Sid, String>, path: Seq<char>) -> Result<SidView, ErrorView> {
    match r {
        Ok(sid) => Ok(sid@),
        Err(e) => Err(reported(path, e@)),
    }
}

fn read(r: &Result<Sid, String>, path: &SpecPath) -> (s: Result<Sid, Error>)
    ensures
        sid_view(s) == reading(*r, path@),
{
    match r {
        Ok(sid) => Ok(sid.copy()),
        Err(e) => Err(path.reported(e.as_str())),
    }
}

/// The identifier that a value spells.
pub open spec fn spelled_sid(value: SpecValue, path: Seq<char>) -> Result<SidView, ErrorView> {
    match value {
        SpecValue::Sym(name) => symbol_sid(name@, path),
        SpecValue::Str(_, readings) => reading(readings.sid, path),
        SpecValue::Bin(_, readings) => reading(readings.sid, path),
        _ => Err(ErrorView::Type(path + ": expected Str, Bin, or Sym"@)),
    }
}

/// The identifier that a value spells: a symbol, a string, or a packet.
pub fn sid_from_value(value: &SpecValue, path: &SpecPath) -> (r: Result<Sid, Error>)
    ensures
        sid_view(r) == spelled_sid(*value, path@),
{
    match value {
        SpecValue::Sym(name) => sid_from_sym(name.as_str(), path),
        SpecValue::Str(_, readings) => read(&readings.sid, path),
        SpecValue::Bin(_, readings) => read(&readings.sid, path),
        _ => Err(path.type_error(": expected Str, Bin, or Sym")),
    }
}

/// The identifier that a value stands for.
pub open spec fn sid_result(value: SpecValue, path: Seq<char>) -> Result<SidView, ErrorView> {
    match value {
        SpecValue::Sid(sid) => Ok(sid@),
        _ => spelled_sid(value, path),
    }
}

/// The identifier that a value stands for: an identifier, or its spelling.
pub fn coerce_sid(value: &SpecValue, path: &SpecPath) -> (r: Result<Sid, Error>)
    ensures
        sid_view(r) == sid_result(*value, path@),
{
    match value {
        SpecValue::Sid(sid) => Ok(sid.copy()),
        _ => sid_from_value(value, path),
    }
}

/// An optional identifier that was read, by its content.
pub open spec fn sid_option_view(r: Result<Option<Sid>, Error>) -> Result<Option<SidView>, ErrorView> {
    match r {
        Ok(sid) => Ok(sid_option(sid)),
        Err(e) => Err(e@),
    }
}

/// The identifier that a value stands for; nil for none.
pub open spec fn sid_option_result(value: SpecValue, path: Seq<char>) -> Result<
    Option<SidView>,
    ErrorView,
> {
    if value is Nil {
        Ok(None)
    } else {
        match sid_result(value, path) {
            Ok(sid) => Ok(Some(sid)),
            Err(e) => Err(e),
        }
    }
}

/// The identifier that a value stands for; nil for none.
pub fn coerce_sid_option(value: &SpecValue, path: &SpecPath) -> (r: Result<Option<Sid>, Error>)
    ensures
        sid_option_view(r) == sid_option_result(*value, path@),
{
    match value {
        SpecValue::Nil => Ok(None),
        _ => match coerce_sid(value, path) {
            Ok(sid) => Ok(Some(sid)),
            Err(e) => Err(e),
        },
    }
}

/// The identifier that a value stands for, where a string means something
/// else.
pub open spec fn non_str_result(value: SpecValue, path: Seq<char>) -> Result<
    Option<SidView>,
    ErrorView,
> {
    match value {
        SpecValue::Sid(sid) => Ok(Some(sid@)),
        SpecValue::Sym(name) => match symbol_sid(name@, path) {
            Ok(sid) => Ok(Some(sid)),
            Err(e) => Err(e),
        },
        SpecValue::Bin(_, readings) => match reading(readings.sid, path) {
            Ok(sid) => Ok(Some(sid)),
            Err(e) => Err(e),
        },
        _ => Ok(None),
    }
}

/// The identifier that a value stands for, where a string means something
/// else.
pub fn coerce_sid_non_str(value: &SpecValue, path: &SpecPath) -> (r: Result<Option<Sid>, Error>)
    ensures
        sid_option_view(r) == non_str_result(*value, path@),
{
    let r = match value {
        SpecValue::Sid(sid) => Ok(sid.copy()),
        SpecValue::Sym(name) => sid_from_sym(name.as_str(), path),
        SpecValue::Bin(_, readings) => read(&readings.sid, path),
        _ => return Ok(None),
    };
    match r {
        Ok(sid) => Ok(Some(sid)),
        Err(e) => Err(e),
    }
}

/// What an account is looked up by.
#[derive(Debug)]
pub enum Lookup {
    Sid(Sid),
    Name(String),
}

/// What an account is looked up by: its identifier, or its name.
pub fn lookup_arg(value: &SpecValue, windows: bool) -> (r: Result<Lookup, Error>)
    ensures
        !windows ==> r is Err && r->Err_0@ == ErrorView::NotSupported,
        windows ==> match non_str_result(*value, "SidName.lookup"@) {
            Err(e) => r is Err && r->Err_0@ == e,
            Ok(Some(sid)) => r matches Ok(Lookup::Sid(s)) && s@ == sid,
            Ok(None) => match *value {
                SpecValue::Str(name, _) => r matches Ok(Lookup::Name(n)) && n@ == name@,
                _ => r is Err && r->Err_0@ == ErrorView::Type(
                    "SidName.lookup: expected Sid, Str, Sym, or Bin"@,
                ),
            },
        },
{
    if !windows {
        return Err(Error::NotSupported);
    }
    match coerce_sid_non_str(value, &SpecPath::root("SidName.lookup")) {
        Err(e) => Err(e),
        Ok(Some(sid)) => Ok(Lookup::Sid(sid)),
        Ok(None) => match value {
            SpecValue::Str(name, _) => Ok(Lookup::Name(name.clone())),
            _ => Err(Error::Type("SidName.lookup: expected Sid, Str, Sym, or Bin".to_owned())),
        },
    }
}

/// The name of an authority, if it has one.
pub open spec fn authority_name(authority: u64) -> Option<Seq<char>> {
    if authority == 0 {
        Some("NULL"@)
    } else if authority == 1 {
        Some("WORLD"@)
    } else if authority == 2 {
        Some("LOCAL"@)
    } else if authority == 3 {
        Some("CREATOR"@)
    } else if authority == 4 {
        Some("NON_UNIQUE"@)
    } else if authority == 5 {
        Some("NT"@)
    } else if authority == 9 {
        Some("RESOURCE_MANAGER"@)
    } else if authority == 15 {
        Some("APP_PACKAGE"@)
    } else if authority == 16 {
        Some("MANDATORY_LABEL"@)
    } else if authority == 17 {
        Some("SCOPED_POLICY"@)
    } else if authority == 18 {
        Some("AUTHENTICATION"@)
    } else if authority == 19 {
        Some("PROCESS_TRUST"@)
    } else {
        None
    }
}

impl Sid {
    /// The name of the authority, if it has one; otherwise programs see its
    /// number.
    pub fn authority_sym(&self) -> (r: Option<&'static str>)
        ensures
            match authority_name(self.authority) {
                Some(name) => r is Some && r->0@ == name,
                None => r is None,
            },
    {
        match self.authority {
            0 => Some("NULL"),
            1 => Some("WORLD"),
            2 => Some("LOCAL"),
            3 => Some("CREATOR"),
            4 => Some("NON_UNIQUE"),
            5 => Some("NT"),
            9 => Some("RESOURCE_MANAGER"),
            15 => Some("APP_PACKAGE"),
            16 => Some("MANDATORY_LABEL"),
            17 => Some("SCOPED_POLICY"),
            18 => Some("AUTHENTICATION"),
            19 => Some("PROCESS_TRUST"),
            _ => None,
        }
    }

    /// Whether two identifiers are the same: an identifier is its value.
    pub fn same(&self, other: &Sid) -> (r: bool)
        ensures
            r == (self@ == other@),
    {
        if self.authority != other.authority || self.sub_authorities.len()
            != other.sub_authorities.len() {
            return false;
        }
        let mut i: usize = 0;
        while i < self.sub_authorities.len()
            invariant
                i <= self.sub_authorities@.len(),
                self.authority == other.authority,
                self.sub_authorities@.len() == other.sub_authorities@.len(),
                forall|j: int|
                    0 <= j < i ==> self.sub_authorities@[j] == other.sub_authorities@[j],
            decreases self.sub_authorities@.len() - i,
        {
            if self.sub_authorities[i] != other.sub_authorities[i] {
                assert(self@.sub_authorities[i as int] != other@.sub_authorities[i as int]);
                return false;
            }
            i = i + 1;
        }
        assert(self.sub_authorities@ =~= other.sub_authorities@);
        true
    }
}

impl Sid {
    /// Whether a value is the same identifier; only identifiers can be
    /// compared with one.
    pub fn eq_to(&self, other: &SpecValue) -> (r: Result<bool, Error>)
        ensures
            outcome(r) == match *other {
                SpecValue::Sid(sid) => Ok(self@ == sid@),
                _ => Err(ErrorView::NotSupported),
            },
    {
        match other {
            SpecValue::Sid(sid) => Ok(self.same(sid)),
            _ => Err(Error::NotSupported),
        }
    }

    /// The identifier for debugging; `shown` is how it is written.
    pub fn debug(&self, shown: &str) -> (s: String)
        ensures
            s@ == "<security.windows.Sid "@ + shown@ + ">"@,
    {
        "<security.windows.Sid ".to_owned().concat(shown).concat(">")
    }

    /// What the account of the identifier is looked up by, on Windows: by the
    /// identifier.
    pub fn lookup(&self, windows: bool) -> (r: Result<Sid, Error>)
        ensures
            windows ==> r is Ok && r->Ok_0@ == self@,
            !windows ==> r is Err && r->Err_0@ == ErrorView::NotSupported,
    {
        if !windows {
            return Err(Error::NotSupported);
        }
        Ok(self.copy())
    }
}

/// Every name in the table stands for an identifier of the table, and a symbol
/// means the same wherever an identifier is expected.
pub proof fn symbols_name_sids(name: String, path: Seq<char>)
    ensures
        spelled_sid(SpecValue::Sym(name), path) == symbol_sid(name@, path),
        sid_result(SpecValue::Sym(name), path) == symbol_sid(name@, path),
        well_known_sid(name@) is Some ==> exists|i: int|
            0 <= i < well_known().len() && (#[trigger] well_known()[i]).0 == name@
                && well_known_sid(name@) == Some(
                SidView { authority: well_known()[i].1, sub_authorities: well_known()[i].2 },
            ),
{
    lemma_named_in(well_known(), name@);
}

proof fn lemma_named_in(table: Seq<(Seq<char>, u64, Seq<u32>)>, name: Seq<char>)
    ensures
        named_in(table, name) is Some ==> exists|i: int|
            0 <= i < table.len() && (#[trigger] table[i]).0 == name && named_in(table, name) == Some(
                SidView { authority: table[i].1, sub_authorities: table[i].2 },
            ),
    decreases table.len(),
{
    if table.len() > 0 && table[0].0 != name {
        let rest = table.skip(1);
        lemma_named_in(rest, name);
        if named_in(rest, name) is Some {
            let i = choose|i: int|
                0 <= i < rest.len() && (#[trigger] rest[i]).0 == name && named_in(rest, name)
                    == Some(SidView { authority: rest[i].1, sub_authorities: rest[i].2 });
            assert(table[i + 1] == rest[i]);
        }
    }
}

} // verus!
