//! Windows access control lists, as programs describe them.

use vstd::prelude::*;
use crate::console::data::copy_bytes;
use crate::error::{outcome, Error, ErrorView};
use crate::security::ace::{coerce_ace, item_result, AceItem, AceItemView};
use crate::security::coerce::{ace_u8, id_result};
use crate::security::model::{AclRevision, SpecValue};
use crate::security::path::{at_index, duplicate_key, under_key, unknown_key, SpecPath};
use crate::security::unix::AclArg;
use crate::text::{decimal, push_decimal, str_eq};

verus! {

broadcast use vstd::string::group_string_axioms;

/// The revision with a number.
pub open spec fn numbered_revision(n: int) -> AclRevision {
    if n == 2 {
        AclRevision::Basic
    } else if n == 4 {
        AclRevision::DirectoryService
    } else {
        AclRevision::Unknown(n as u8)
    }
}

/// The revision that a value stands for.
pub open spec fn revision_result(value: SpecValue, path: Seq<char>) -> Result<AclRevision, ErrorView> {
    match value {
        SpecValue::Sym(name) => if name@ == "BASIC"@ {
            Ok(AclRevision::Basic)
        } else if name@ == "DIRECTORY_SERVICE"@ {
            Ok(AclRevision::DirectoryService)
        } else {
            Err(ErrorView::Value(path + ": expected BASIC or DIRECTORY_SERVICE"@))
        },
        _ => match id_result(value, path, u8::MAX as int) {
            Ok(n) => Ok(numbered_revision(n)),
            Err(e) => Err(e),
        },
    }
}

/// The revision that a value stands for: a symbol, or a number.
pub fn acl_revision(value: &SpecValue, path: &SpecPath) -> (r: Result<AclRevision, Error>)
    ensures
        outcome(r) == revision_result(*value, path@),
{
    match value {
        SpecValue::Sym(name) => {
            if str_eq(name.as_str(), "BASIC") {
                Ok(AclRevision::Basic)
            } else if str_eq(name.as_str(), "DIRECTORY_SERVICE") {
                Ok(AclRevision::DirectoryService)
            } else {
                Err(path.value_error(": expected BASIC or DIRECTORY_SERVICE"))
            }
        },
        _ => match ace_u8(value, path) {
            Err(e) => Err(e),
            Ok(2) => Ok(AclRevision::Basic),
            Ok(4) => Ok(AclRevision::DirectoryService),
            Ok(n) => Ok(AclRevision::Unknown(n)),
        },
    }
}

/// The symbol of a revision, if it has one; otherwise programs see its number.
pub fn revision_sym(revision: AclRevision) -> (r: Option<&'static str>)
    ensures
        match revision {
            AclRevision::Basic => r is Some && r->0@ == "BASIC"@,
            AclRevision::DirectoryService => r is Some && r->0@ == "DIRECTORY_SERVICE"@,
            AclRevision::Unknown(_) => r is None,
        },
{
    match revision {
        AclRevision::Basic => Some("BASIC"),
        AclRevision::DirectoryService => Some("DIRECTORY_SERVICE"),
        AclRevision::Unknown(_) => None,
    }
}

/// A list to be packed: its entries, in order, and its revision.
#[derive(Debug)]
pub struct AclPlan {
    pub aces: Vec<AceItem>,
    pub revision: Option<AclRevision>,
}

/// The content of an [`AclPlan`].
#[verifier::ext_equal]
pub struct AclPlanView {
    pub aces: Seq<AceItemView>,
    pub revision: Option<AclRevision>,
}

pub open spec fn ace_view(item: AceItem) -> AceItemView {
    item@
}

impl View for AclPlan {
    type V = AclPlanView;

    open spec fn view(&self) -> AclPlanView {
        AclPlanView {
            aces: self.aces@.map_values(|item: AceItem| ace_view(item)),
            revision: self.revision,
        }
    }
}

/// The plan of a list as far as it was understood, and the error that stopped
/// it, which is reported once the entries before it are packed.
#[derive(Debug)]
pub struct PartialAcl {
    pub plan: AclPlan,
    pub error: Option<Error>,
}

/// The content of a [`PartialAcl`].
#[verifier::ext_equal]
pub struct PartialAclView {
    pub plan: AclPlanView,
    pub error: Option<ErrorView>,
}

impl View for PartialAcl {
    type V = PartialAclView;

    open spec fn view(&self) -> PartialAclView {
        PartialAclView {
            plan: self.plan@,
            error: match self.error {
                Some(e) => Some(e@),
                None => None,
            },
        }
    }
}

impl PartialAclView {
    /// The same with one more entry, or stopped by the error of that entry.
    pub open spec fn with_ace(self, item: Result<AceItemView, ErrorView>) -> PartialAclView {
        match item {
            Ok(item) => PartialAclView {
                plan: AclPlanView { aces: self.plan.aces.push(item), ..self.plan },
                ..self
            },
            Err(e) => self.stopped(e),
        }
    }

    /// The same, stopped by an error.
    pub open spec fn stopped(self, e: ErrorView) -> PartialAclView {
        PartialAclView { error: Some(e), ..self }
    }
}

/// A list with no entries.
pub open spec fn empty_acl(revision: Option<AclRevision>) -> PartialAclView {
    PartialAclView { plan: AclPlanView { aces: Seq::empty(), revision }, error: None }
}

impl PartialAcl {
    /// A list with no entries.
    pub fn empty(revision: Option<AclRevision>) -> (p: PartialAcl)
        ensures
            p@ == empty_acl(revision),
    {
        let p = PartialAcl { plan: AclPlan { aces: Vec::new(), revision }, error: None };
        assert(p@ =~= empty_acl(revision));
        p
    }

    /// Adds an entry, or stops at the error of that entry.
    fn take(&mut self, item: Result<AceItem, Error>)
        ensures
            final(self)@ == old(self)@.with_ace(crate::security::ace::item_view(item)),
    {
        match item {
            Ok(item) => {
                let ghost before = self@.plan.aces;
                self.plan.aces.push(item);
                assert(self@.plan.aces =~= before.push(item@));
            },
            Err(e) => {
                self.error = Some(e);
            },
        }
    }
}

/// A number with its sign.
pub open spec fn signed(n: int) -> Seq<char> {
    if n < 0 {
        "-"@ + decimal((-n) as nat)
    } else {
        decimal(n as nat)
    }
}

/// Writes a number with its sign.
fn push_signed(out: &mut String, n: i128)
    ensures
        final(out)@ == old(out)@ + signed(n as int),
{
    if n < 0 {
        out.append("-");
        let size: u128 = (-(n + 1)) as u128 + 1;
        push_decimal(out, size);
        assert(out@ =~= old(out)@ + signed(n as int));
    } else {
        push_decimal(out, n as u128);
    }
}

/// The error of an entry that is out of order.
pub open spec fn out_of_order(path: Seq<char>, expected: nat, found: int) -> ErrorView {
    ErrorView::Value(
        path + ": expected entry "@ + decimal(expected) + ", found "@ + signed(found),
    )
}

/// What one key of a specification adds to a list.
pub open spec fn key_step(
    p: PartialAclView,
    key: SpecValue,
    entry: SpecValue,
    path: Seq<char>,
) -> PartialAclView {
    if p.error is Some {
        p
    } else {
        match key {
            SpecValue::Sym(name) => if name@ != "revision"@ {
                p.stopped(
                    ErrorView::Value(
                        path + ": unknown key `"@ + name@ + "`; expected revision"@,
                    ),
                )
            } else if p.plan.revision is Some {
                p.stopped(duplicate_key(path, name@))
            } else {
                match revision_result(entry, under_key(path, name@)) {
                    Err(e) => p.stopped(e),
                    Ok(revision) => PartialAclView {
                        plan: AclPlanView { revision: Some(revision), ..p.plan },
                        ..p
                    },
                }
            },
            SpecValue::Int(found) => if found != p.plan.aces.len() {
                p.stopped(out_of_order(path, p.plan.aces.len(), found as int))
            } else {
                p.with_ace(item_result(entry, at_index(path, p.plan.aces.len())))
            },
            _ => p.stopped(
                ErrorView::Value(path + ": keys must be symbols or entry indices"@),
            ),
        }
    }
}

/// What the first `n` keys of a specification say.
pub open spec fn pairs_acl(pairs: Seq<(SpecValue, SpecValue)>, n: nat, path: Seq<char>) -> PartialAclView
    decreases n,
{
    if n == 0 {
        empty_acl(None)
    } else {
        key_step(
            pairs_acl(pairs, (n - 1) as nat, path),
            pairs[n - 1].0,
            pairs[n - 1].1,
            path,
        )
    }
}

proof fn lemma_pairs_stopped(pairs: Seq<(SpecValue, SpecValue)>, n: nat, m: nat, path: Seq<char>)
    requires
        n <= m,
        pairs_acl(pairs, n, path).error is Some,
    ensures
        pairs_acl(pairs, m, path) == pairs_acl(pairs, n, path),
    decreases m,
{
    if n < m {
        lemma_pairs_stopped(pairs, n, (m - 1) as nat, path);
    }
}

/// What the keys of a specification of a list say: its entries by their
/// numbers in order, and its revision.
pub fn acl_components_from_spec(pairs: &Vec<(SpecValue, SpecValue)>, path: &SpecPath) -> (p:
    PartialAcl)
    ensures
        p@ == pairs_acl(pairs@, pairs@.len(), path@),
{
    let mut p = PartialAcl::empty(None);
    let mut i: usize = 0;
    while i < pairs.len()
        invariant
            i <= pairs@.len(),
            p@ == pairs_acl(pairs@, i as nat, path@),
            p.error is None,
        decreases pairs@.len() - i,
    {
        let entry = &pairs[i].1;
        match &pairs[i].0 {
            SpecValue::Sym(name) => {
                if !str_eq(name.as_str(), "revision") {
                    let mut message = path.message(": unknown key `");
                    message.append(name.as_str());
                    message.append("`; expected revision");
                    p.error = Some(Error::Value(message));
                } else if p.plan.revision.is_some() {
                    p.error = Some(path.duplicate_key(name.as_str()));
                } else {
                    match acl_revision(entry, &path.key(name.as_str())) {
                        Err(e) => {
                            p.error = Some(e);
                        },
                        Ok(revision) => {
                            p.plan.revision = Some(revision);
                        },
                    }
                }
            },
            SpecValue::Int(found) => {
                let index: usize = p.plan.aces.len();
                if *found != index as i128 {
                    let mut message = path.message(": expected entry ");
                    push_decimal(&mut message, index as u128);
                    message.append(", found ");
                    push_signed(&mut message, *found);
                    p.error = Some(Error::Value(message));
                } else {
                    p.take(coerce_ace(entry, &path.index(index)));
                }
            },
            _ => {
                p.error = Some(path.value_error(": keys must be symbols or entry indices"));
            },
        }
        assert(p@ =~= pairs_acl(pairs@, (i + 1) as nat, path@));
        if p.error.is_some() {
            proof {
                lemma_pairs_stopped(pairs@, (i + 1) as nat, pairs@.len(), path@);
            }
            return p;
        }
        i = i + 1;
    }
    p
}

/// What the first `n` entries of a list say.
pub open spec fn items_acl(
    items: Seq<SpecValue>,
    n: nat,
    revision: Option<AclRevision>,
    path: Seq<char>,
) -> PartialAclView
    decreases n,
{
    if n == 0 {
        empty_acl(revision)
    } else {
        let p = items_acl(items, (n - 1) as nat, revision, path);
        if p.error is Some {
            p
        } else {
            p.with_ace(item_result(items[n - 1], at_index(path, (n - 1) as nat)))
        }
    }
}

proof fn lemma_items_stopped(
    items: Seq<SpecValue>,
    n: nat,
    m: nat,
    revision: Option<AclRevision>,
    path: Seq<char>,
)
    requires
        n <= m,
        items_acl(items, n, revision, path).error is Some,
    ensures
        items_acl(items, m, revision, path) == items_acl(items, n, revision, path),
    decreases m,
{
    if n < m {
        lemma_items_stopped(items, n, (m - 1) as nat, revision, path);
    }
}

/// A list for a descriptor: one that is packed, or one to be packed.
#[derive(Debug)]
pub enum AclItem {
    Packed(Vec<u8>),
    Plan(AclPlan),
}

/// The content of an [`AclItem`].
pub enum AclItemView {
    Packed(Seq<u8>),
    Plan(AclPlanView),
}

impl View for AclItem {
    type V = AclItemView;

    open spec fn view(&self) -> AclItemView {
        match self {
            AclItem::Packed(bytes) => AclItemView::Packed(bytes@),
            AclItem::Plan(plan) => AclItemView::Plan(plan@),
        }
    }
}

/// The list that a value stands for, as far as it was understood. That one
/// which cannot be gone through is not supported is this library's own choice.
pub open spec fn acl_result(value: SpecValue, path: Seq<char>) -> (AclItemView, Option<ErrorView>) {
    match value {
        SpecValue::Acl(acl) => (AclItemView::Packed(acl.packet@), None),
        SpecValue::Dict(pairs) => {
            let p = pairs_acl(pairs@, pairs@.len(), path);
            (AclItemView::Plan(p.plan), p.error)
        },
        SpecValue::Items(items) => {
            let p = items_acl(items@, items@.len(), None, path);
            (AclItemView::Plan(p.plan), p.error)
        },
        _ => (AclItemView::Plan(empty_acl(None).plan), Some(ErrorView::NotSupported)),
    }
}

/// The content of an optional error.
pub open spec fn error_option(e: Option<Error>) -> Option<ErrorView> {
    match e {
        Some(e) => Some(e@),
        None => None,
    }
}

/// The list that a value stands for: a list, its specification, or something
/// made of entries and their specifications.
pub fn coerce_acl(value: &SpecValue, path: &SpecPath) -> (r: (AclItem, Option<Error>))
    ensures
        (r.0@, error_option(r.1)) == acl_result(*value, path@),
{
    match value {
        SpecValue::Acl(acl) => (AclItem::Packed(copy_bytes(&acl.packet)), None),
        SpecValue::Dict(pairs) => {
            let p = acl_components_from_spec(pairs, path);
            (AclItem::Plan(p.plan), p.error)
        },
        SpecValue::Items(items) => {
            let p = coerce_aces(items, None, path);
            (AclItem::Plan(p.plan), p.error)
        },
        _ => {
            let p = PartialAcl::empty(None);
            (AclItem::Plan(p.plan), Some(Error::NotSupported))
        },
    }
}

/// The list that entries and their specifications make.
pub fn coerce_aces(items: &Vec<SpecValue>, revision: Option<AclRevision>, path: &SpecPath) -> (p:
    PartialAcl)
    ensures
        p@ == items_acl(items@, items@.len(), revision, path@),
{
    let mut p = PartialAcl::empty(revision);
    let mut i: usize = 0;
    while i < items.len()
        invariant
            i <= items@.len(),
            p@ == items_acl(items@, i as nat, revision, path@),
            p.error is None,
        decreases items@.len() - i,
    {
        p.take(coerce_ace(&items[i], &path.index(i)));
        if p.error.is_some() {
            proof {
                lemma_items_stopped(items@, (i + 1) as nat, items@.len(), revision, path@);
            }
            return p;
        }
        i = i + 1;
    }
    p
}

/// What the first `n` arguments of a list say.
pub open spec fn args_acl(
    args: Seq<AclArg>,
    n: nat,
    revision: Option<AclRevision>,
    path: Seq<char>,
) -> PartialAclView
    decreases n,
{
    if n == 0 {
        empty_acl(revision)
    } else {
        let p = args_acl(args, (n - 1) as nat, revision, path);
        if p.error is Some {
            p
        } else {
            match args[n - 1] {
                AclArg::Key(name) => p.stopped(unknown_key(path, name@)),
                AclArg::Pos(value) => p.with_ace(
                    item_result(value, at_index(path, (n - 1) as nat)),
                ),
            }
        }
    }
}

proof fn lemma_args_stopped(
    args: Seq<AclArg>,
    n: nat,
    m: nat,
    revision: Option<AclRevision>,
    path: Seq<char>,
)
    requires
        n <= m,
        args_acl(args, n, revision, path).error is Some,
    ensures
        args_acl(args, m, revision, path) == args_acl(args, n, revision, path),
    decreases m,
{
    if n < m {
        lemma_args_stopped(args, n, (m - 1) as nat, revision, path);
    }
}

/// What the arguments of a list say: its revision, if it is given, and then
/// its entries.
pub open spec fn args_result(revision: Option<SpecValue>, args: Seq<AclArg>, path: Seq<char>) -> PartialAclView {
    match revision {
        None => args_acl(args, args.len(), None, path),
        Some(value) => match revision_result(value, under_key(path, "revision"@)) {
            Err(e) => empty_acl(None).stopped(e),
            Ok(revision) => args_acl(args, args.len(), Some(revision), path),
        },
    }
}

/// What the arguments of a list say.
pub fn acl_from_args(revision: &Option<SpecValue>, args: &Vec<AclArg>, path: &SpecPath) -> (p:
    PartialAcl)
    ensures
        p@ == args_result(*revision, args@, path@),
{
    let fixed = match revision {
        None => None,
        Some(value) => match acl_revision(value, &path.key("revision")) {
            Ok(revision) => Some(revision),
            Err(e) => {
                let mut p = PartialAcl::empty(None);
                p.error = Some(e);
                return p;
            },
        },
    };
    let mut p = PartialAcl::empty(fixed);
    let mut i: usize = 0;
    while i < args.len()
        invariant
            i <= args@.len(),
            args_result(*revision, args@, path@) == args_acl(args@, args@.len(), fixed, path@),
            p@ == args_acl(args@, i as nat, fixed, path@),
            p.error is None,
        decreases args@.len() - i,
    {
        match &args[i] {
            AclArg::Key(name) => {
                p.error = Some(path.unknown_key(name.as_str()));
            },
            AclArg::Pos(value) => {
                p.take(coerce_ace(value, &path.index(i)));
            },
        }
        if p.error.is_some() {
            proof {
                lemma_args_stopped(args@, (i + 1) as nat, args@.len(), fixed, path@);
            }
            return p;
        }
        i = i + 1;
    }
    p
}

/// The entries that a list is made of, each of which has to be an entry.
pub open spec fn entries_acl(items: Seq<SpecValue>, n: nat, revision: Option<AclRevision>) -> PartialAclView
    decreases n,
{
    if n == 0 {
        empty_acl(revision)
    } else {
        let p = entries_acl(items, (n - 1) as nat, revision);
        if p.error is Some {
            p
        } else {
            match items[n - 1] {
                SpecValue::Ace(ace) => p.with_ace(Ok(AceItemView::Packed(ace.packet@))),
                _ => p.stopped(
                    ErrorView::Type("Acl: iterable must contain security.windows.Ace"@),
                ),
            }
        }
    }
}

proof fn lemma_entries_stopped(
    items: Seq<SpecValue>,
    n: nat,
    m: nat,
    revision: Option<AclRevision>,
)
    requires
        n <= m,
        entries_acl(items, n, revision).error is Some,
    ensures
        entries_acl(items, m, revision) == entries_acl(items, n, revision),
    decreases m,
{
    if n < m {
        lemma_entries_stopped(items, n, (m - 1) as nat, revision);
    }
}

/// What the constructor of a list makes of its arguments.
pub open spec fn new_result(revision: Option<SpecValue>, items: Seq<SpecValue>) -> PartialAclView {
    match revision {
        None => entries_acl(items, items.len(), None),
        Some(value) => match revision_result(value, "revision"@) {
            Err(e) => empty_acl(None).stopped(e),
            Ok(revision) => entries_acl(items, items.len(), Some(revision)),
        },
    }
}

/// The list that its constructor makes, which takes only entries.
pub fn new_acl(revision: &Option<SpecValue>, items: &Vec<SpecValue>) -> (p: PartialAcl)
    ensures
        p@ == new_result(*revision, items@),
{
    let fixed = match revision {
        None => None,
        Some(value) => match acl_revision(value, &SpecPath::root("revision")) {
            Ok(revision) => Some(revision),
            Err(e) => {
                let mut p = PartialAcl::empty(None);
                p.error = Some(e);
                return p;
            },
        },
    };
    let mut p = PartialAcl::empty(fixed);
    let mut i: usize = 0;
    while i < items.len()
        invariant
            i <= items@.len(),
            new_result(*revision, items@) == entries_acl(items@, items@.len(), fixed),
            p@ == entries_acl(items@, i as nat, fixed),
            p.error is None,
        decreases items@.len() - i,
    {
        match &items[i] {
            SpecValue::Ace(ace) => {
                p.take(Ok(AceItem::Packed(copy_bytes(&ace.packet))));
            },
            _ => {
                p.error = Some(
                    Error::Type("Acl: iterable must contain security.windows.Ace".to_owned()),
                );
            },
        }
        if p.error.is_some() {
            proof {
                lemma_entries_stopped(items@, (i + 1) as nat, items@.len(), fixed);
            }
            return p;
        }
        i = i + 1;
    }
    p
}

/// What the constructor of a list accepts, a list of values stands for too.
pub proof fn declarations_extend_the_constructor(items: Seq<SpecValue>, n: nat, path: Seq<char>)
    requires
        n <= items.len(),
        entries_acl(items, n, None).error is None,
    ensures
        items_acl(items, n, None, path) == entries_acl(items, n, None),
    decreases n,
{
    if n > 0 {
        let m = (n - 1) as nat;
        if entries_acl(items, m, None).error is Some {
            lemma_entries_stopped(items, m, n, None);
        }
        declarations_extend_the_constructor(items, m, path);
    }
}

} // verus!
