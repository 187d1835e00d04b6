//! Binding arguments to a statement's parameters.

use vstd::prelude::*;
use vstd::utf8::encode_utf8;
use crate::console::data::copy_bytes;
use crate::error::{outcome, Error, ErrorView};
use crate::sqlite::failure::SQLITE_OK;
use crate::sqlite::open::{check_zero, zero_problem};
use crate::text::chars_of;
use crate::value::Value;

verus! {

broadcast use vstd::string::group_string_axioms;

/// An argument of a query: by position, or under a name.
#[derive(Debug)]
pub enum BindArg {
    Pos,
    Key(String, Value),
}

/// A value as the database takes it. A floating-point number is carried by its
/// bits.
#[derive(Debug)]
pub enum BindValue {
    Null,
    Integer(i64),
    Double(u64),
    Text(String),
    Blob(Vec<u8>),
}

/// The content of a [`BindValue`].
pub enum BindValueView {
    Null,
    Integer(i64),
    Double(u64),
    Text(Seq<char>),
    Blob(Seq<u8>),
}

impl View for BindValue {
    type V = BindValueView;

    open spec fn view(&self) -> BindValueView {
        match self {
            BindValue::Null => BindValueView::Null,
            BindValue::Integer(n) => BindValueView::Integer(*n),
            BindValue::Double(bits) => BindValueView::Double(*bits),
            BindValue::Text(s) => BindValueView::Text(s@),
            BindValue::Blob(b) => BindValueView::Blob(b@),
        }
    }
}

/// A value for a parameter. The parameter's name has its colon.
#[derive(Debug)]
pub struct Binding {
    pub parameter: String,
    pub value: BindValue,
}

/// The content of a [`Binding`].
pub struct BindingView {
    pub parameter: Seq<char>,
    pub value: BindValueView,
}

impl View for Binding {
    type V = BindingView;

    open spec fn view(&self) -> BindingView {
        BindingView { parameter: self.parameter@, value: self.value@ }
    }
}

/// Whether the database can take the text: it is not too long, and holds no
/// zero that would end it early.
pub open spec fn bindable_text(s: Seq<char>) -> bool {
    encode_utf8(s).len() <= i32::MAX && !s.contains('\0')
}

/// The value that the database gets for the argument `value` named `name`.
pub open spec fn bound_value(name: Seq<char>, value: Value) -> Result<BindValueView, ErrorView> {
    match value {
        Value::Nil => Ok(BindValueView::Null),
        Value::Int(n) if i64::MIN <= n <= i64::MAX => Ok(BindValueView::Integer(n as i64)),
        Value::Float(bits) => Ok(BindValueView::Double(bits)),
        Value::Str(s) => if bindable_text(s@) {
            Ok(BindValueView::Text(s@))
        } else {
            Err(ErrorView::Runtime("invalid string"@))
        },
        Value::Bool(b) => Ok(BindValueView::Integer(if b { 1 } else { 0 })),
        Value::Bin(b) => Ok(BindValueView::Blob(b@)),
        _ => Err(ErrorView::Type("unsupported type for SQL parameter: "@ + name)),
    }
}

/// The binding that an argument calls for.
pub open spec fn binding_result(arg: BindArg) -> Result<BindingView, ErrorView> {
    match arg {
        BindArg::Pos => Err(ErrorView::UnexpectedPositional(0)),
        BindArg::Key(name, value) => match zero_problem(encode_utf8(":"@ + name@)) {
            Err(e) => Err(e),
            Ok(()) => match bound_value(name@, value) {
                Err(e) => Err(e),
                Ok(v) => Ok(BindingView { parameter: ":"@ + name@, value: v }),
            },
        },
    }
}

/// Whether a string holds the character zero.
fn contains_zero(s: &str) -> (r: bool)
    ensures
        r == s@.contains('\0'),
{
    let v = chars_of(s);
    let mut i: usize = 0;
    while i < v.len()
        invariant
            i <= v@.len(),
            v@ == s@,
            forall|j: int| 0 <= j < i ==> v@[j] != '\0',
        decreases v@.len() - i,
    {
        if v[i] == '\0' {
            assert(s@[i as int] == '\0');
            return true;
        }
        i = i + 1;
    }
    false
}

/// The value that the database gets for an argument.
fn bind_value(name: &str, value: &Value) -> (r: Result<BindValue, Error>)
    ensures
        match bound_value(name@, *value) {
            Ok(v) => r is Ok && r->Ok_0@ == v,
            Err(e) => r is Err && r->Err_0@ == e,
        },
{
    match value {
        Value::Nil => Ok(BindValue::Null),
        Value::Int(n) if i64::MIN as i128 <= *n && *n <= i64::MAX as i128 => Ok(
            BindValue::Integer(*n as i64),
        ),
        Value::Float(bits) => Ok(BindValue::Double(*bits)),
        Value::Str(s) => {
            if s.as_str().as_bytes().len() > i32::MAX as usize || contains_zero(s.as_str()) {
                return Err(Error::Runtime("invalid string".to_owned()));
            }
            Ok(BindValue::Text(s.clone()))
        },
        Value::Bool(b) => Ok(
            BindValue::Integer(
                if *b {
                    1
                } else {
                    0
                },
            ),
        ),
        Value::Bin(b) => Ok(BindValue::Blob(copy_bytes(b))),
        _ => {
            let mut message = "unsupported type for SQL parameter: ".to_owned();
            message.append(name);
            Err(Error::Type(message))
        },
    }
}

/// The binding that an argument calls for.
pub fn binding(arg: &BindArg) -> (r: Result<Binding, Error>)
    ensures
        match binding_result(*arg) {
            Ok(b) => r is Ok && r->Ok_0@ == b,
            Err(e) => r is Err && r->Err_0@ == e,
        },
{
    match arg {
        BindArg::Pos => Err(Error::UnexpectedPositional(0)),
        BindArg::Key(name, value) => {
            let mut parameter = ":".to_owned();
            parameter.append(name.as_str());
            match check_zero(parameter.as_str().as_bytes()) {
                Err(e) => return Err(e),
                Ok(()) => {},
            }
            match bind_value(name.as_str(), value) {
                Err(e) => Err(e),
                Ok(value) => Ok(Binding { parameter, value }),
            }
        },
    }
}

/// How many arguments, from the first on, call for a binding.
pub open spec fn good_args(args: Seq<BindArg>) -> nat
    decreases args.len(),
{
    if args.len() == 0 || binding_result(args[0]) is Err {
        0
    } else {
        1 + good_args(args.skip(1))
    }
}

/// The bindings to make, in order, and the error to report once they are made.
#[derive(Debug)]
pub struct BindPlan {
    pub bindings: Vec<Binding>,
    pub error: Option<Error>,
}

/// The bindings that the arguments of a query call for: those before the first
/// argument that is refused.
pub fn bind_keyword_params(args: &Vec<BindArg>) -> (plan: BindPlan)
    ensures
        plan.bindings@.len() == good_args(args@) <= args@.len(),
        forall|i: int|
            0 <= i < plan.bindings@.len() ==> binding_result(args@[i]) == Ok::<
                BindingView,
                ErrorView,
            >(#[trigger] plan.bindings@[i]@),
        plan.error is None <==> good_args(args@) == args@.len(),
        plan.error matches Some(e) ==> binding_result(args@[good_args(args@) as int]) == Err::<
            BindingView,
            ErrorView,
        >(e@),
{
    let mut bindings: Vec<Binding> = Vec::new();
    let mut i: usize = 0;
    assert(args@.skip(0) =~= args@);
    while i < args.len()
        invariant
            i <= args@.len(),
            bindings@.len() == i,
            good_args(args@) == i + good_args(args@.skip(i as int)),
            forall|j: int|
                0 <= j < bindings@.len() ==> binding_result(args@[j]) == Ok::<
                    BindingView,
                    ErrorView,
                >(#[trigger] bindings@[j]@),
        decreases args@.len() - i,
    {
        proof {
            assert(args@.skip(i as int)[0] == args@[i as int]);
            assert(args@.skip(i as int).skip(1) =~= args@.skip(i + 1));
        }
        match binding(&args[i]) {
            Err(e) => return BindPlan { bindings, error: Some(e) },
            Ok(b) => bindings.push(b),
        }
        i = i + 1;
    }
    assert(args@.skip(i as int).len() == 0);
    BindPlan { bindings, error: None }
}

/// The outcome of one binding, by the code that the database answered with.
pub fn bound(rc: i32) -> (r: Result<(), Error>)
    ensures
        outcome(r) == if rc == SQLITE_OK {
            Ok(())
        } else {
            Err(ErrorView::Runtime("failed to bind parameter"@))
        },
{
    if rc != SQLITE_OK {
        return Err(Error::Runtime("failed to bind parameter".to_owned()));
    }
    Ok(())
}

} // verus!
