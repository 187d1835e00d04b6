//! Points in time and durations, in nanoseconds.

use vstd::prelude::*;
use time::format_description::well_known::Rfc3339;
use time::OffsetDateTime;
use crate::error::{outcome, viewed, Error, ErrorView};
use crate::text::{all_digits, decimal, digit, digit_char, number, push_decimal};
use crate::value::Value;

verus! {

broadcast use vstd::string::group_string_axioms;

pub const NANOS_PER_SEC: i128 = 1_000_000_000;

/// A system clock's reading: how long after the Unix epoch, or before it.
#[derive(Clone, Copy, Debug, PartialEq, Eq, Structural)]
pub struct SystemTime {
    pub before_epoch: bool,
    pub secs: u64,
    pub nanos: u32,
}

impl SystemTime {
    /// Whether the fraction is less than a second, and the epoch itself is
    /// not before itself.
    pub open spec fn valid(self) -> bool {
        &&& self.nanos < 1_000_000_000
        &&& self.before_epoch ==> self.secs > 0 || self.nanos > 0
    }

    /// The nanoseconds since the epoch.
    pub open spec fn total(self) -> int {
        let distance = self.secs * 1_000_000_000 + self.nanos;
        if self.before_epoch {
            -distance
        } else {
            distance
        }
    }
}

/// A point in time.
#[derive(Clone, Copy, Debug, PartialEq, Eq, Structural)]
pub struct DateTimeAnnex {
    total_nanos: i128,
}

/// A length of time.
#[derive(Clone, Copy, Debug, PartialEq, Eq, Structural)]
pub struct DurationAnnex {
    total_nanos: i128,
}

impl View for DateTimeAnnex {
    type V = int;

    /// Nanoseconds since the Unix epoch.
    closed spec fn view(&self) -> int {
        self.total_nanos as int
    }
}

impl View for DurationAnnex {
    type V = int;

    /// Nanoseconds.
    closed spec fn view(&self) -> int {
        self.total_nanos as int
    }
}

/// The clock reading for a point in time, if its seconds can be held.
pub open spec fn system_time_of(nanos: int) -> Result<SystemTime, ErrorView> {
    let distance = if nanos < 0 { -nanos } else { nanos };
    if distance / 1_000_000_000 <= u64::MAX {
        Ok(
            SystemTime {
                before_epoch: nanos < 0,
                secs: (distance / 1_000_000_000) as u64,
                nanos: (distance % 1_000_000_000) as u32,
            },
        )
    } else {
        Err(ErrorView::InvalidInput("timestamp overflow"@))
    }
}

/// The RFC 3339 text of a timestamp in nanoseconds, or why it has none.
pub uninterp spec fn rfc3339_text(nanos: i128) -> Result<Seq<char>, Seq<char>>;

/// The timestamp in nanoseconds that an RFC 3339 text gives, or why it gives
/// none.
pub uninterp spec fn rfc3339_nanos(text: Seq<char>) -> Result<i128, Seq<char>>;

/// Whether a timestamp falls into the years from -9999 to 9999.
pub open spec fn representable(nanos: int) -> bool {
    -377_705_116_800 * 1_000_000_000 <= nanos < 253_402_300_800 * 1_000_000_000
}

/// `OffsetDateTime::from_unix_timestamp_nanos` takes the timestamps of the
/// years from -9999 to 9999, and no others.
#[verifier::external_body]
fn timestamp_in_range(nanos: i128) -> (r: bool)
    ensures
        r == representable(nanos as int),
{
    OffsetDateTime::from_unix_timestamp_nanos(nanos).is_ok()
}

/// `OffsetDateTime::format` with `Rfc3339`, on a timestamp that has a date. It
/// writes all of the date, the time and the fraction that is not zero, which
/// parsing reads back; years before the year zero cannot be written.
#[verifier::external_body]
fn format_timestamp(nanos: i128) -> (r: Result<String, String>)
    requires
        representable(nanos as int),
    ensures
        match r {
            Ok(s) => rfc3339_text(nanos) == Ok::<Seq<char>, Seq<char>>(s@) && rfc3339_nanos(s@) == Ok::<
                i128,
                Seq<char>,
            >(nanos),
            Err(e) => rfc3339_text(nanos) == Err::<Seq<char>, Seq<char>>(e@),
        },
        r is Ok <==> nanos >= -62_167_219_200 * 1_000_000_000,
{
    let date = OffsetDateTime::from_unix_timestamp_nanos(nanos).map_err(|e| e.to_string())?;
    date.format(&Rfc3339).map_err(|e| e.to_string())
}

/// `OffsetDateTime::parse` with `Rfc3339`, and the timestamp of the result.
#[verifier::external_body]
fn parse_timestamp(text: &str) -> (r: Result<i128, String>)
    ensures
        match r {
            Ok(n) => rfc3339_nanos(text@) == Ok::<i128, Seq<char>>(n),
            Err(e) => rfc3339_nanos(text@) == Err::<i128, Seq<char>>(e@),
        },
{
    let date = OffsetDateTime::parse(text, &Rfc3339).map_err(|e| e.to_string())?;
    Ok(date.unix_timestamp_nanos())
}

/// The text of a point in time, as far as it has one.
pub open spec fn datetime_text(nanos: i128) -> Result<Seq<char>, ErrorView> {
    if representable(nanos as int) {
        match rfc3339_text(nanos) {
            Ok(s) => Ok(s),
            Err(e) => Err(ErrorView::Runtime(e)),
        }
    } else {
        Err(ErrorView::Runtime("invalid DateTime"@))
    }
}

/// Seconds given as a number. A floating-point number has already been
/// converted to nanoseconds, or has turned out not to be convertible.
pub enum Seconds {
    Int(i128),
    Float(Result<i128, Error>),
    Other,
}

/// The nanoseconds that a number of seconds makes.
pub open spec fn seconds_nanos(value: Seconds, context: Seq<char>) -> Result<i128, ErrorView> {
    match value {
        Seconds::Int(n) => if i128::MIN <= n * 1_000_000_000 <= i128::MAX {
            Ok((n * 1_000_000_000) as i128)
        } else {
            Err(ErrorView::Overflow)
        },
        Seconds::Float(r) => outcome(r),
        Seconds::Other => Err(ErrorView::Type(context + ": expected int or float seconds"@)),
    }
}

/// The point in time that seconds and nanoseconds after the epoch give.
pub open spec fn unix_nanos(secs: Option<Seconds>, nanos: Option<Value>) -> Result<int, ErrorView> {
    match nanos {
        Some(Value::Int(n)) => match secs {
            Some(value) => match seconds_nanos(value, "from_unix"@) {
                Ok(s) => if i128::MIN <= s + n <= i128::MAX {
                    Ok(s + n)
                } else {
                    Err(ErrorView::Overflow)
                },
                Err(e) => Err(e),
            },
            None => Ok(n as int),
        },
        Some(_) => Err(ErrorView::Type("from_unix: expected int nanos"@)),
        None => match secs {
            Some(value) => match seconds_nanos(value, "from_unix"@) {
                Ok(s) => Ok(s as int),
                Err(e) => Err(e),
            },
            None => Err(ErrorView::Type("from_unix: expected seconds, nanos, or both"@)),
        },
    }
}

/// The nanoseconds that a number of seconds makes.
pub fn value_to_unix_seconds_nanos(value: &Seconds, context: &str) -> (r: Result<i128, Error>)
    ensures
        outcome(r) == seconds_nanos(*value, context@),
{
    match value {
        Seconds::Int(n) => match n.checked_mul(NANOS_PER_SEC) {
            Some(nanos) => Ok(nanos),
            None => Err(Error::Overflow),
        },
        Seconds::Float(Ok(nanos)) => Ok(*nanos),
        Seconds::Float(Err(e)) => Err(e.copy()),
        Seconds::Other => Err(
            Error::Type(context.to_owned().concat(": expected int or float seconds")),
        ),
    }
}

impl DateTimeAnnex {
    /// The point `total_nanos` nanoseconds after the epoch.
    pub fn from_total_nanos(total_nanos: i128) -> (r: DateTimeAnnex)
        ensures
            r@ == total_nanos,
    {
        DateTimeAnnex { total_nanos }
    }

    /// Nanoseconds since the epoch.
    pub fn total_nanos(&self) -> (r: i128)
        ensures
            r == self@,
    {
        self.total_nanos
    }

    /// The point in time of a clock reading. Every reading has one.
    pub fn from_system_time(time: SystemTime) -> (r: Result<DateTimeAnnex, Error>)
        ensures
            r is Ok,
            r->Ok_0@ == time.total(),
    {
        let distance: i128 = time.secs as i128 * NANOS_PER_SEC + time.nanos as i128;
        let total_nanos: i128 = if time.before_epoch {
            -distance
        } else {
            distance
        };
        Ok(DateTimeAnnex { total_nanos })
    }

    /// The clock reading of this point in time.
    pub fn to_system_time(&self) -> (r: Result<SystemTime, Error>)
        ensures
            outcome(r) == system_time_of(self@),
    {
        let distance: u128 = magnitude(self.total_nanos);
        let secs: u128 = distance / 1_000_000_000;
        if secs > u64::MAX as u128 {
            return Err(Error::InvalidInput("timestamp overflow".to_owned()));
        }
        Ok(
            SystemTime {
                before_epoch: self.total_nanos < 0,
                secs: secs as u64,
                nanos: (distance % 1_000_000_000) as u32,
            },
        )
    }

    /// The point in time given by seconds and nanoseconds after the epoch.
    pub fn from_unix(secs: &Option<Seconds>, nanos: &Option<Value>) -> (r: Result<DateTimeAnnex, Error>)
        ensures
            viewed(r) == unix_nanos(*secs, *nanos),
    {
        let nanos: Option<i128> = match nanos {
            None => None,
            Some(Value::Int(n)) => Some(*n),
            Some(_) => return Err(Error::Type("from_unix: expected int nanos".to_owned())),
        };
        match secs {
            Some(value) => {
                let secs_nanos = match value_to_unix_seconds_nanos(value, "from_unix") {
                    Ok(n) => n,
                    Err(e) => return Err(e),
                };
                let more: i128 = match nanos {
                    Some(n) => n,
                    None => 0,
                };
                match secs_nanos.checked_add(more) {
                    Some(total_nanos) => Ok(DateTimeAnnex { total_nanos }),
                    None => Err(Error::Overflow),
                }
            },
            None => match nanos {
                Some(total_nanos) => Ok(DateTimeAnnex { total_nanos }),
                None => Err(
                    Error::Type("from_unix: expected seconds, nanos, or both".to_owned()),
                ),
            },
        }
    }

    /// The point in time that a parsed timestamp gives.
    pub fn from_parsed(parsed: Result<i128, String>) -> (r: Result<DateTimeAnnex, Error>)
        ensures
            viewed(r) == match parsed {
                Ok(n) => Ok(n as int),
                Err(e) => Err(ErrorView::Runtime(e@)),
            },
    {
        match parsed {
            Ok(total_nanos) => Ok(DateTimeAnnex { total_nanos }),
            Err(e) => Err(Error::Runtime(e)),
        }
    }

    /// The point in time that an RFC 3339 text gives.
    pub fn parse_rfc3339(text: &Value) -> (r: Result<DateTimeAnnex, Error>)
        ensures
            viewed(r) == match *text {
                Value::Str(s) => match rfc3339_nanos(s@) {
                    Ok(n) => Ok(n as int),
                    Err(e) => Err(ErrorView::Runtime(e)),
                },
                _ => Err(ErrorView::Type("parse_rfc3339: expected string"@)),
            },
    {
        match text {
            Value::Str(s) => Self::from_parsed(parse_timestamp(s.as_str())),
            _ => Err(Error::Type("parse_rfc3339: expected string".to_owned())),
        }
    }

    /// The RFC 3339 text of this point in time. Reading it back gives the
    /// point again, and every date from the year zero to 9999 has one.
    pub fn rfc3339(&self) -> (r: Result<String, Error>)
        ensures
            viewed(r) == datetime_text(self@ as i128),
            r matches Ok(s) ==> rfc3339_nanos(s@) == Ok::<i128, Seq<char>>(self@ as i128),
            r is Ok <==> -62_167_219_200 * 1_000_000_000 <= self@ < 253_402_300_800
                * 1_000_000_000,
    {
        if !timestamp_in_range(self.total_nanos) {
            return Err(Error::Runtime("invalid DateTime".to_owned()));
        }
        match format_timestamp(self.total_nanos) {
            Ok(s) => Ok(s),
            Err(e) => Err(Error::Runtime(e)),
        }
    }

    /// The point in time for debugging.
    pub fn debug(&self) -> (r: Result<String, Error>)
        ensures
            viewed(r) == match datetime_text(self@ as i128) {
                Ok(s) => Ok("<DateTime "@ + s + ">"@),
                Err(e) => Err(e),
            },
    {
        match self.rfc3339() {
            Ok(s) => Ok("<DateTime ".to_owned().concat(s.as_str()).concat(">")),
            Err(e) => Err(e),
        }
    }

    /// Whether both are the same point in time; there is none to compare with
    /// if the other value is not a point in time.
    pub fn eq_to(&self, other: Option<DateTimeAnnex>) -> (r: Result<bool, Error>)
        ensures
            outcome(r) == match other {
                Some(other) => Ok(self@ == other@),
                None => Err(ErrorView::NotSupported),
            },
    {
        match other {
            Some(other) => Ok(self.total_nanos == other.total_nanos),
            None => Err(Error::NotSupported),
        }
    }

    /// Whether this point in time is the earlier one.
    pub fn lt(&self, other: Option<DateTimeAnnex>) -> (r: Result<bool, Error>)
        ensures
            outcome(r) == match other {
                Some(other) => Ok(self@ < other@),
                None => Err(ErrorView::NotSupported),
            },
    {
        match other {
            Some(other) => Ok(self.total_nanos < other.total_nanos),
            None => Err(Error::NotSupported),
        }
    }

    /// How long this point in time is after the other.
    pub fn minus(&self, other: Option<DateTimeAnnex>) -> (r: Result<DurationAnnex, Error>)
        requires
            other matches Some(other) ==> i128::MIN <= self@ - other@ <= i128::MAX,
        ensures
            viewed(r) == match other {
                Some(other) => Ok(self@ - other@),
                None => Err(ErrorView::NotSupported),
            },
    {
        match other {
            Some(other) => Ok(
                DurationAnnex { total_nanos: self.total_nanos - other.total_nanos },
            ),
            None => Err(Error::NotSupported),
        }
    }
}

/// The clock reading of a value that has to be a point in time.
pub fn datetime_to_system_time(value: &Option<DateTimeAnnex>) -> (r: Result<SystemTime, Error>)
    ensures
        outcome(r) == match *value {
            Some(time) => system_time_of(time@),
            None => Err(ErrorView::Type("expected DateTime"@)),
        },
{
    match value {
        Some(time) => time.to_system_time(),
        None => Err(Error::Type("expected DateTime".to_owned())),
    }
}

/// A number without its sign.
fn magnitude(n: i128) -> (r: u128)
    ensures
        r == if n < 0 {
            -n
        } else {
            n as int
        },
{
    if n >= 0 {
        n as u128
    } else {
        (-(n + 1)) as u128 + 1
    }
}

/// Ten to the power of `n`.
pub open spec fn ten_to(n: nat) -> nat
    decreases n,
{
    if n == 0 {
        1
    } else {
        10 * ten_to((n - 1) as nat)
    }
}

/// `n` written with exactly `width` decimal digits.
pub open spec fn padded_digits(n: nat, width: nat) -> Seq<char>
    decreases width,
{
    if width == 0 {
        Seq::empty()
    } else {
        padded_digits(n / 10, (width - 1) as nat).push(digit(n % 10))
    }
}

/// `s` without the zeros at its end.
pub open spec fn without_zeros(s: Seq<char>) -> Seq<char>
    decreases s.len(),
{
    if s.len() > 0 && s.last() == '0' {
        without_zeros(s.drop_last())
    } else {
        s
    }
}

/// A duration in seconds: whole seconds, and as much of a fraction as there
/// is.
pub open spec fn duration_text(nanos: int) -> Seq<char> {
    if nanos == 0 {
        "0s"@
    } else {
        let distance = (if nanos < 0 { -nanos } else { nanos }) as nat;
        let sign = if nanos < 0 { "-"@ } else { Seq::empty() };
        let rest = distance % 1_000_000_000;
        let fraction = if rest == 0 {
            Seq::empty()
        } else {
            "."@ + without_zeros(padded_digits(rest, 9))
        };
        sign + decimal(distance / 1_000_000_000) + fraction + "s"@
    }
}

impl DurationAnnex {
    /// `total_nanos` nanoseconds.
    pub fn from_total_nanos(total_nanos: i128) -> (r: DurationAnnex)
        ensures
            r@ == total_nanos,
    {
        DurationAnnex { total_nanos }
    }

    /// The nanoseconds.
    pub fn nanos(&self) -> (r: i128)
        ensures
            r == self@,
    {
        self.total_nanos
    }

    /// Appends the duration in seconds.
    pub fn write_seconds(&self, out: &mut String)
        ensures
            final(out)@ == old(out)@ + duration_text(self@),
    {
        if self.total_nanos == 0 {
            out.append("0s");
            return;
        }
        if self.total_nanos < 0 {
            out.append("-");
        }
        let distance: u128 = magnitude(self.total_nanos);
        push_decimal(out, distance / 1_000_000_000);
        let rest: u32 = (distance % 1_000_000_000) as u32;
        if rest != 0 {
            out.append(".");
            let ghost before = out@;
            push_fraction(out, rest, 9);
            assert(out@ == before + without_zeros(padded_digits(rest as nat, 9)));
        }
        out.append("s");
        assert(out@ =~= old(out)@ + duration_text(self@));
    }

    /// The duration for debugging.
    pub fn debug(&self) -> (s: String)
        ensures
            s@ == "<Duration "@ + duration_text(self@) + ">"@,
    {
        let mut s = "<Duration ".to_owned();
        self.write_seconds(&mut s);
        s.append(">");
        s
    }

    /// The seconds and nanoseconds to wait for.
    pub fn to_std_duration(&self) -> (r: Result<(u64, u32), Error>)
        ensures
            outcome(r) == wait_of(self@),
    {
        if self.total_nanos < 0 {
            return Err(Error::Runtime("sleep duration must be non-negative".to_owned()));
        }
        let total: u128 = self.total_nanos as u128;
        let secs: u128 = total / 1_000_000_000;
        if secs > u64::MAX as u128 {
            return Err(Error::Overflow);
        }
        Ok((secs as u64, (total % 1_000_000_000) as u32))
    }

    /// Whether both last equally long.
    pub fn eq_to(&self, other: Option<DurationAnnex>) -> (r: Result<bool, Error>)
        ensures
            outcome(r) == match other {
                Some(other) => Ok(self@ == other@),
                None => Err(ErrorView::NotSupported),
            },
    {
        match other {
            Some(other) => Ok(self.total_nanos == other.total_nanos),
            None => Err(Error::NotSupported),
        }
    }

    /// Whether this is the shorter one.
    pub fn lt(&self, other: Option<DurationAnnex>) -> (r: Result<bool, Error>)
        ensures
            outcome(r) == match other {
                Some(other) => Ok(self@ < other@),
                None => Err(ErrorView::NotSupported),
            },
    {
        match other {
            Some(other) => Ok(self.total_nanos < other.total_nanos),
            None => Err(Error::NotSupported),
        }
    }
}

/// How long a duration is waited for.
pub open spec fn wait_of(nanos: int) -> Result<(u64, u32), ErrorView> {
    if nanos < 0 {
        Err(ErrorView::Runtime("sleep duration must be non-negative"@))
    } else if nanos / 1_000_000_000 > u64::MAX {
        Err(ErrorView::Overflow)
    } else {
        Ok(((nanos / 1_000_000_000) as u64, (nanos % 1_000_000_000) as u32))
    }
}

/// What a program asks to wait for. A floating-point number has already been
/// converted, or has turned out not to be convertible.
pub enum Wait {
    Duration(DurationAnnex),
    Int(i128),
    Float(Result<(u64, u32), Error>),
    Other,
}

/// The seconds and nanoseconds to wait for.
pub fn coerce_sleep_duration(value: &Wait) -> (r: Result<(u64, u32), Error>)
    ensures
        outcome(r) == match *value {
            Wait::Duration(duration) => wait_of(duration@),
            Wait::Int(n) => if n < 0 {
                Err(ErrorView::Runtime("sleep duration must be non-negative"@))
            } else if n > u64::MAX {
                Err(ErrorView::Overflow)
            } else {
                Ok((n as u64, 0u32))
            },
            Wait::Float(r) => outcome(r),
            Wait::Other => Err(
                ErrorView::Type("sleep argument must be a Duration, integer, or float"@),
            ),
        },
{
    match value {
        Wait::Duration(duration) => duration.to_std_duration(),
        Wait::Int(n) => {
            if *n < 0 {
                return Err(Error::Runtime("sleep duration must be non-negative".to_owned()));
            }
            if *n > u64::MAX as i128 {
                return Err(Error::Overflow);
            }
            Ok((*n as u64, 0))
        },
        Wait::Float(Ok(wait)) => Ok(*wait),
        Wait::Float(Err(e)) => Err(e.copy()),
        Wait::Other => Err(
            Error::Type("sleep argument must be a Duration, integer, or float".to_owned()),
        ),
    }
}

/// Appends the digits of a fraction of `width` digits, without the zeros at
/// the end.
fn push_fraction(out: &mut String, n: u32, width: u32)
    ensures
        final(out)@ == old(out)@ + without_zeros(padded_digits(n as nat, width as nat)),
    decreases width,
{
    let ghost all = padded_digits(n as nat, width as nat);
    if width == 0 {
        assert(out@ =~= old(out)@ + without_zeros(all));
        return;
    }
    let ghost init = padded_digits((n / 10) as nat, (width - 1) as nat);
    assert(all.drop_last() =~= init);
    if n % 10 == 0 {
        push_fraction(out, n / 10, width - 1);
    } else {
        push_digits(out, n / 10, width - 1);
        out.push(digit_char((n % 10) as u8));
        assert(digit((n % 10) as nat) != '0');
        assert(out@ =~= old(out)@ + all);
    }
}

/// Appends exactly `width` digits of `n`.
fn push_digits(out: &mut String, n: u32, width: u32)
    ensures
        final(out)@ == old(out)@ + padded_digits(n as nat, width as nat),
    decreases width,
{
    if width == 0 {
        assert(out@ =~= old(out)@ + padded_digits(n as nat, 0));
        return;
    }
    push_digits(out, n / 10, width - 1);
    out.push(digit_char((n % 10) as u8));
    assert(out@ =~= old(out)@ + padded_digits(n as nat, width as nat));
}

/// A clock reading survives the way to a point in time and back.
pub proof fn system_time_round_trips(time: SystemTime)
    requires
        time.valid(),
    ensures
        system_time_of(time.total()) == Ok::<SystemTime, ErrorView>(time),
{
    let distance = time.secs * 1_000_000_000 + time.nanos;
    assert(distance / 1_000_000_000 == time.secs);
    assert(distance % 1_000_000_000 == time.nanos);
}

/// A point in time survives the way to a clock reading and back.
pub proof fn point_in_time_round_trips(nanos: int)
    requires
        system_time_of(nanos) is Ok,
    ensures
        system_time_of(nanos)->Ok_0.total() == nanos,
        system_time_of(nanos)->Ok_0.valid(),
{
}

/// Writing digits loses nothing.
proof fn lemma_padded_digits(n: nat, width: nat)
    requires
        n < ten_to(width),
    ensures
        padded_digits(n, width).len() == width,
        all_digits(padded_digits(n, width)),
        number(padded_digits(n, width)) == n,
    decreases width,
{
    if width > 0 {
        lemma_padded_digits(n / 10, (width - 1) as nat);
        let all = padded_digits(n, width);
        let init = padded_digits(n / 10, (width - 1) as nat);
        assert(all.drop_last() =~= init);
        assert forall|i: int| 0 <= i < all.len() implies crate::text::is_digit(#[trigger] all[i]) by {
            if i < init.len() {
                assert(all[i] == init[i]);
            }
        }
    }
}

/// Zeros at the end of a fraction do not count.
proof fn lemma_without_zeros(s: Seq<char>, width: nat)
    requires
        s.len() <= width,
    ensures
        without_zeros(s).len() <= s.len(),
        number(without_zeros(s)) * ten_to((width - without_zeros(s).len()) as nat) == number(s)
            * ten_to((width - s.len()) as nat),
    decreases s.len(),
{
    if s.len() > 0 && s.last() == '0' {
        lemma_without_zeros(s.drop_last(), width);
        let k = (width - s.len()) as nat;
        assert(number(s) == 10 * number(s.drop_last()));
        assert(ten_to((width - s.drop_last().len()) as nat) == 10 * ten_to(k));
        assert(number(s.drop_last()) * (10 * ten_to(k)) == (10 * number(s.drop_last())) * ten_to(k))
            by (nonlinear_arith);
    }
}

/// A duration's fraction is exact: its digits, read as a decimal fraction of a
/// second, are the nanoseconds.
pub proof fn duration_fraction_is_exact(rest: nat)
    requires
        rest < 1_000_000_000,
    ensures
        ({
            let fraction = without_zeros(padded_digits(rest, 9));
            &&& fraction.len() <= 9
            &&& number(fraction) * ten_to((9 - fraction.len()) as nat) == rest
        }),
{
    reveal_with_fuel(ten_to, 10);
    lemma_padded_digits(rest, 9);
    lemma_without_zeros(padded_digits(rest, 9), 9);
    assert(ten_to(0) == 1);
    assert(number(padded_digits(rest, 9)) * ten_to(0) == rest);
}

} // verus!
