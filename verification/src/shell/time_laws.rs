//! What points in time and lengths of time are, in the numbers they come from
//! and go to.

use vstd::prelude::*;
use crate::error::ErrorView;
use crate::shell::time::{
    duration_fraction_is_exact, duration_text, padded_digits, seconds_nanos, system_time_of, ten_to,
    unix_nanos, wait_of, without_zeros, Seconds, SystemTime,
};
use crate::term::filter_laws::lemma_decimal;
use crate::text::{all_digits, decimal, is_digit, number};
use crate::value::Value;

verus! {

broadcast use vstd::string::group_string_axioms;

/// Whether a number of seconds is this many nanoseconds.
pub open spec fn is_seconds(value: Seconds, nanos: int) -> bool {
    match value {
        Seconds::Int(n) => nanos == n * 1_000_000_000,
        Seconds::Float(converted) => converted matches Ok(n) && nanos == n as int,
        Seconds::Other => false,
    }
}

/// A number of seconds makes a thousand million nanoseconds each, whenever
/// that many can be held.
pub proof fn seconds_have_a_billion_nanoseconds(value: Seconds, context: Seq<char>, nanos: i128)
    ensures
        seconds_nanos(value, context) == Ok::<i128, ErrorView>(nanos) <==> is_seconds(
            value,
            nanos as int,
        ),
{
}

/// What the seconds of a point in time come to; without any, nothing.
pub open spec fn seconds_part(secs: Option<Seconds>, nanos: int) -> bool {
    match secs {
        Some(value) => is_seconds(value, nanos),
        None => nanos == 0,
    }
}

/// What the nanoseconds of a point in time come to; without any, nothing.
pub open spec fn nanos_part(given: Option<Value>, nanos: int) -> bool {
    match given {
        Some(value) => value matches Value::Int(n) && nanos == n as int,
        None => nanos == 0,
    }
}

/// A point in time is its seconds and its nanoseconds together, and needs one
/// of them.
pub proof fn points_in_time_add_up(secs: Option<Seconds>, given: Option<Value>, s: i128, n: i128)
    requires
        seconds_part(secs, s as int),
        nanos_part(given, n as int),
    ensures
        unix_nanos(secs, given) is Ok <==> (secs is Some || given is Some) && i128::MIN <= s + n
            <= i128::MAX,
        unix_nanos(secs, given) matches Ok(total) ==> total == s + n,
{
    if let Some(value) = secs {
        seconds_have_a_billion_nanoseconds(value, "from_unix"@, s);
    }
}

/// A point in time is the clock reading that lies as many seconds and
/// nanoseconds before or after the epoch.
pub proof fn clock_readings_tell_the_time(nanos: int, time: SystemTime)
    ensures
        system_time_of(nanos) == Ok::<SystemTime, ErrorView>(time) <==> {
            &&& time.nanos < 1_000_000_000
            &&& time.before_epoch <==> nanos < 0
            &&& nanos == (if time.before_epoch {
                -1
            } else {
                1int
            }) * (time.secs * 1_000_000_000 + time.nanos)
        },
{
    let distance = if nanos < 0 {
        -nanos
    } else {
        nanos
    };
    let d = time.secs * 1_000_000_000 + time.nanos;
    if time.nanos < 1_000_000_000 {
        assert(d / 1_000_000_000 == time.secs && d % 1_000_000_000 == time.nanos as int);
    }
    assert((-1) * d == -d && 1 * d == d);
}

/// A wait is as long as it was asked for, in whole seconds and the rest of one.
pub proof fn waits_are_as_long_as_asked(nanos: int, secs: u64, rest: u32)
    ensures
        wait_of(nanos) == Ok::<(u64, u32), ErrorView>((secs, rest)) <==> rest < 1_000_000_000
            && nanos == secs * 1_000_000_000 + rest,
        wait_of(nanos) is Err <==> nanos < 0 || nanos >= (u64::MAX + 1) * 1_000_000_000,
{
}

/// Whether a text spells a length of time: a sign if it is negative, whole
/// seconds, and after a point as many digits of the fraction as it needs.
pub open spec fn spells(
    text: Seq<char>,
    whole: Seq<char>,
    fraction: Seq<char>,
    nanos: int,
) -> bool {
    &&& whole.len() > 0 && all_digits(whole)
    &&& fraction.len() <= 9 && all_digits(fraction)
    &&& fraction.len() > 0 ==> fraction.last() != '0'
    &&& text == (if nanos < 0 {
        seq!['-']
    } else {
        seq![]
    }) + whole + (if fraction.len() == 0 {
        seq![]
    } else {
        seq!['.'] + fraction
    }) + seq!['s']
    &&& number(whole) * 1_000_000_000 + number(fraction) * ten_to((9 - fraction.len()) as nat)
        == if nanos < 0 {
        -nanos
    } else {
        nanos
    }
}

proof fn lemma_padded(n: nat, width: nat)
    ensures
        padded_digits(n, width).len() == width,
        all_digits(padded_digits(n, width)),
    decreases width,
{
    if width > 0 {
        lemma_padded(n / 10, (width - 1) as nat);
        let all = padded_digits(n, width);
        let init = padded_digits(n / 10, (width - 1) as nat);
        assert forall|i: int| 0 <= i < all.len() implies is_digit(#[trigger] all[i]) by {
            if i < init.len() {
                assert(all[i] == init[i]);
            }
        }
    }
}

proof fn lemma_trimmed(s: Seq<char>)
    requires
        all_digits(s),
    ensures
        all_digits(without_zeros(s)),
        without_zeros(s).len() > 0 ==> without_zeros(s).last() != '0',
    decreases s.len(),
{
    if s.len() > 0 && s.last() == '0' {
        let init = s.drop_last();
        assert forall|i: int| 0 <= i < init.len() implies is_digit(#[trigger] init[i]) by {
            assert(init[i] == s[i]);
        }
        lemma_trimmed(init);
    }
}

/// The text of a length of time spells it, to the nanosecond.
pub proof fn durations_are_spelled_out(nanos: int)
    ensures
        exists|whole: Seq<char>, fraction: Seq<char>| #[trigger]
            spells(duration_text(nanos), whole, fraction, nanos),
{
    reveal_strlit("0s");
    reveal_strlit("-");
    reveal_strlit(".");
    reveal_strlit("s");
    let distance = (if nanos < 0 {
        -nanos
    } else {
        nanos
    }) as nat;
    let rest = distance % 1_000_000_000;
    let whole = decimal(distance / 1_000_000_000);
    lemma_decimal(distance / 1_000_000_000);
    let empty = Seq::<char>::empty();
    assert(number(empty) == 0);
    if rest == 0 {
        assert(number(empty) * ten_to(9) == 0) by (nonlinear_arith)
            requires
                number(empty) == 0,
        ;
        if nanos == 0 {
            assert(whole =~= seq!['0']);
            assert(duration_text(nanos) =~= empty + whole + empty + seq!['s']);
        } else {
            assert("-"@ =~= seq!['-']);
            assert("s"@ =~= seq!['s']);
        }
        assert(spells(duration_text(nanos), whole, empty, nanos));
    } else {
        let fraction = without_zeros(padded_digits(rest, 9));
        duration_fraction_is_exact(rest);
        lemma_padded(rest, 9);
        lemma_trimmed(padded_digits(rest, 9));
        if fraction.len() == 0 {
            assert(fraction =~= empty);
            assert(number(fraction) * ten_to(9) == 0) by (nonlinear_arith)
                requires
                    number(fraction) == 0,
            ;
        }
        assert("-"@ =~= seq!['-']);
        assert("s"@ =~= seq!['s']);
        assert("."@ =~= seq!['.']);
        assert(spells(duration_text(nanos), whole, fraction, nanos));
    }
}

} // verus!
