//! The parameters of SGR ("select graphic rendition") control sequences.

use vstd::prelude::*;
use crate::term::style::{Color, Sgr};
use crate::text::{all_digits, is_digit, number, split};

verus! {

broadcast use vstd::string::group_string_axioms;

/// The value of one parameter. An empty parameter is zero; otherwise it is a
/// decimal number below 65536, optionally signed with a plus.
pub open spec fn sgr_value(value: Seq<char>) -> Option<u16> {
    if value.len() == 0 {
        Some(0)
    } else {
        let digits = if value[0] == '+' { value.drop_first() } else { value };
        if digits.len() > 0 && all_digits(digits) && number(digits) <= u16::MAX {
            Some(number(digits) as u16)
        } else {
            None
        }
    }
}

/// The values of all parameters of a sequence.
pub open spec fn sgr_values(params: Seq<char>) -> Seq<Option<u16>> {
    split(params, ';').map_values(|value: Seq<char>| sgr_value(value))
}

/// What a parameter that stands alone asks for.
pub open spec fn simple_op(value: u16) -> Option<Sgr> {
    if value == 0 {
        Some(Sgr::Reset)
    } else if value <= 5 {
        Some(Sgr::AttrOn((value - 1) as usize))
    } else if value <= 9 {
        Some(Sgr::AttrOn((value - 2) as usize))
    } else if value == 22 {
        Some(Sgr::IntensityOff)
    } else if 23 <= value <= 25 {
        Some(Sgr::AttrOff((value - 21) as usize, value as u8))
    } else if 27 <= value <= 29 {
        Some(Sgr::AttrOff((value - 22) as usize, value as u8))
    } else if 30 <= value <= 37 {
        Some(Sgr::Fg(Some(Color::Ansi((value - 30) as u8))))
    } else if value == 39 {
        Some(Sgr::Fg(None))
    } else if 40 <= value <= 47 {
        Some(Sgr::Bg(Some(Color::Ansi((value - 40) as u8))))
    } else if value == 49 {
        Some(Sgr::Bg(None))
    } else if 90 <= value <= 97 {
        Some(Sgr::Fg(Some(Color::Ansi((value - 82) as u8))))
    } else if 100 <= value <= 107 {
        Some(Sgr::Bg(Some(Color::Ansi((value - 92) as u8))))
    } else {
        None
    }
}

/// The color component at `at`, if there is one.
pub open spec fn component(values: Seq<Option<u16>>, at: int) -> Option<u8> {
    if at < values.len() && values[at] is Some && values[at]->0 <= u8::MAX {
        Some(values[at]->0 as u8)
    } else {
        None
    }
}

/// The color that the parameters from `at` spell out, and how many they are:
/// `5;n` picks from the palette, `2;r;g;b` mixes.
pub open spec fn extended_color(values: Seq<Option<u16>>, at: int) -> Option<(Color, int)> {
    if at < values.len() && values[at] == Some(5u16) {
        match component(values, at + 1) {
            Some(index) => Some((Color::Indexed(index), 2)),
            None => None,
        }
    } else if at < values.len() && values[at] == Some(2u16) {
        match (component(values, at + 1), component(values, at + 2), component(values, at + 3)) {
            (Some(r), Some(g), Some(b)) => Some((Color::Rgb(r, g, b), 4)),
            _ => None,
        }
    } else {
        None
    }
}

/// Everything that the parameters from `at` on ask for. Parameters that mean
/// nothing are skipped one at a time.
pub open spec fn sgr_ops(values: Seq<Option<u16>>, at: int) -> Seq<Sgr>
    decreases values.len() - at,
{
    if at < 0 || at >= values.len() {
        Seq::empty()
    } else {
        match values[at] {
            None => sgr_ops(values, at + 1),
            Some(value) => match simple_op(value) {
                Some(op) => seq![op] + sgr_ops(values, at + 1),
                None => if value == 38 || value == 48 {
                    match extended_color(values, at + 1) {
                        Some((color, used)) => seq![
                            if value == 38 {
                                Sgr::Fg(Some(color))
                            } else {
                                Sgr::Bg(Some(color))
                            },
                        ] + sgr_ops(values, at + 1 + (if used == 2 { 2int } else { 4int })),
                        None => sgr_ops(values, at + 1),
                    }
                } else {
                    sgr_ops(values, at + 1)
                },
            },
        }
    }
}

/// Everything that a sequence with the parameters `params` asks for.
pub open spec fn params_ops(params: Seq<char>) -> Seq<Sgr> {
    sgr_ops(sgr_values(params), 0)
}

/// Parameters only ever name attributes that exist.
pub proof fn lemma_ops_valid(values: Seq<Option<u16>>, at: int)
    ensures
        forall|i: int| 0 <= i < sgr_ops(values, at).len() ==> (#[trigger] sgr_ops(values, at)[i]).valid(),
    decreases values.len() - at,
{
    if 0 <= at < values.len() {
        let next = match values[at] {
            Some(value) if simple_op(value) is None && (value == 38 || value == 48) => {
                match extended_color(values, at + 1) {
                    Some((_, used)) => at + 1 + (if used == 2 { 2int } else { 4int }),
                    None => at + 1,
                }
            },
            _ => at + 1,
        };
        lemma_ops_valid(values, next);
        let ops = sgr_ops(values, at);
        let rest = sgr_ops(values, next);
        assert forall|i: int| 0 <= i < ops.len() implies (#[trigger] ops[i]).valid() by {
            if ops.len() == rest.len() {
                assert(ops == rest);
            } else if i > 0 {
                assert(ops[i] == rest[i - 1]);
            }
        }
    }
}

/// The value of one parameter.
pub fn parse_sgr_value(value: &str) -> (r: Option<u16>)
    ensures
        r == sgr_value(value@),
{
    let mut acc: u32 = 0;
    let mut big = false;
    let mut count: usize = 0;
    let mut at_start = true;
    let ghost signed = value@.len() > 0 && value@[0] == '+';
    let ghost digits = if signed { value@.drop_first() } else { value@ };
    let ghost mut done: Seq<char> = Seq::empty();
    for c in iter: value.chars()
        invariant
            iter.seq() == value@,
            at_start == (iter.index() == 0),
            signed == (value@.len() > 0 && value@[0] == '+'),
            digits == (if signed { value@.drop_first() } else { value@ }),
            done == digits.take(iter.index() - (if signed && iter.index() > 0 { 1int } else { 0 })),
            count == 0 <==> done.len() == 0,
            all_digits(done),
            big ==> number(done) > u16::MAX,
            !big ==> acc == number(done) && acc <= u16::MAX,
    {
        if at_start && c == '+' {
            assert(signed);
            assert(digits.take(0) =~= done);
        } else {
            let ghost k = done.len() as int;
            assert(digits[k] == c);
            if c < '0' || c > '9' {
                assert(!is_digit(digits[k]));
                assert(!all_digits(digits));
                return None;
            }
            proof {
                assert(digits.take(k + 1) =~= done.push(c));
                assert(done.push(c).drop_last() =~= done);
                done = done.push(c);
            }
            let d: u32 = c as u32 - '0' as u32;
            if !big {
                acc = acc * 10 + d;
                if acc > u16::MAX as u32 {
                    big = true;
                }
            }
            count = 1;
        }
        at_start = false;
    }
    assert(done =~= digits);
    if value.is_empty() {
        Some(0)
    } else if count == 0 || big {
        None
    } else {
        Some(acc as u16)
    }
}

/// What a parameter that stands alone asks for.
fn parse_simple(value: u16) -> (r: Option<Sgr>)
    ensures
        r == simple_op(value),
{
    match value {
        0 => Some(Sgr::Reset),
        1..=5 => Some(Sgr::AttrOn((value - 1) as usize)),
        6..=9 => Some(Sgr::AttrOn((value - 2) as usize)),
        22 => Some(Sgr::IntensityOff),
        23..=25 => Some(Sgr::AttrOff((value - 21) as usize, value as u8)),
        27..=29 => Some(Sgr::AttrOff((value - 22) as usize, value as u8)),
        30..=37 => Some(Sgr::Fg(Some(Color::Ansi((value - 30) as u8)))),
        39 => Some(Sgr::Fg(None)),
        40..=47 => Some(Sgr::Bg(Some(Color::Ansi((value - 40) as u8)))),
        49 => Some(Sgr::Bg(None)),
        90..=97 => Some(Sgr::Fg(Some(Color::Ansi((value - 82) as u8)))),
        100..=107 => Some(Sgr::Bg(Some(Color::Ansi((value - 92) as u8)))),
        _ => None,
    }
}

/// Reads the rendition changes of one sequence, in order.
pub struct SgrParser {
    values: Vec<Option<u16>>,
    at: usize,
}

impl View for SgrParser {
    type V = Seq<Sgr>;

    /// The changes still to come.
    closed spec fn view(&self) -> Seq<Sgr> {
        sgr_ops(self.values@, self.at as int)
    }
}

impl SgrParser {
    #[verifier::type_invariant]
    spec fn inv(self) -> bool {
        self.at <= self.values@.len()
    }

    /// Starts reading the parameters `params`.
    pub fn new(params: &str) -> (parser: SgrParser)
        ensures
            parser@ == params_ops(params@),
    {
        let mut values: Vec<Option<u16>> = Vec::new();
        let mut current = String::new();
        let ghost f = |value: Seq<char>| sgr_value(value);
        assert(split(Seq::<char>::empty(), ';') =~= seq![Seq::<char>::empty()]);
        for c in iter: params.chars()
            invariant
                iter.seq() == params@,
                split(params@.take(iter.index()), ';').len() > 0,
                f == (|value: Seq<char>| sgr_value(value)),
                values@ == split(params@.take(iter.index()), ';').drop_last().map_values(f),
                current@ == split(params@.take(iter.index()), ';').last(),
        {
            let ghost before = params@.take(iter.index());
            let ghost after = params@.take(iter.index() + 1);
            proof {
                assert(after =~= before.push(c));
                assert(after.drop_last() =~= before);
            }
            if c == ';' {
                values.push(parse_sgr_value(current.as_str()));
                current = String::new();
                proof {
                    assert(split(after, ';').drop_last() =~= split(before, ';'));
                    assert(values@ =~= split(before, ';').map_values(f));
                }
            } else {
                current.push(c);
                proof {
                    assert(split(after, ';').drop_last() =~= split(before, ';').drop_last());
                }
            }
        }
        values.push(parse_sgr_value(current.as_str()));
        proof {
            assert(params@.take(params@.len() as int) =~= params@);
            assert(values@ =~= split(params@, ';').map_values(f));
        }
        SgrParser { values, at: 0 }
    }

    /// The color component at `at`, if there is one.
    fn component(&self, at: usize) -> (r: Option<u8>)
        ensures
            r == component(self.values@, at as int),
    {
        if at < self.values.len() {
            match self.values[at] {
                Some(value) => if value <= 255 {
                    Some(value as u8)
                } else {
                    None
                },
                None => None,
            }
        } else {
            None
        }
    }

    /// The color that the parameters after the one at `at` spell out.
    fn extended(&self, at: usize) -> (r: Option<(Color, usize)>)
        requires
            at < self.values@.len(),
        ensures
            match r {
                Some((color, used)) => extended_color(self.values@, at + 1) == Some(
                    (color, used as int),
                ) && at + 1 + used <= self.values@.len(),
                None => extended_color(self.values@, at + 1) is None,
            },
    {
        let len = self.values.len();
        if len - at <= 2 {
            return None;
        }
        match self.values[at + 1] {
            Some(5) => match self.component(at + 2) {
                Some(index) => Some((Color::Indexed(index), 2)),
                None => None,
            },
            Some(2) => {
                if len - at <= 4 {
                    return None;
                }
                match (self.component(at + 2), self.component(at + 3), self.component(at + 4)) {
                    (Some(r), Some(g), Some(b)) => Some((Color::Rgb(r, g, b), 4)),
                    _ => None,
                }
            },
            _ => None,
        }
    }

    /// Takes the next change.
    pub fn next(&mut self) -> (r: Option<Sgr>)
        ensures
            match r {
                Some(op) => op.valid() && old(self)@ == seq![op] + final(self)@,
                None => old(self)@.len() == 0 && final(self)@.len() == 0,
            },
    {
        proof {
            use_type_invariant(&*self);
            lemma_ops_valid(self.values@, self.at as int);
        }
        let ghost values = self.values@;
        let ghost start = self.at as int;
        loop
            invariant
                self.values@ == values,
                self.at <= values.len(),
                sgr_ops(values, self.at as int) == sgr_ops(values, start),
                forall|i: int| 0 <= i < sgr_ops(values, start).len() ==> (#[trigger] sgr_ops(
                    values,
                    start,
                )[i]).valid(),
                old(self)@ == sgr_ops(values, start),
            decreases values.len() - self.at,
        {
            if self.at >= self.values.len() {
                return None;
            }
            let at = self.at;
            let raw = self.values[at];
            if let Some(value) = raw {
                if let Some(op) = parse_simple(value) {
                    self.at = at + 1;
                    assert(sgr_ops(values, start)[0] == op);
                    return Some(op);
                }
                if value == 38 || value == 48 {
                    if let Some((color, used)) = self.extended(at) {
                        self.at = at + 1 + used;
                        let op = if value == 38 {
                            Sgr::Fg(Some(color))
                        } else {
                            Sgr::Bg(Some(color))
                        };
                        return Some(op);
                    }
                }
            }
            self.at = at + 1;
        }
    }
}

} // verus!
