//! Sets of flags: their bits by name, and how many are set.

use vstd::prelude::*;
use crate::text::str_eq;

verus! {

broadcast use vstd::string::group_string_axioms;

/// How many bits are set in a number.
pub open spec fn ones(n: nat) -> nat
    decreases n,
{
    if n == 0 {
        0
    } else {
        n % 2 + ones(n / 2)
    }
}

/// How many bits are set in a number.
pub fn rank_of(bits: u32) -> (n: usize)
    ensures
        n == ones(bits as nat),
{
    let mut rest: u32 = bits;
    let mut n: usize = 0;
    let ghost mut limit: nat = 32;
    proof {
        assert(pow2(32) == 0x1_0000_0000) by {
            reveal_with_fuel(pow2, 33);
        }
    }
    while rest != 0
        invariant
            n + ones(rest as nat) == ones(bits as nat),
            n + limit <= 32,
            rest < pow2(limit),
        decreases rest,
    {
        assert(limit > 0) by {
            if limit == 0 {
                assert(pow2(0) == 1);
            }
        }
        n = n + (rest % 2) as usize;
        rest = rest / 2;
        proof {
            limit = (limit - 1) as nat;
        }
    }
    n
}

/// Two to the power `n`.
pub open spec fn pow2(n: nat) -> nat
    decreases n,
{
    if n == 0 {
        1
    } else {
        2 * pow2((n - 1) as nat)
    }
}

/// The bits that go by a name: those of the first entry with it.
pub open spec fn find(names: Seq<(Seq<char>, u32)>, name: Seq<char>) -> Option<u32>
    decreases names.len(),
{
    if names.len() == 0 {
        None
    } else if names[0].0 == name {
        Some(names[0].1)
    } else {
        find(names.skip(1), name)
    }
}

/// Whether a list of names and bits has the content `names`.
pub open spec fn lists(v: Seq<(&'static str, u32)>, names: Seq<(Seq<char>, u32)>) -> bool {
    &&& v.len() == names.len()
    &&& forall|i: int|
        0 <= i < v.len() ==> (#[trigger] v[i]).0@ == names[i].0 && v[i].1 == names[i].1
}

/// The bits that go by a name.
pub(crate) fn find_bit(
    v: &Vec<(&'static str, u32)>,
    name: &str,
    Ghost(names): Ghost<Seq<(Seq<char>, u32)>>,
) -> (r: Option<u32>)
    requires
        lists(v@, names),
    ensures
        r == find(names, name@),
{
    let mut i: usize = 0;
    assert(names.skip(0) =~= names);
    while i < v.len()
        invariant
            i <= v@.len(),
            lists(v@, names),
            find(names, name@) == find(names.skip(i as int), name@),
        decreases v@.len() - i,
    {
        proof {
            assert(names.skip(i as int)[0] == names[i as int]);
            assert(names.skip(i as int).skip(1) =~= names.skip(i + 1));
        }
        if str_eq(v[i].0, name) {
            return Some(v[i].1);
        }
        i = i + 1;
    }
    None
}

} // verus!
