//! Decimal rendering of the sequential identifiers used as node names.

use vstd::prelude::*;

verus! {

/// The decimal digit characters in order.
pub open spec fn digit_chars() -> Seq<char> {
    seq!['0', '1', '2', '3', '4', '5', '6', '7', '8', '9']
}

/// The decimal rendering of `n`, most significant digit first, with no
/// leading zeros (`0` itself renders as "0").
pub open spec fn spec_decimal(n: nat) -> Seq<char>
    decreases n,
{
    if n < 10 {
        seq![digit_chars()[n as int]]
    } else {
        spec_decimal(n / 10).push(digit_chars()[(n % 10) as int])
    }
}

/// The one-character string for a single decimal digit.
fn digit_str(d: u64) -> (s: &'static str)
    requires
        d < 10,
    ensures
        s@ == seq![digit_chars()[d as int]],
{
    proof {
        reveal_strlit("0");
        reveal_strlit("1");
        reveal_strlit("2");
        reveal_strlit("3");
        reveal_strlit("4");
        reveal_strlit("5");
        reveal_strlit("6");
        reveal_strlit("7");
        reveal_strlit("8");
        reveal_strlit("9");
    }
    match d {
        0 => "0",
        1 => "1",
        2 => "2",
        3 => "3",
        4 => "4",
        5 => "5",
        6 => "6",
        7 => "7",
        8 => "8",
        _ => "9",
    }
}

/// Renders `n` in decimal.
pub fn u64_to_decimal(n: u64) -> (s: String)
    ensures
        s@ == spec_decimal(n as nat),
    decreases n,
{
    if n < 10 {
        let s = digit_str(n).to_owned();
        assert(s@ =~= spec_decimal(n as nat));
        s
    } else {
        let mut s = u64_to_decimal(n / 10);
        s.append(digit_str(n % 10));
        assert(s@ =~= spec_decimal(n as nat));
        s
    }
}

/// Distinct numbers render as distinct names: the rendering is injective.
pub proof fn lemma_decimal_injective(a: nat, b: nat)
    requires
        spec_decimal(a) == spec_decimal(b),
    ensures
        a == b,
    decreases a,
{
    if a < 10 && b < 10 {
        assert(spec_decimal(a)[0] == digit_chars()[a as int]);
        assert(spec_decimal(b)[0] == digit_chars()[b as int]);
    } else if a < 10 {
        assert(spec_decimal(a).len() == 1);
        lemma_decimal_len_ge_two(b);
    } else if b < 10 {
        assert(spec_decimal(b).len() == 1);
        lemma_decimal_len_ge_two(a);
    } else {
        assert(spec_decimal(a).last() == digit_chars()[(a % 10) as int]);
        assert(spec_decimal(b).last() == digit_chars()[(b % 10) as int]);
        assert(a % 10 == b % 10);
        assert(spec_decimal(a).drop_last() =~= spec_decimal(a / 10));
        assert(spec_decimal(b).drop_last() =~= spec_decimal(b / 10));
        lemma_decimal_injective(a / 10, b / 10);
        assert(a == 10 * (a / 10) + a % 10);
        assert(b == 10 * (b / 10) + b % 10);
    }
}

/// The rendering always has at least one character.
proof fn lemma_decimal_nonempty(n: nat)
    ensures
        spec_decimal(n).len() >= 1,
    decreases n,
{
    if n >= 10 {
        lemma_decimal_nonempty(n / 10);
    }
}

/// A number of two or more digits renders to two or more characters.
proof fn lemma_decimal_len_ge_two(n: nat)
    requires
        n >= 10,
    ensures
        spec_decimal(n).len() >= 2,
{
    lemma_decimal_nonempty(n / 10);
}

} // verus!
