//! Human-readable magnitude formatting: a byte count rendered with a
//! short suffix (K, M, G, T, P) under a radix of 1024 or 1000, with any
//! nonzero remainder rounded up, never down.

use vstd::arithmetic::div_mod::{
    lemma_div_is_ordered, lemma_div_is_ordered_by_denominator,
    lemma_mod_division_less_than_divisor, lemma_multiply_divide_lt,
};
use vstd::arithmetic::mul::lemma_mul_upper_bound;
use vstd::arithmetic::power::{lemma_pow_increases, lemma_pow_positive, pow};
use vstd::prelude::*;

use crate::strutil::{dec_str, u64_to_string};

verus! {

/// The magnitude exponent the formatter settles on, searching upward
/// from `i`: the largest power of the radix not exceeding `n`, clamped
/// to 5, the last suffix of the table.
pub open spec fn scale_from(n: nat, radix: nat, i: nat) -> nat
    decreases 5 - i when i <= 5
{
    if i >= 5 {
        5
    } else if n < pow(radix as int, i + 1) {
        i
    } else {
        scale_from(n, radix, i + 1)
    }
}

/// The magnitude exponent for `n`: 0 for less than one radix unit,
/// otherwise the largest `i <= 5` with `radix^i <= n`.
pub open spec fn scale_of(n: nat, radix: nat) -> nat {
    scale_from(n, radix, 0)
}

/// The suffix of each magnitude: K, M, G, T, P for exponents 1 to 5.
pub open spec fn suffix_str(i: nat) -> Seq<char> {
    if i <= 1 {
        "K"@
    } else if i == 2 {
        "M"@
    } else if i == 3 {
        "G"@
    } else if i == 4 {
        "T"@
    } else {
        "P"@
    }
}

/// The human-readable rendering of `n` under the given radix: `0` bare,
/// a plain byte count below one radix unit, otherwise an integer part
/// and one fractional decimal digit (rounded up on any remainder, with
/// a carry when it reaches 10), the fraction dropped once the integer
/// part has two digits, rounding the integer part up in its place.
pub open spec fn human_str(n: nat, radix: nat) -> Seq<char> {
    if n == 0 {
        "0"@
    } else if n < radix {
        dec_str(n) + "B"@
    } else {
        let i = scale_of(n, radix);
        let unit = pow(radix as int, i) as nat;
        let left = n / unit;
        let rem = n % unit;
        let right = (10 * rem + (unit - 1)) / unit as int;
        let l2 = if right == 10 {
            left + 1
        } else {
            left
        };
        let r2: int = if right == 10 {
            0
        } else {
            right
        };
        if l2 >= 10 {
            let l3 = if r2 > 0 {
                l2 + 1
            } else {
                l2
            };
            dec_str(l3 as nat) + suffix_str(i)
        } else {
            dec_str(l2) + "."@ + dec_str(r2 as nat) + suffix_str(i)
        }
    }
}

fn suffix_of(i: u64) -> (r: &'static str)
    requires
        1 <= i <= 5,
    ensures
        r@ == suffix_str(i as nat),
{
    if i == 1 {
        "K"
    } else if i == 2 {
        "M"
    } else if i == 3 {
        "G"
    } else if i == 4 {
        "T"
    } else {
        "P"
    }
}

/// Renders `n` as `human_str` describes, for a radix of 1024 (binary
/// magnitudes) or 1000 (decimal magnitudes).
pub fn human_format(n: u64, radix: u64) -> (r: String)
    requires
        radix == 1024 || radix == 1000,
    ensures
        r@ == human_str(n as nat, radix as nat),
{
    if n == 0 {
        return String::from_str("0");
    }
    if n < radix {
        let mut s = u64_to_string(n);
        s.append("B");
        return s;
    }
    let mut i: u64 = 0;
    let mut unit: u64 = 1;
    proof {
        reveal_with_fuel(pow, 6);
        assert(pow(radix as int, 0) == 1);
    }
    while i < 5 && n >= unit * radix
        invariant
            i <= 5,
            unit == pow(radix as int, i as nat),
            unit <= n,
            unit * radix <= u64::MAX,
            scale_of(n as nat, radix as nat) == scale_from(n as nat, radix as nat, i as nat),
        decreases 5 - i,
    {
        proof {
            reveal_with_fuel(pow, 6);
            assert(pow(radix as int, (i + 1) as nat) == radix * pow(radix as int, i as nat));
        }
        unit = unit * radix;
        i = i + 1;
        proof {
            lemma_pow_increases(radix as nat, i as nat, 5);
            reveal_with_fuel(pow, 6);
            assert(pow(1024, 5) == 0x4_0000_0000_0000);
            assert(pow(1000, 5) == 1_000_000_000_000_000);
            lemma_mul_upper_bound(unit as int, 0x4_0000_0000_0000, radix as int, 1024);
        }
    }
    proof {
        reveal_with_fuel(pow, 6);
        if i < 5 {
            assert(pow(radix as int, (i + 1) as nat) == radix * pow(radix as int, i as nat));
        }
        assert(scale_from(n as nat, radix as nat, i as nat) == i);
        if i == 0 {
            assert(n < unit * radix);
            assert(false);
        }
        lemma_pow_increases(radix as nat, 1, i as nat);
        assert(pow(radix as int, 1) == radix * pow(radix as int, 0));
        assert(unit >= radix);
        lemma_pow_increases(radix as nat, i as nat, 5);
        reveal_with_fuel(pow, 6);
        assert(pow(1024, 5) == 0x4_0000_0000_0000);
        assert(pow(1000, 5) == 1_000_000_000_000_000);
        assert(unit <= 0x4_0000_0000_0000);
        lemma_pow_positive(radix as int, i as nat);
        lemma_mod_division_less_than_divisor(n as int, unit as int);
    }
    let mut left: u64 = n / unit;
    let rem: u64 = n % unit;
    proof {
        assert(10 * rem + (unit - 1) < 11 * unit);
        lemma_div_is_ordered_by_denominator(n as int, radix as int, unit as int);
        lemma_div_is_ordered(n as int, u64::MAX as int, radix as int);
        lemma_div_is_ordered_by_denominator(u64::MAX as int, 1000, radix as int);
        assert(left <= u64::MAX as int / 1000);
    }
    let mut right: u64 = (10 * rem + (unit - 1)) / unit;
    proof {
        lemma_multiply_divide_lt(10 * rem + (unit - 1), unit as int, 11);
        assert(right <= 10);
    }
    if right == 10 {
        left = left + 1;
        right = 0;
    }
    let suffix = suffix_of(i);
    if left >= 10 {
        if right > 0 {
            left = left + 1;
        }
        let mut s = u64_to_string(left);
        s.append(suffix);
        proof {
            assert(s@ =~= human_str(n as nat, radix as nat));
        }
        s
    } else {
        let mut s = u64_to_string(left);
        s.append(".");
        let frac = u64_to_string(right);
        s.append(frac.as_str());
        s.append(suffix);
        proof {
            assert(s@ =~= human_str(n as nat, radix as nat));
        }
        s
    }
}

} // verus!
