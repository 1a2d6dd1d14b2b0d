//! Fixed-point text for a ratio of integers, as printing the nearest binary64
//! value with a given number of decimals shows it (round to nearest, ties to
//! even, at both steps).
use crate::text::{decimal, digit_char, push_char, push_decimal};
use vstd::prelude::*;

verus! {

/// `2^e`.
pub open spec fn two_to(e: nat) -> nat
    decreases e,
{
    if e == 0 {
        1
    } else {
        2 * two_to((e - 1) as nat)
    }
}

/// `10^e`.
pub open spec fn ten_to(e: nat) -> nat
    decreases e,
{
    if e == 0 {
        1
    } else {
        10 * ten_to((e - 1) as nat)
    }
}

/// `n / d` rounded to the nearest integer, ties to the even one.
pub open spec fn div_round_even(n: int, d: int) -> int {
    let q = n / d;
    let r = n % d;
    if 2 * r < d {
        q
    } else if 2 * r > d {
        q + 1
    } else if q % 2 == 0 {
        q
    } else {
        q + 1
    }
}

/// Whether `2^s` scales `n / d` into `[2^52, 2^53)`, where a binary64
/// significand lies.
pub open spec fn in_significand_range(n: nat, d: nat, s: nat) -> bool {
    4503599627370496 * d <= n * two_to(s) < 9007199254740992 * d
}

/// The scale that brings `n / d` into the significand range.
pub open spec fn double_scale(n: nat, d: nat) -> nat {
    choose|s: nat| in_significand_range(n, d, s)
}

/// The binary64 value nearest to `n / d` (ties to even), times `10^k`,
/// rounded to an integer with ties to even.
pub open spec fn fixed_digits(n: nat, d: nat, k: nat) -> nat {
    if n == 0 {
        0
    } else {
        let s = double_scale(n, d);
        let m = div_round_even((n * two_to(s)) as int, d as int);
        div_round_even(m * ten_to(k), two_to(s) as int) as nat
    }
}

/// The last `k` decimal digits of `x`, with leading zeros.
pub open spec fn padded_digits(x: nat, k: nat) -> Seq<char>
    decreases k,
{
    if k == 0 {
        Seq::empty()
    } else {
        padded_digits(x / 10, (k - 1) as nat).push(digit_char(x % 10))
    }
}

/// The binary64 value nearest to `n / d` written with `k` decimals.
pub open spec fn fixed_text(n: nat, d: nat, k: nat) -> Seq<char> {
    let r = fixed_digits(n, d, k);
    decimal(r / ten_to(k)) + seq!['.'] + padded_digits(r % ten_to(k), k)
}

proof fn lemma_two_to_grows(a: nat, b: nat)
    requires
        a < b,
    ensures
        two_to(b) >= 2 * two_to(a),
    decreases b - a,
{
    if b > a + 1 {
        lemma_two_to_grows(a, (b - 1) as nat);
    }
}

proof fn lemma_two_to_above(e: nat)
    ensures
        two_to(e) > e,
    decreases e,
{
    if e > 0 {
        lemma_two_to_above((e - 1) as nat);
    }
}

/// Only one scale brings a ratio into the significand range.
proof fn lemma_scale_unique(n: nat, d: nat, s1: nat, s2: nat)
    requires
        in_significand_range(n, d, s1),
        in_significand_range(n, d, s2),
    ensures
        s1 == s2,
{
    if s1 < s2 {
        lemma_two_to_grows(s1, s2);
        assert(false) by (nonlinear_arith)
            requires
                two_to(s2) >= 2 * two_to(s1),
                4503599627370496 * d <= n * two_to(s1),
                n * two_to(s2) < 9007199254740992 * d,
        ;
    } else if s2 < s1 {
        lemma_two_to_grows(s2, s1);
        assert(false) by (nonlinear_arith)
            requires
                two_to(s1) >= 2 * two_to(s2),
                4503599627370496 * d <= n * two_to(s2),
                n * two_to(s1) < 9007199254740992 * d,
        ;
    }
}

/// The scale for `n / d`, and `2^scale`.
fn significand_scale(n: u64, d: u64) -> (r: (u128, u128))
    requires
        1 <= n < 0x400_0000_0000,
        1 <= d < 0x2_0000_0000,
    ensures
        in_significand_range(n as nat, d as nat, r.0 as nat),
        r.1 == two_to(r.0 as nat),
        r.0 as nat == double_scale(n as nat, d as nat),
{
    let n128 = n as u128;
    let d128 = d as u128;
    let mut s: u128 = 0;
    let mut p: u128 = 1;
    assert(n128 * p < 9007199254740992 * d128);
    while n128 * p < 4503599627370496 * d128
        invariant
            1 <= n128 < 0x400_0000_0000,
            1 <= d128 < 0x2_0000_0000,
            p == two_to(s as nat),
            n128 * p < 9007199254740992 * d128,
        decreases 9007199254740992 * d128 - n128 * p,
    {
        proof {
            lemma_two_to_above(s as nat);
        }
        assert(p <= n128 * p) by (nonlinear_arith)
            requires
                n128 >= 1,
                p >= 1,
        ;
        let p2 = 2 * p;
        assert(n128 * p2 == 2 * (n128 * p) && n128 * p >= 1) by (nonlinear_arith)
            requires
                p2 == 2 * p,
                n128 >= 1,
                p >= 1,
        ;
        s = s + 1;
        p = p2;
    }
    proof {
        let ss = s as nat;
        assert(exists|t: nat| in_significand_range(n as nat, d as nat, t)) by {
            assert(in_significand_range(n as nat, d as nat, ss));
        }
        let c = double_scale(n as nat, d as nat);
        lemma_scale_unique(n as nat, d as nat, ss, c);
    }
    (s, p)
}

/// `n / d` rounded to the nearest integer, ties to even.
fn div_round_even_u128(n: u128, d: u128) -> (r: u128)
    requires
        0 < d < 0x1000_0000_0000_0000_0000_0000,
        n < 0x1000_0000_0000_0000_0000_0000,
    ensures
        r == div_round_even(n as int, d as int),
{
    let q = n / d;
    let rem = n % d;
    if 2 * rem < d {
        q
    } else if 2 * rem > d {
        q + 1
    } else if q % 2 == 0 {
        q
    } else {
        q + 1
    }
}

/// Appends the last `k` decimal digits of `x`, with leading zeros.
pub fn push_padded(s: &mut String, x: u64, k: u32)
    ensures
        final(s)@ == old(s)@ + padded_digits(x as nat, k as nat),
    decreases k,
{
    if k > 0 {
        push_padded(s, x / 10, k - 1);
        let digit: u8 = (x % 10) as u8;
        push_char(s, (48u8 + digit) as char);
        assert(s@ =~= old(s)@ + padded_digits(x as nat, k as nat));
    }
}

fn ten_to_u64(k: u32) -> (r: u64)
    requires
        k <= 3,
    ensures
        r == ten_to(k as nat),
        1 <= r <= 1000,
{
    proof {
        reveal_with_fuel(ten_to, 4);
    }
    if k == 0 {
        1
    } else if k == 1 {
        10
    } else if k == 2 {
        100
    } else {
        1000
    }
}

/// The binary64 value nearest to `n / d`, times `10^k` and rounded: the
/// digits that printing it with `k` decimals shows.
pub fn fixed_value(n: u64, d: u64, k: u32) -> (r: u64)
    requires
        n < 0x400_0000_0000,
        1 <= d < 0x2_0000_0000,
        1 <= k <= 3,
    ensures
        r == fixed_digits(n as nat, d as nat, k as nat),
{
    let ten = ten_to_u64(k);
    if n == 0 {
        0
    } else {
        let (scale, p) = significand_scale(n, d);
        proof {
            assert((n as nat) * p < 9007199254740992 * (d as nat));
            assert((n as nat) * p < 0x1000_0000_0000_0000_0000_0000) by (nonlinear_arith)
                requires
                    (n as nat) * p < 9007199254740992 * (d as nat),
                    d < 0x2_0000_0000,
            ;
        }
        let m = div_round_even_u128(n as u128 * p, d as u128);
        proof {
            assert(m <= 9007199254740992) by (nonlinear_arith)
                requires
                    m == div_round_even((n as nat * p) as int, d as int),
                    (n as nat) * p < 9007199254740992 * (d as nat),
                    d >= 1,
            ;
            lemma_two_to_above(scale as nat);
            assert(p < 0x1000_0000_0000_0000_0000_0000) by (nonlinear_arith)
                requires
                    (n as nat) * p < 9007199254740992 * (d as nat),
                    d < 0x2_0000_0000,
                    n >= 1,
            ;
            assert(m * ten <= 9007199254740992 * 1000) by (nonlinear_arith)
                requires
                    m <= 9007199254740992,
                    ten <= 1000,
            ;
        }
        let r = div_round_even_u128(m * ten as u128, p);
        proof {
            assert(r <= m * ten + 1) by (nonlinear_arith)
                requires
                    r == div_round_even((m * ten) as int, p as int),
                    p >= 1,
            ;
            assert(r < 0x1_0000_0000_0000_0000);
        }
        r as u64
    }
}

/// Appends the binary64 value nearest to `n / d`, written with `k` decimals.
pub fn push_fixed(s: &mut String, n: u64, d: u64, k: u32)
    requires
        n < 0x400_0000_0000,
        1 <= d < 0x2_0000_0000,
        1 <= k <= 3,
    ensures
        final(s)@ == old(s)@ + fixed_text(n as nat, d as nat, k as nat),
{
    let ten = ten_to_u64(k);
    let digits = fixed_value(n, d, k);
    push_decimal(s, digits / ten);
    push_char(s, '.');
    push_padded(s, digits % ten, k);
    assert(digits == fixed_digits(n as nat, d as nat, k as nat));
    assert(s@ =~= old(s)@ + fixed_text(n as nat, d as nat, k as nat));
}

} // verus!
