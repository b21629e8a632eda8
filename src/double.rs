//! Exact integer model of the few double-precision operations that a draw of
//! the generator goes through.
//!
//! A double here is always a non-negative or negative integer numerator over a
//! fixed power of two; rounding to double precision then keeps the 53 most
//! significant bits of the numerator, ties to even.
use vstd::prelude::*;
use vstd::arithmetic::div_mod::{lemma_fundamental_div_mod, lemma_div_pos_is_pos};

verus! {

/// `2^83`: a draw of the generator is a double equal to an integer over this.
pub const DRAW_SCALE: i128 = 9671406556917033397649408;

pub open spec fn pow2(k: nat) -> nat
    decreases k,
{
    if k == 0 {
        1
    } else {
        2 * pow2((k - 1) as nat)
    }
}

/// Number of binary digits of `x`.
pub open spec fn bit_len(x: nat) -> nat
    decreases x,
{
    if x == 0 {
        0
    } else {
        1 + bit_len(x / 2)
    }
}

/// Number of low bits dropped when `x` is rounded to 53 significant bits.
pub open spec fn dropped_bits(x: nat) -> nat {
    if bit_len(x) <= 53 {
        0
    } else {
        (bit_len(x) - 53) as nat
    }
}

/// The integer nearest to `x` with at most 53 significant bits, ties to even:
/// rounding of a double precision result, on its numerator.
pub open spec fn round_double(x: nat) -> nat {
    let p = pow2(dropped_bits(x));
    let q = x / p;
    let r = x % p;
    if r * 2 > p || (r * 2 == p && q % 2 == 1) {
        (q + 1) * p
    } else {
        q * p
    }
}

/// Rounding to double precision of a signed numerator (symmetric about zero).
pub open spec fn round_double_signed(x: int) -> int {
    if x >= 0 {
        round_double(x as nat) as int
    } else {
        -(round_double((-x) as nat) as int)
    }
}

/// Conversion toward zero of `x / 2^83` to an integer.
pub open spec fn trunc_scaled(x: int) -> int {
    if x >= 0 {
        x / (DRAW_SCALE as int)
    } else {
        -((-x) / (DRAW_SCALE as int))
    }
}

/// Integer part (toward zero) of the double product of the draw `numer / 2^83`
/// and the integer `m`.
pub open spec fn scaled_trunc(numer: int, m: int) -> int {
    trunc_scaled(round_double_signed(numer * m))
}

pub proof fn lemma_pow2_pos(k: nat)
    ensures
        pow2(k) >= 1,
    decreases k,
{
    if k > 0 {
        lemma_pow2_pos((k - 1) as nat);
    }
}

pub proof fn lemma_pow2_mono(a: nat, b: nat)
    requires
        a <= b,
    ensures
        pow2(a) <= pow2(b),
    decreases b,
{
    if a < b {
        lemma_pow2_mono(a, (b - 1) as nat);
        lemma_pow2_pos((b - 1) as nat);
    }
}

pub proof fn lemma_pow2_add(a: nat, b: nat)
    ensures
        pow2(a + b) == pow2(a) * pow2(b),
    decreases a,
{
    if a == 0 {
        assert(pow2(a) == 1);
        assert(a + b == b);
    } else {
        let a1: nat = (a - 1) as nat;
        let s: nat = a1 + b;
        let c = pow2(a1);
        let d = pow2(b);
        lemma_pow2_add(a1, b);
        assert(pow2(s) == c * d);
        assert(a + b == s + 1);
        assert(pow2(s + 1) == 2 * pow2(s));
        assert(pow2(a) == 2 * c);
        assert(2 * (c * d) == (2 * c) * d) by (nonlinear_arith);
    }
}

/// `x` lies in `[2^(n-1), 2^n)` where `n` is its number of binary digits.
pub proof fn lemma_bit_len_bounds(x: nat)
    ensures
        x < pow2(bit_len(x)),
        x > 0 ==> pow2((bit_len(x) - 1) as nat) <= x,
    decreases x,
{
    if x > 0 {
        lemma_bit_len_bounds(x / 2);
        if x / 2 > 0 {
            assert(pow2((bit_len(x / 2) - 1) as nat) <= x / 2);
        }
    }
}

/// Below `2^m` a number has at most `m` binary digits.
pub proof fn lemma_bit_len_le(x: nat, m: nat)
    requires
        x < pow2(m),
    ensures
        bit_len(x) <= m,
    decreases x,
{
    if x > 0 {
        lemma_bit_len_bounds(x);
        if bit_len(x) > m {
            lemma_pow2_mono(m, (bit_len(x) - 1) as nat);
        }
    }
}

/// Rounding moves a value up by less than one unit of its last kept bit.
pub proof fn lemma_round_double_bounds(x: nat)
    ensures
        x - pow2(dropped_bits(x)) < round_double(x) as int,
        round_double(x) <= x + pow2(dropped_bits(x)),
        round_double(x) % pow2(dropped_bits(x)) == 0,
{
    let p = pow2(dropped_bits(x));
    lemma_pow2_pos(dropped_bits(x));
    lemma_fundamental_div_mod(x as int, p as int);
    let q = x / p;
    lemma_div_pos_is_pos(x as int, p as int);
    assert((q + 1) * p == q * p + p) by (nonlinear_arith);
    assert((((q + 1) * p) as int) % (p as int) == 0) by {
        vstd::arithmetic::div_mod::lemma_mod_multiples_basic((q + 1) as int, p as int);
    }
    assert(((q * p) as int) % (p as int) == 0) by {
        vstd::arithmetic::div_mod::lemma_mod_multiples_basic(q as int, p as int);
    }
}

/// The powers of two that bound the numerators handled here.
pub proof fn lemma_pow2_constants()
    ensures
        pow2(10) == 1024,
        pow2(31) == 0x8000_0000,
        pow2(53) == 0x20_0000_0000_0000,
        pow2(63) == 0x8000_0000_0000_0000,
        pow2(67) == 0x8_0000_0000_0000_0000,
        pow2(84) == 0x10_0000_0000_0000_0000_0000,
        pow2(100) == 0x10000000000000000000000000,
        pow2(120) == 0x1000000000000000000000000000000,
{
    reveal_with_fuel(pow2, 11);
    assert(pow2(10) == 1024);
    lemma_pow2_add(10, 10);
    assert(pow2(20) == 0x100000);
    lemma_pow2_add(20, 10);
    assert(pow2(31) == 2 * pow2(30));
    lemma_pow2_add(20, 20);
    assert(pow2(40) == 0x10000000000);
    lemma_pow2_add(20, 40);
    assert(pow2(3) == 8);
    lemma_pow2_add(60, 3);
    lemma_pow2_add(3, 40);
    lemma_pow2_add(10, 43);
    lemma_pow2_add(40, 40);
    assert(pow2(80) == 0x100000000000000000000);
    lemma_pow2_add(60, 7);
    lemma_pow2_add(80, 4);
    lemma_pow2_add(80, 20);
    assert(pow2(100) == 0x10000000000000000000000000);
    lemma_pow2_add(100, 20);
}

/// Exact number of binary digits of `x`.
pub fn bit_length(x: u128) -> (n: u32)
    requires
        x < 0x1000000000000000000000000000000,
    ensures
        n as nat == bit_len(x as nat),
        n <= 120,
{
    proof {
        lemma_pow2_constants();
    }
    let mut y: u128 = x;
    let mut n: u32 = 0;
    while y > 0
        invariant
            n as nat + bit_len(y as nat) == bit_len(x as nat),
            n <= 120,
            y < pow2((120 - n) as nat),
        decreases y,
    {
        proof {
            if n == 120 {
                assert(false);
            }
            lemma_pow2_pos((119 - n) as nat);
            assert(pow2((120 - n) as nat) == 2 * pow2((119 - n) as nat));
            assert(y / 2 < pow2((119 - n) as nat));
        }
        y = y / 2;
        n = n + 1;
    }
    n
}

/// `2^k` for `k <= 120`.
pub fn pow2_u128(k: u32) -> (p: u128)
    requires
        k <= 120,
    ensures
        p as nat == pow2(k as nat),
{
    let mut p: u128 = 1;
    let mut i: u32 = 0;
    while i < k
        invariant
            i <= k,
            k <= 120,
            p as nat == pow2(i as nat),
        decreases k - i,
    {
        proof {
            lemma_pow2_mono((i + 1) as nat, 120);
            lemma_pow2_constants();
        }
        p = p * 2;
        i = i + 1;
    }
    p
}

/// Rounds a non-negative numerator to double precision.
pub fn round_to_double(x: u128) -> (r: u128)
    requires
        x < 0x1000000000000000000000000000000,
    ensures
        r as nat == round_double(x as nat),
{
    proof {
        lemma_pow2_constants();
        lemma_bit_len_le(x as nat, 120);
        lemma_round_double_bounds(x as nat);
        lemma_pow2_mono(dropped_bits(x as nat), 67);
    }
    let n = bit_length(x);
    let k: u32 = if n <= 53 { 0 } else { n - 53 };
    let p = pow2_u128(k);
    let q = x / p;
    let rem = x % p;
    if rem * 2 > p || (rem * 2 == p && q % 2 == 1) {
        proof {
            lemma_fundamental_div_mod(x as int, p as int);
            assert((q + 1) * p == q * p + p) by (nonlinear_arith);
        }
        (q + 1) * p
    } else {
        proof {
            lemma_fundamental_div_mod(x as int, p as int);
        }
        q * p
    }
}

/// Rounds a signed numerator to double precision.
pub fn round_to_double_signed(x: i128) -> (r: i128)
    requires
        -0x1000000000000000000000000000000 < x < 0x1000000000000000000000000000000,
    ensures
        r as int == round_double_signed(x as int),
{
    if x >= 0 {
        let a = round_to_double(x as u128);
        proof {
            lemma_pow2_constants();
            lemma_round_double_bounds(x as nat);
            lemma_bit_len_le(x as nat, 120);
            lemma_pow2_mono(dropped_bits(x as nat), 67);
        }
        a as i128
    } else {
        let a = round_to_double((-x) as u128);
        proof {
            lemma_pow2_constants();
            lemma_round_double_bounds((-x) as nat);
            lemma_bit_len_le((-x) as nat, 120);
            lemma_pow2_mono(dropped_bits((-x) as nat), 67);
        }
        -(a as i128)
    }
}

/// Integer part (toward zero) of the double product of the draw
/// `numer / 2^83` and `m`.
pub fn scale_draw(numer: i128, m: i32) -> (r: i128)
    requires
        -0x40_0000_0000_0000_0000_0000 <= numer <= 0x40_0000_0000_0000_0000_0000,
    ensures
        r as int == scaled_trunc(numer as int, m as int),
{
    proof {
        assert(-0x20_0000_0000_0000_0000_0000_0000_0000 <= numer * m <= 0x20_0000_0000_0000_0000_0000_0000_0000)
            by (nonlinear_arith)
            requires
                -0x40_0000_0000_0000_0000_0000 <= numer <= 0x40_0000_0000_0000_0000_0000,
                -0x8000_0000 <= m < 0x8000_0000,
        ;
    }
    let prod: i128 = numer * m as i128;
    let rounded = round_to_double_signed(prod);
    proof {
        let a = if prod >= 0 { prod as nat } else { (-prod) as nat };
        lemma_pow2_constants();
        lemma_round_double_bounds(a);
        lemma_bit_len_le(a, 120);
        lemma_pow2_mono(dropped_bits(a), 67);
    }
    if rounded >= 0 {
        rounded / DRAW_SCALE
    } else {
        -((-rounded) / DRAW_SCALE)
    }
}

} // verus!
