//! The seeded subtractive generator whose stream the whole generation depends
//! on.
use vstd::prelude::*;
use crate::double::{
    round_double_signed, round_to_double_signed, scale_draw, scaled_trunc, lemma_pow2_constants,
    lemma_round_double_bounds, lemma_bit_len_le, lemma_pow2_mono, dropped_bits,
};

verus! {

/// The modulus of the generator.
pub const MBIG: i32 = 2147483647;

/// Numerator over `2^83` of the double `4.6566128752458e-10` (just above
/// `1 / MBIG`) by which a raw value is scaled into a draw.
pub const SAMPLE_SCALE: i64 = 4503599629467651;

/// Abstract state of the generator: its two cursors and its table.
pub struct RngState {
    pub seed: i32,
    pub inext: int,
    pub inextp: int,
    pub table: Seq<i32>,
}

/// Wraps an integer of `(-2^32, 2^32)` into the `i32` range.
pub open spec fn wrap_i32(x: int) -> int {
    if x > i32::MAX {
        x - 0x1_0000_0000
    } else if x < i32::MIN {
        x + 0x1_0000_0000
    } else {
        x
    }
}

/// Difference of two table entries as the generator forms it: wrapped to 32
/// bits, and brought back by `MBIG` when negative.
pub open spec fn table_diff(a: i32, b: i32) -> i32 {
    let w = wrap_i32(a - b);
    (if w < 0 {
        w + MBIG
    } else {
        w
    }) as i32
}

/// The fill step of seeding, from step `k` on, with the two running values.
pub open spec fn fill_from(k: int, t: Seq<i32>, n1: i32, n2: i32) -> Seq<i32>
    decreases 55 - k,
{
    if k >= 55 {
        t
    } else {
        fill_from(k + 1, t.update((21 * k) % 55, n2), n2, table_diff(n1, n2))
    }
}

/// First value of the seeding: `161803398 - |seed|`.
pub open spec fn seed_base(seed: i32) -> i32 {
    (161803398 - (if seed < 0 {
        -seed
    } else {
        seed as int
    })) as i32
}

/// The table after the fill step of seeding.
pub open spec fn filled_table(seed: i32) -> Seq<i32> {
    fill_from(1, Seq::new(56, |i: int| 0i32).update(55, seed_base(seed)), seed_base(seed), 1)
}

/// One warming pass over entries `i..56`.
pub open spec fn mix_from(t: Seq<i32>, i: int) -> Seq<i32>
    decreases 56 - i,
{
    if i >= 56 || i < 1 {
        t
    } else {
        mix_from(t.update(i, table_diff(t[i], t[1 + (i + 30) % 55])), i + 1)
    }
}

/// `n` warming passes.
pub open spec fn mixed(t: Seq<i32>, n: nat) -> Seq<i32>
    decreases n,
{
    if n == 0 {
        t
    } else {
        mix_from(mixed(t, (n - 1) as nat), 1)
    }
}

/// The table of a freshly seeded generator.
pub open spec fn seeded_table(seed: i32) -> Seq<i32> {
    mixed(filled_table(seed), 4)
}

/// State of a freshly seeded generator.
pub open spec fn seeded_state(seed: i32) -> RngState {
    RngState { seed, inext: 0, inextp: 31, table: seeded_table(seed) }
}

pub open spec fn next_cursor(c: int) -> int {
    if c + 1 >= 56 {
        1
    } else {
        c + 1
    }
}

/// State after one draw.
pub open spec fn step(s: RngState) -> RngState {
    let i = next_cursor(s.inext);
    let j = next_cursor(s.inextp);
    RngState { seed: s.seed, inext: i, inextp: j, table: s.table.update(i, table_diff(s.table[i], s.table[j])) }
}

/// The raw value of the draw taken from state `s`.
pub open spec fn sample_of(s: RngState) -> i32 {
    table_diff(s.table[next_cursor(s.inext)], s.table[next_cursor(s.inextp)])
}

/// Numerator over `2^83` of the draw made of a raw value: the double product
/// of `sample` and the scale factor.
pub open spec fn draw_numer(sample: i32) -> int {
    round_double_signed(sample as int * SAMPLE_SCALE as int)
}

/// State after `n` draws.
pub open spec fn steps(s: RngState, n: nat) -> RngState
    decreases n,
{
    if n == 0 {
        s
    } else {
        step(steps(s, (n - 1) as nat))
    }
}

pub open spec fn state_wf(s: RngState) -> bool {
    &&& 0 <= s.inext < 56
    &&& 0 <= s.inextp < 56
    &&& s.table.len() == 56
}

pub open spec fn clamp_i32(x: int) -> int {
    if x > i32::MAX {
        i32::MAX as int
    } else if x < i32::MIN {
        i32::MIN as int
    } else {
        x
    }
}

/// A seeded pseudo-random generator.
pub struct DspRandom {
    inext: usize,
    inextp: usize,
    seed: i32,
    seed_array: Vec<i32>,
}

impl View for DspRandom {
    type V = RngState;

    closed spec fn view(&self) -> RngState {
        RngState {
            seed: self.seed,
            inext: self.inext as int, inextp: self.inextp as int, table: self.seed_array@ }
    }
}

proof fn lemma_draw_numer_bounds(sample: i32)
    ensures
        -0x40_0000_0000_0000_0000_0000 <= draw_numer(sample) <= 0x40_0000_0000_0000_0000_0000,
{
    let x = sample as int * SAMPLE_SCALE as int;
    assert(-0x10_0000_0000_0000_0000_0000 < x < 0x10_0000_0000_0000_0000_0000) by (nonlinear_arith)
        requires
            x == sample as int * 4503599629467651,
            -0x8000_0000 <= sample < 0x8000_0000,
    ;
    let a: nat = if x >= 0 {
        x as nat
    } else {
        (-x) as nat
    };
    lemma_pow2_constants();
    lemma_round_double_bounds(a);
    lemma_bit_len_le(a, 84);
    lemma_pow2_mono(dropped_bits(a), 31);
}

/// A raw value lies in `[-1, MBIG]`.
proof fn lemma_sample_range(a: i32, b: i32)
    ensures
        -1 <= table_diff(a, b) <= MBIG,
{
}

/// A derived seed is never `i32::MIN`: it is at least `-1`.
proof fn lemma_seed_above_min(sample: i32)
    requires
        -1 <= sample <= MBIG,
    ensures
        clamp_i32(scaled_trunc(draw_numer(sample), MBIG as int)) >= -1,
{
    lemma_pow2_constants();
    let m: int = SAMPLE_SCALE as int;
    if sample >= 0 {
        assert(sample as int * m >= 0) by (nonlinear_arith)
            requires
                sample >= 0,
                m >= 0,
        ;
        let d = draw_numer(sample);
        assert(d >= 0);
        assert(d * MBIG >= 0) by (nonlinear_arith)
            requires
                d >= 0,
        ;
    } else {
        assert(sample == -1);

        lemma_bit_len_le(m as nat, 53);
        assert(dropped_bits(m as nat) == 0);
        assert(crate::double::pow2(0) == 1);
        vstd::arithmetic::div_mod::lemma_fundamental_div_mod(m, 1);
        assert(crate::double::round_double(m as nat) == m);
        assert(draw_numer(sample) == -m);
        let x: nat = (m * MBIG) as nat;
        assert(x == 0x80000000000017fdffffd);
        lemma_round_double_bounds(x);
        lemma_bit_len_le(x, 84);
        lemma_pow2_mono(dropped_bits(x), 31);
        assert(crate::double::round_double(x) < 2 * 0x800000000000000000000);
        assert(crate::double::round_double(x) as int / 0x800000000000000000000 <= 1);
    }
}

impl DspRandom {
    /// The generator is well formed: cursors in range, a full table.
    pub closed spec fn wf(&self) -> bool {
        state_wf(self@)
    }

    /// The seed this generator was made with.
    pub fn seed(&self) -> (r: i32)
        ensures
            r == self@.seed,
    {
        self.seed
    }

    /// Difference of two table entries, wrapped as the generator does.
    fn diff(a: i32, b: i32) -> (r: i32)
        ensures
            r == table_diff(a, b),
    {
        let d: i64 = a as i64 - b as i64;
        let w: i64 = if d > 2147483647 {
            d - 4294967296
        } else if d < -2147483648 {
            d + 4294967296
        } else {
            d
        };
        let f: i64 = if w < 0 {
            w + 2147483647
        } else {
            w
        };
        f as i32
    }

    pub fn new(seed: i32) -> (r: Self)
        requires
            seed != i32::MIN,
        ensures
            r.wf(),
            r@ == seeded_state(seed),
    {
        let mut table: Vec<i32> = Vec::new();
        while table.len() < 56
            invariant
                table.len() <= 56,
                forall|i: int| 0 <= i < table@.len() ==> table@[i] == 0i32,
            decreases 56 - table.len(),
        {
            table.push(0);
        }
        assert(table@ == Seq::new(56, |i: int| 0i32));
        let abs_seed: i32 = if seed < 0 {
            -seed
        } else {
            seed
        };
        let mut num1: i32 = 161803398 - abs_seed;
        table.set(55, num1);
        let mut num2: i32 = 1;
        let mut index1: usize = 1;
        while index1 < 55
            invariant
                1 <= index1 <= 55,
                table@.len() == 56,
                fill_from(index1 as int, table@, num1, num2) == filled_table(seed),
            decreases 55 - index1,
        {
            let index2 = (21 * index1) % 55;
            table.set(index2, num2);
            let next = Self::diff(num1, num2);
            num1 = num2;
            num2 = next;
            index1 += 1;
        }
        let mut pass: usize = 1;
        while pass < 5
            invariant
                1 <= pass <= 5,
                table@.len() == 56,
                table@ == mixed(filled_table(seed), (pass - 1) as nat),
            decreases 5 - pass,
        {
            let ghost start = table@;
            let mut index4: usize = 1;
            while index4 < 56
                invariant
                    1 <= index4 <= 56,
                    table@.len() == 56,
                    mix_from(table@, index4 as int) == mix_from(start, 1),
                decreases 56 - index4,
            {
                let v = Self::diff(table[index4], table[1 + (index4 + 30) % 55]);
                table.set(index4, v);
                index4 += 1;
            }
            pass += 1;
        }
        DspRandom { inext: 0, inextp: 31, seed, seed_array: table }
    }

    /// Takes one draw and returns its raw value, the numerator over `MBIG`
    /// of the draw.
    pub fn next_sample(&mut self) -> (r: i32)
        requires
            old(self).wf(),
        ensures
            final(self).wf(),
            final(self)@ == step(old(self)@),
            r == sample_of(old(self)@),
    {
        self.inext = self.inext + 1;
        if self.inext >= 56 {
            self.inext = 1;
        }
        self.inextp = self.inextp + 1;
        if self.inextp >= 56 {
            self.inextp = 1;
        }
        let num = Self::diff(self.seed_array[self.inext], self.seed_array[self.inextp]);
        self.seed_array.set(self.inext, num);
        num
    }

    /// Takes one draw and returns it as a double in `[0, 1)`, given by its
    /// exact numerator over `2^83`.
    pub fn next_draw(&mut self) -> (r: i128)
        requires
            old(self).wf(),
        ensures
            final(self).wf(),
            final(self)@ == step(old(self)@),
            r as int == draw_numer(sample_of(old(self)@)),
            -0x40_0000_0000_0000_0000_0000 <= r <= 0x40_0000_0000_0000_0000_0000,
    {
        let s = self.next_sample();
        proof {
            lemma_draw_numer_bounds(s);
        }
        let x: i128 = s as i128 * SAMPLE_SCALE as i128;
        round_to_double_signed(x)
    }

    /// Takes one draw `d` and returns the integer part of `d * max_value`.
    pub fn next_i32(&mut self, max_value: i32) -> (r: i32)
        requires
            old(self).wf(),
        ensures
            final(self).wf(),
            final(self)@ == step(old(self)@),
            r as int == clamp_i32(
                scaled_trunc(draw_numer(sample_of(old(self)@)), max_value as int),
            ),
    {
        let ghost s0 = old(self)@;
        let d = self.next_draw();
        proof {
            lemma_draw_numer_bounds(sample_of(s0));
        }
        let v = scale_draw(d, max_value);
        if v > i32::MAX as i128 {
            i32::MAX
        } else if v < i32::MIN as i128 {
            i32::MIN
        } else {
            v as i32
        }
    }

    /// Takes one draw `d` and returns the integer part of `d * MBIG`, as a
    /// `usize`.
    pub fn next_usize(&mut self) -> (r: usize)
        requires
            old(self).wf(),
        ensures
            final(self).wf(),
            final(self)@ == step(old(self)@),
            r as int == {
                let t = scaled_trunc(draw_numer(sample_of(old(self)@)), MBIG as int);
                if t < 0 {
                    0
                } else if t > usize::MAX {
                    usize::MAX as int
                } else {
                    t
                }
            },
    {
        let ghost s0 = old(self)@;
        let d = self.next_draw();
        proof {
            lemma_draw_numer_bounds(sample_of(s0));
        }
        let v = scale_draw(d, MBIG);
        if v < 0 {
            0
        } else if v > usize::MAX as i128 {
            usize::MAX
        } else {
            v as usize
        }
    }

    /// Takes one draw `d` and returns the integer part of `d * MBIG`: the
    /// seed of a derived generator.
    pub fn next_seed(&mut self) -> (r: i32)
        requires
            old(self).wf(),
        ensures
            final(self).wf(),
            final(self)@ == step(old(self)@),
            r as int == clamp_i32(scaled_trunc(draw_numer(sample_of(old(self)@)), MBIG as int)),
            r >= -1,
    {
        proof {
            let s0 = old(self)@;
            lemma_sample_range(
                s0.table[crate::random::next_cursor(s0.inext)],
                s0.table[crate::random::next_cursor(s0.inextp)],
            );
            lemma_seed_above_min(sample_of(s0));
        }
        self.next_i32(MBIG)
    }
}

/// Draw number `k` (from zero) of the generator seeded with `seed`, as its
/// numerator over `2^83`.
pub open spec fn nth_draw(seed: i32, k: nat) -> int {
    draw_numer(sample_of(steps(seeded_state(seed), k)))
}

/// Seed derived from draw number `k` of the generator seeded with `seed`.
pub open spec fn nth_seed(seed: i32, k: nat) -> int {
    clamp_i32(scaled_trunc(nth_draw(seed, k), MBIG as int))
}

/// Takes `n` draws.
pub fn take_draws(rng: &mut DspRandom, n: usize) -> (r: Vec<i128>)
    requires
        old(rng).wf(),
    ensures
        final(rng).wf(),
        final(rng)@ == steps(old(rng)@, n as nat),
        r@.len() == n,
        forall|k: int| 0 <= k < n ==> r@[k] as int == draw_numer(sample_of(steps(old(rng)@, k as nat))),
        forall|k: int| 0 <= k < n ==> -0x40_0000_0000_0000_0000_0000 <= #[trigger] r@[k] <= 0x40_0000_0000_0000_0000_0000,
{
    let mut r: Vec<i128> = Vec::new();
    let mut i: usize = 0;
    while i < n
        invariant
            0 <= i <= n,
            rng.wf(),
            rng@ == steps(old(rng)@, i as nat),
            r@.len() == i,
            forall|k: int| 0 <= k < i ==> r@[k] as int == draw_numer(sample_of(steps(old(rng)@, k as nat))),
            forall|k: int| 0 <= k < i ==> -0x40_0000_0000_0000_0000_0000 <= #[trigger] r@[k] <= 0x40_0000_0000_0000_0000_0000,
        decreases n - i,
    {
        let d = rng.next_draw();
        r.push(d);
        i += 1;
    }
    r
}

} // verus!
