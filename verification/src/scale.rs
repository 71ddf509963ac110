//! Display scaling in single precision.
//!
//! A display's scale factor is its DPI divided by 96, held in single precision,
//! and a length on screen is a length in logical pixels times that factor,
//! again rounded to single precision.  Both roundings can move a result across
//! a whole pixel, so they are carried out here exactly, on integers: a number
//! is a count of units of 2^-30, which is fine enough for every factor that a
//! DPI value has.

use vstd::prelude::*;

verus! {

/// How many units of 2^-30 make one.
pub const ONE: u64 = 0x4000_0000;

/// How many values a 24-bit significand has.
pub const SIGNIFICANDS: u128 = 0x100_0000;

/// The DPI of a display that is not scaled.
pub const BASE_DPI: u32 = 96;

/// The integer nearest to `a / b`; of two equally near, the even one.
pub open spec fn nearest_even(a: nat, b: nat) -> nat
    recommends
        b > 0,
{
    let q = a / b;
    let r = a % b;
    if 2 * r < b || (2 * r == b && q % 2 == 0) {
        q
    } else {
        q + 1
    }
}

/// The first of `u`, `2 * u`, `4 * u`, .. of which `a / b` is under 2^24 times as much.
pub open spec fn spacing_from(a: nat, b: nat, u: nat) -> nat
    decreases a - u,
{
    if b == 0 || u == 0 || a < SIGNIFICANDS * (b * u) {
        u
    } else {
        proof {
            assert(u <= b * u) by (nonlinear_arith)
                requires
                    b > 0,
            ;
        }
        spacing_from(a, b, 2 * u)
    }
}

/// `a / b` rounded to a 24-bit significand, ties to even.  Below 2^24 every
/// integer is such a number; above, they lie `spacing_from(a, b, 1)` apart.
pub open spec fn to_single(a: nat, b: nat) -> nat {
    let u = spacing_from(a, b, 1);
    nearest_even(a, b * u) * u
}

/// Rounds `a / b` to single precision.
fn round_single(a: u128, b: u128) -> (r: u128)
    requires
        0 < b <= 3,
        a < 0x10_0000_0000_0000_0000_0000_0000,
    ensures
        r == to_single(a as nat, b as nat),
        r <= 2 * a,
{
    let mut u: u128 = 1;
    let mut step: u128 = b;
    while a >= SIGNIFICANDS * step
        invariant
            0 < b <= 3,
            u >= 1,
            step == b * u,
            a < 0x10_0000_0000_0000_0000_0000_0000,
            step <= 2 * a + b,
            spacing_from(a as nat, b as nat, 1) == spacing_from(a as nat, b as nat, u as nat),
        decreases a + a + b - step,
    {
        proof {
            assert(u <= b * u) by (nonlinear_arith)
                requires
                    b > 0,
            ;
            assert(b * (2 * u) == 2 * (b * u)) by (nonlinear_arith);
        }
        u = 2 * u;
        step = 2 * step;
    }
    let q: u128 = a / step;
    let r: u128 = a % step;
    proof {
        vstd::arithmetic::div_mod::lemma_fundamental_div_mod(a as int, step as int);
        assert(q * u <= a) by (nonlinear_arith)
            requires
                a == step * q + r,
                step == b * u,
                b >= 1,
                u >= 1,
                r >= 0,
                q >= 0,
        ;
        if 2 * r >= step {
            assert((q + 1) * u <= 2 * a) by (nonlinear_arith)
                requires
                    a == step * q + r,
                    step == b * u,
                    b >= 1,
                    u >= 1,
                    2 * r >= step,
                    q >= 0,
            ;
        }
    }
    if 2 * r < step || (2 * r == step && q % 2 == 0) {
        q * u
    } else {
        (q + 1) * u
    }
}

/// What `a` units amount to in whole pixels, rounded down, as far as an `i32` reaches.
pub open spec fn whole(a: nat) -> int {
    let n = a / ONE as nat;
    if n > i32::MAX {
        i32::MAX as int
    } else {
        n as int
    }
}

/// What `a` units amount to in whole pixels, halves rounded up, as far as an `i32` reaches.
pub open spec fn rounded(a: nat) -> int {
    whole((a + ONE / 2) as nat)
}

/// What `a` units amount to in whole ones, halves rounded up, as far as a `u32` reaches.
pub open spec fn rounded_unsigned(a: nat) -> int {
    let n = (a + ONE / 2) as nat / ONE as nat;
    if n > u32::MAX {
        u32::MAX as int
    } else {
        n as int
    }
}

fn whole_of(a: u128) -> (r: i32)
    ensures
        r == whole(a as nat),
{
    let n: u128 = a / (ONE as u128);
    if n > i32::MAX as u128 {
        i32::MAX
    } else {
        n as i32
    }
}

/// A scale factor: a non-negative single-precision number.
#[derive(Clone, Copy, PartialEq, Eq, Structural, Debug)]
pub struct Scale {
    units: u64,
}

impl View for Scale {
    type V = nat;

    /// The factor in units of 2^-30.
    closed spec fn view(&self) -> nat {
        self.units as nat
    }
}

/// `dpi / 96` in single precision, in units of 2^-30.
pub open spec fn dpi_ratio(dpi: u32) -> nat {
    to_single(to_single(dpi as nat, 1) * 0x200_0000, 3)
}

/// `k` times the factor `s`, in single precision, in units of 2^-30.
pub open spec fn times(k: nat, s: nat) -> nat {
    to_single(to_single(k, 1) * s, 1)
}

/// The coordinate `x` times the factor `s`, rounded to a whole pixel, halves
/// away from zero, as far as an `i32` reaches.
pub open spec fn scaled_coordinate(x: i32, s: nat) -> int {
    if x >= 0 {
        rounded(times(x as nat, s))
    } else {
        let n = (times((-x) as nat, s) + ONE / 2) as nat / ONE as nat;
        if n > 0x8000_0000 {
            i32::MIN as int
        } else {
            -n
        }
    }
}

impl Scale {
    /// The factor of a display with `dpi` dots per inch, which may be less than one.
    pub fn ratio(dpi: u32) -> (r: Scale)
        ensures
            r@ == dpi_ratio(dpi),
    {
        let d: u128 = round_single(dpi as u128, 1);
        Scale { units: round_single(d * 0x200_0000, 3) as u64 }
    }

    /// `k` logical pixels on this display, in single precision, before any
    /// rounding to whole pixels.
    pub fn product(self, k: u32) -> (r: u128)
        ensures
            r == times(k as nat, self@),
            r <= 0x10_0000_0000_0000_0000_0000_0000,
    {
        let n: u128 = round_single(k as u128, 1);
        assert(n * self.units < 0x8_0000_0000_0000_0000_0000_0000) by (nonlinear_arith)
            requires
                n <= 0x2_0000_0000,
                self.units <= 0xffff_ffff_ffff_ffff,
        ;
        round_single(n * (self.units as u128), 1)
    }

    /// `k` logical pixels on this display in whole pixels, rounded down.
    pub fn floor(self, k: u32) -> (r: i32)
        ensures
            r == whole(times(k as nat, self@)),
            r >= 0,
    {
        whole_of(self.product(k))
    }

    /// `k` logical pixels on this display in whole pixels, halves rounded up.
    pub fn round(self, k: u32) -> (r: i32)
        ensures
            r == rounded(times(k as nat, self@)),
            r >= 0,
    {
        whole_of(self.product(k) + (ONE / 2) as u128)
    }

    /// `k` times this factor in whole ones, halves rounded up.
    pub fn round_unsigned(self, k: u32) -> (r: u32)
        ensures
            r == rounded_unsigned(times(k as nat, self@)),
    {
        let n: u128 = (self.product(k) + (ONE / 2) as u128) / (ONE as u128);
        if n > u32::MAX as u128 {
            u32::MAX
        } else {
            n as u32
        }
    }

    /// The logical coordinate `x` on this display.
    pub fn coordinate(self, x: i32) -> (r: i32)
        ensures
            r == scaled_coordinate(x, self@),
    {
        if x >= 0 {
            self.round(x as u32)
        } else {
            let m: u32 = (-(x as i64)) as u32;
            let n: u128 = (self.product(m) + (ONE / 2) as u128) / (ONE as u128);
            if n > 0x8000_0000 {
                i32::MIN
            } else {
                (-(n as i64)) as i32
            }
        }
    }

    /// Whether this is the factor one.
    pub fn is_one(self) -> (r: bool)
        ensures
            r == (self@ == ONE),
    {
        self.units == ONE
    }

    /// This factor, or one if it is smaller.
    pub fn at_least_one(self) -> (r: Scale)
        ensures
            r@ == if self@ < ONE {
                ONE as nat
            } else {
                self@
            },
    {
        if self.units < ONE {
            Scale { units: ONE }
        } else {
            self
        }
    }

    /// Whether the two factors are more than one hundredth apart.
    pub fn differs(self, other: Scale) -> (r: bool)
        ensures
            r == (self@ > other@ + HUNDREDTH || other@ > self@ + HUNDREDTH),
    {
        if self.units > other.units {
            self.units - other.units > HUNDREDTH
        } else {
            other.units - self.units > HUNDREDTH
        }
    }
}

/// One hundredth in single precision, in units of 2^-30.
pub const HUNDREDTH: u64 = 10_737_418;

proof fn lemma_spacing_divides(a: nat, u: nat, j: nat)
    requires
        u > 0,
        a < SIGNIFICANDS * (u * vstd::arithmetic::power2::pow2(j)),
    ensures
        exists|i: nat|
            i <= j && #[trigger] spacing_from(a, 1, u) * vstd::arithmetic::power2::pow2(i) == u
                * vstd::arithmetic::power2::pow2(j),
    decreases j,
{
    if a < SIGNIFICANDS * (1 * u) {
        assert(spacing_from(a, 1, u) == u);
    } else {
        if j == 0 {
            vstd::arithmetic::power2::lemma2_to64();
            assert(false);
        }
        let h = (j - 1) as nat;
        vstd::arithmetic::power2::lemma_pow2_unfold(j);
        let p = vstd::arithmetic::power2::pow2(h);
        assert(u * (2 * p) == (2 * u) * p) by (nonlinear_arith);
        lemma_spacing_divides(a, 2 * u, h);
    }
}

/// A number with at most 24 significant bits is left as it is: `k * 2^j` rounds
/// to itself when `k` is under 2^24.
pub proof fn single_keeps(k: nat, j: nat)
    requires
        k < SIGNIFICANDS,
    ensures
        to_single(k * vstd::arithmetic::power2::pow2(j), 1) == k * vstd::arithmetic::power2::pow2(j),
{
    let p = vstd::arithmetic::power2::pow2(j);
    vstd::arithmetic::power2::lemma_pow2_pos(j);
    let a = k * p;
    assert(a < SIGNIFICANDS * (1 * p)) by (nonlinear_arith)
        requires
            a == k * p,
            k < SIGNIFICANDS,
            p > 0,
    ;
    lemma_spacing_divides(a, 1, j);
    let u = spacing_from(a, 1, 1);
    let i = choose|i: nat| i <= j && u * vstd::arithmetic::power2::pow2(i) == 1 * p;
    let d = vstd::arithmetic::power2::pow2(i);
    assert(u > 0) by (nonlinear_arith)
        requires
            u * d == p,
            p > 0,
            u >= 0,
    ;
    assert(a == (k * d) * u) by (nonlinear_arith)
        requires
            a == k * p,
            u * d == p,
    ;
    vstd::arithmetic::div_mod::lemma_div_multiples_vanish((k * d) as int, u as int);
    vstd::arithmetic::div_mod::lemma_mod_multiples_basic((k * d) as int, u as int);
    vstd::arithmetic::mul::lemma_mul_is_commutative((k * d) as int, u as int);
}

/// A display at 96 DPI is not scaled, and on it lengths and coordinates under
/// 2^24 keep their value.
pub proof fn unscaled_display_keeps(k: nat)
    requires
        k < SIGNIFICANDS,
    ensures
        dpi_ratio(BASE_DPI) == ONE,
        whole(times(k, ONE as nat)) == k,
        rounded(times(k, ONE as nat)) == k,
{
    vstd::arithmetic::power2::lemma2_to64();
    single_keeps(96, 0);
    let a: nat = 96 * 0x200_0000;
    assert(to_single(96, 1) == 96);
    assert(spacing_from(a, 3, 1) == 128) by {
        reveal_with_fuel(spacing_from, 9);
    }
    assert(nearest_even(a, 3 * 128) == 0x80_0000);
    assert(to_single(a, 3) == ONE);
    assert(dpi_ratio(BASE_DPI) == to_single(a, 3));
    single_keeps(k, 0);
    single_keeps(k, 30);
}

proof fn lemma_spacing_bounds(a: nat, b: nat, u: nat)
    requires
        b > 0,
        u > 0,
        u == 1 || SIGNIFICANDS * (b * u) <= 2 * a,
    ensures
        ({
            let v = spacing_from(a, b, u);
            &&& v > 0
            &&& a < SIGNIFICANDS * (b * v)
            &&& v == 1 || SIGNIFICANDS * (b * v) <= 2 * a
        }),
    decreases a - u,
{
    if a >= SIGNIFICANDS * (b * u) {
        assert(u <= b * u) by (nonlinear_arith)
            requires
                b > 0,
        ;
        assert(b * (2 * u) == 2 * (b * u)) by (nonlinear_arith);
        lemma_spacing_bounds(a, b, 2 * u);
    }
}

/// Rounding a number of at least 2^24 changes it by at most one part in 2^24.
pub proof fn single_is_close(a: nat, b: nat)
    requires
        b > 0,
        a >= SIGNIFICANDS * b,
    ensures
        SIGNIFICANDS * (to_single(a, b) * b - a) <= a,
        SIGNIFICANDS * (a - to_single(a, b) * b) <= a,
{
    lemma_spacing_bounds(a, b, 1);
    let u = spacing_from(a, b, 1);
    let step = b * u;
    let n = nearest_even(a, step);
    assert(step > 0) by (nonlinear_arith)
        requires
            b > 0,
            u > 0,
            step == b * u,
    ;
    vstd::arithmetic::div_mod::lemma_fundamental_div_mod(a as int, step as int);
    let q = a / step;
    assert((q + 1) * step == q * step + step) by (nonlinear_arith);
    assert(step * q == q * step) by (nonlinear_arith);
    assert(2 * (n * step - a) <= step && 2 * (a - n * step) <= step);
    assert((n * u) * b == n * step) by (nonlinear_arith)
        requires
            step == b * u,
    ;
}

/// The DPI of a display can be told from its factor: 96 times the factor,
/// rounded, is the DPI again.
pub proof fn factor_tells_the_dpi(dpi: u32)
    requires
        96 <= dpi <= 0xFFFF,
    ensures
        rounded_unsigned(times(96, dpi_ratio(dpi))) == dpi,
        dpi_ratio(dpi) >= ONE,
{
    vstd::arithmetic::power2::lemma2_to64();
    single_keeps(dpi as nat, 0);
    single_keeps(96, 0);
    let a = dpi as nat * 0x200_0000;
    let s = dpi_ratio(dpi);
    single_is_close(a, 3);
    if dpi == 96 {
        unscaled_display_keeps(0);
    }
    single_is_close(96 * s, 1);
}

/// Rounding goes to the nearest integer: no other is nearer, and halfway between
/// two it goes to the even one.
pub proof fn rounding_goes_to_the_nearest(a: nat, b: nat)
    requires
        b > 0,
    ensures
        2 * (nearest_even(a, b) * b - a) <= b,
        2 * (a - nearest_even(a, b) * b) <= b,
        2 * (nearest_even(a, b) * b - a) == b || 2 * (a - nearest_even(a, b) * b) == b
            ==> nearest_even(a, b) % 2 == 0,
{
    vstd::arithmetic::div_mod::lemma_fundamental_div_mod(a as int, b as int);
    let q = a / b;
    assert((q + 1) * b == q * b + b) by (nonlinear_arith);
    assert(b * q == q * b) by (nonlinear_arith);
}

proof fn lemma_spacing_is_a_power(a: nat, b: nat, u: nat)
    requires
        b > 0,
        u > 0,
    ensures
        exists|j: nat| #[trigger]
            vstd::arithmetic::power2::pow2(j) * u == spacing_from(a, b, u),
    decreases a - u,
{
    if a >= SIGNIFICANDS * (b * u) {
        assert(u <= b * u) by (nonlinear_arith)
            requires
                b > 0,
        ;
        lemma_spacing_is_a_power(a, b, 2 * u);
        let j = choose|j: nat| #[trigger]
            vstd::arithmetic::power2::pow2(j) * (2 * u) == spacing_from(a, b, 2 * u);
        vstd::arithmetic::power2::lemma_pow2_unfold(j + 1);
        let p = vstd::arithmetic::power2::pow2(j);
        assert((2 * p) * u == p * (2 * u)) by (nonlinear_arith);
        assert(vstd::arithmetic::power2::pow2(j + 1) * u == spacing_from(a, b, u));
    } else {
        vstd::arithmetic::power2::lemma2_to64();
        assert(vstd::arithmetic::power2::pow2(0) * u == spacing_from(a, b, u));
    }
}

/// What was rounded is a number of 24 significant bits: a multiple of a power of
/// two, and at most 2^24 times as large.
pub proof fn single_has_24_bits(a: nat, b: nat)
    requires
        b > 0,
    ensures
        exists|j: nat|
            #![trigger vstd::arithmetic::power2::pow2(j)]
            to_single(a, b) % vstd::arithmetic::power2::pow2(j) == 0 && to_single(a, b)
                <= 0x100_0000 * vstd::arithmetic::power2::pow2(j),
{
    lemma_spacing_is_a_power(a, b, 1);
    lemma_spacing_bounds(a, b, 1);
    let u = spacing_from(a, b, 1);
    let j = choose|j: nat| #[trigger] vstd::arithmetic::power2::pow2(j) * 1 == u;
    let step = b * u;
    let k = nearest_even(a, step);
    assert(step > 0) by (nonlinear_arith)
        requires
            b > 0,
            u > 0,
            step == b * u,
    ;
    vstd::arithmetic::div_mod::lemma_fundamental_div_mod(a as int, step as int);
    assert(a / step < SIGNIFICANDS) by (nonlinear_arith)
        requires
            a == step * (a / step) + a % step,
            a < SIGNIFICANDS * step,
            0 <= a % step,
            step > 0,
    ;
    let p = vstd::arithmetic::power2::pow2(j);
    assert(k * p <= 0x100_0000 * p) by (nonlinear_arith)
        requires
            k <= 0x100_0000,
    ;
    vstd::arithmetic::div_mod::lemma_mod_multiples_basic(k as int, p as int);
    assert(to_single(a, b) == k * p);
}

proof fn lemma_single_near(a: nat)
    ensures
        a < SIGNIFICANDS ==> to_single(a, 1) == a,
        SIGNIFICANDS * (to_single(a, 1) - a) <= a,
        SIGNIFICANDS * (a - to_single(a, 1)) <= a,
{
    if a < SIGNIFICANDS {
        vstd::arithmetic::power2::lemma2_to64();
        single_keeps(a, 0);
    } else {
        single_is_close(a, 1);
    }
}

/// `k` times the factor `s` is the product, but for one part in 2^24.
pub proof fn lengths_grow_with_the_factor(k: nat, s: nat)
    requires
        k < 0x100_0000,
    ensures
        0x100_0000 * (times(k, s) - k * s) <= k * s,
        0x100_0000 * (k * s - times(k, s)) <= k * s,
{
    lemma_single_near(k);
    lemma_single_near(k * s);
}

/// On a display whose factor is a whole number, a length is exactly so many
/// times as long, as long as it stays under 2^24.
pub proof fn whole_factor_multiplies(k: nat, m: nat)
    requires
        k < 0x100_0000,
        k * m < 0x100_0000,
    ensures
        times(k, (m * 0x4000_0000) as nat) == k * m * 0x4000_0000,
        whole(times(k, (m * 0x4000_0000) as nat)) == k * m,
        rounded(times(k, (m * 0x4000_0000) as nat)) == k * m,
{
    vstd::arithmetic::power2::lemma2_to64();
    lemma_single_near(k);
    single_keeps(k * m, 30);
    assert(k * (m * 0x4000_0000) == k * m * 0x4000_0000) by (nonlinear_arith);
}

/// The factor of a display is its DPI over 96, but for one part in 2^24; below
/// 96 DPI it is less than one.
pub proof fn ratio_is_dpi_over_96(dpi: u32)
    requires
        dpi < 0x100_0000,
    ensures
        dpi >= 2 ==> 0x100_0000 * (96 * dpi_ratio(dpi) - dpi * 0x4000_0000) <= dpi * 0x4000_0000,
        dpi >= 2 ==> 0x100_0000 * (dpi * 0x4000_0000 - 96 * dpi_ratio(dpi)) <= dpi * 0x4000_0000,
        dpi < 96 ==> dpi_ratio(dpi) < 0x4000_0000,
{
    lemma_single_near(dpi as nat);
    let a = dpi as nat * 0x200_0000;
    if dpi >= 2 {
        single_is_close(a, 3);
    } else {
        assert(spacing_from(a, 3, 1) == 1);
        assert(nearest_even(a, 3) <= a / 3 + 1);
    }
}

/// Whole pixels are rounded down: they do not reach past the length, and one
/// more would, unless there is no larger number.
pub proof fn whole_pixels_are_rounded_down(a: nat)
    ensures
        0 <= whole(a) <= i32::MAX,
        whole(a) * 0x4000_0000 <= a,
        whole(a) < i32::MAX ==> a < (whole(a) + 1) * 0x4000_0000,
{
}

/// Rounded pixels are at most half a pixel off, and halves go up, unless there is
/// no larger number.
pub proof fn rounded_pixels_are_nearest(a: nat)
    ensures
        0 <= rounded(a) <= i32::MAX,
        2 * (rounded(a) * 0x4000_0000 - a) <= 0x4000_0000,
        rounded(a) < i32::MAX ==> 2 * (a - rounded(a) * 0x4000_0000) < 0x4000_0000,
        0 <= rounded_unsigned(a) <= u32::MAX,
        2 * (rounded_unsigned(a) * 0x4000_0000 - a) <= 0x4000_0000,
        rounded_unsigned(a) < u32::MAX ==> 2 * (a - rounded_unsigned(a) * 0x4000_0000)
            < 0x4000_0000,
{
}

/// Coordinates on both sides of zero are scaled alike: the opposite of one is
/// scaled to the opposite, as far as both can be held.
pub proof fn coordinates_are_scaled_alike_on_both_sides(x: i32, s: nat)
    requires
        x > 0,
    ensures
        scaled_coordinate(0, s) == 0,
        scaled_coordinate(x, s) == rounded(times(x as nat, s)),
        scaled_coordinate(x, s) < i32::MAX ==> scaled_coordinate((-x) as i32, s)
            == -scaled_coordinate(x, s),
        scaled_coordinate(x, s) == i32::MAX ==> scaled_coordinate((-x) as i32, s) <= -i32::MAX,
{
    lemma_single_near(0);
    lemma_single_near(0 * s);
    assert(0 * s == 0) by (nonlinear_arith);
}

/// On a display whose factor is a whole number, a coordinate is exactly so many
/// times as far from zero, as long as it stays within 2^24 of it.
pub proof fn whole_factor_multiplies_coordinates(x: i32, m: nat)
    requires
        -0x100_0000 < x < 0x100_0000,
        -0x100_0000 < x * m < 0x100_0000,
    ensures
        scaled_coordinate(x, (m * 0x4000_0000) as nat) == x * m,
{
    if x >= 0 {
        whole_factor_multiplies(x as nat, m);
    } else {
        assert((-x) * m == -(x * m)) by (nonlinear_arith);
        whole_factor_multiplies((-x) as nat, m);
    }
}

/// A hundredth is the number of units nearest to it.
pub proof fn hundredth_is_a_hundredth()
    ensures
        -50 <= 100 * HUNDREDTH - 0x4000_0000 <= 50,
{
}

/// However long it is, a length times the factor is off by no more than three
/// parts in 2^24.
pub proof fn long_lengths_grow_with_the_factor(k: nat, s: nat)
    ensures
        0x100_0000 * (times(k, s) - k * s) <= 3 * (k * s),
        0x100_0000 * (k * s - times(k, s)) <= 3 * (k * s),
{
    lemma_single_near(k);
    let n = to_single(k, 1);
    lemma_single_near(n * s);
    assert(0x100_0000 * (n * s - k * s) <= k * s) by (nonlinear_arith)
        requires
            0x100_0000 * (n - k) <= k,
            s >= 0,
    ;
    assert(0x100_0000 * (k * s - n * s) <= k * s) by (nonlinear_arith)
        requires
            0x100_0000 * (k - n) <= k,
            s >= 0,
    ;
}

} // verus!
