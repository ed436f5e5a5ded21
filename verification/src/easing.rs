//! Easing curves in exact integer arithmetic.
//!
//! Normalized time is a fraction of two `i16`: so many steps elapsed of so many steps in
//! all. Every curve is an exact rational function of that time, so the value
//! interpolated at the end of a transition is the target itself.
use vstd::prelude::*;

verus! {

/// The named interpolation curves.
///
/// The kinds with a power in their name follow the power curve of that degree. The kinds
/// without one follow a sine wave: `EaseIn` and `EaseOut` a quarter of it, `EaseInOut` a
/// half. The wave is taken by the rational curve `5x² / (4 + x²)`, which stays within
/// two thousandths of it.
#[derive(Copy, Clone, Debug, PartialEq, Eq, Structural)]
pub enum EasingFunction {
    EaseIn,
    EaseInCubic,
    EaseInOut,
    EaseInOutCubic,
    EaseInOutQuad,
    EaseInOutQuart,
    EaseInOutQuint,
    EaseInQuad,
    EaseInQuart,
    EaseInQuint,
    EaseOut,
    EaseOutCubic,
    EaseOutQuad,
    EaseOutQuart,
    EaseOutQuint,
    Linear,
    Step,
}

/// How a curve bends over the unit interval.
#[derive(Copy, Clone, Debug, PartialEq, Eq, Structural)]
pub enum Bend {
    /// Slow start: `t^n`.
    Accelerating,
    /// Slow end: `1 - (1 - t)^n`.
    Decelerating,
    /// Slow start and slow end: the two halves blended at the midpoint.
    Blended,
    /// No interpolation: the nearest end.
    Jump,
    /// Slow start, along a quarter of a sine wave: `5x² / (4 + x²)`.
    WaveIn,
    /// Slow end, along a quarter of a sine wave: the mirror image of [`Bend::WaveIn`].
    WaveOut,
    /// Slow start and slow end, along half a sine wave: `5x² / (2 + 2x²)` below the
    /// midpoint and its mirror image from it on.
    WaveInOut,
}

/// `b` raised to the power `n`.
pub open spec fn power(b: int, n: nat) -> int
    decreases n,
{
    if n == 0 {
        1
    } else {
        b * power(b, (n - 1) as nat)
    }
}

impl EasingFunction {
    /// The degree of the curve's polynomial.
    pub open spec fn spec_degree(self) -> u32 {
        match self {
            EasingFunction::Linear | EasingFunction::Step => 1,
            EasingFunction::EaseIn
            | EasingFunction::EaseOut
            | EasingFunction::EaseInOut
            | EasingFunction::EaseInQuad
            | EasingFunction::EaseOutQuad
            | EasingFunction::EaseInOutQuad => 2,
            EasingFunction::EaseInCubic
            | EasingFunction::EaseOutCubic
            | EasingFunction::EaseInOutCubic => 3,
            EasingFunction::EaseInQuart
            | EasingFunction::EaseOutQuart
            | EasingFunction::EaseInOutQuart => 4,
            EasingFunction::EaseInQuint
            | EasingFunction::EaseOutQuint
            | EasingFunction::EaseInOutQuint => 5,
        }
    }

    /// The way the curve bends.
    pub open spec fn spec_bend(self) -> Bend {
        match self {
            EasingFunction::Step => Bend::Jump,
            EasingFunction::EaseIn => Bend::WaveIn,
            EasingFunction::EaseOut => Bend::WaveOut,
            EasingFunction::EaseInOut => Bend::WaveInOut,
            EasingFunction::Linear
            | EasingFunction::EaseInQuad
            | EasingFunction::EaseInCubic
            | EasingFunction::EaseInQuart
            | EasingFunction::EaseInQuint => Bend::Accelerating,
            EasingFunction::EaseOutQuad
            | EasingFunction::EaseOutCubic
            | EasingFunction::EaseOutQuart
            | EasingFunction::EaseOutQuint => Bend::Decelerating,
            EasingFunction::EaseInOutQuad
            | EasingFunction::EaseInOutCubic
            | EasingFunction::EaseInOutQuart
            | EasingFunction::EaseInOutQuint => Bend::Blended,
        }
    }

    /// The degree of the curve's polynomial, from 1 to 5.
    #[verifier::when_used_as_spec(spec_degree)]
    pub fn degree(self) -> (n: u32)
        ensures
            n == self.spec_degree(),
            1 <= n <= 5,
    {
        match self {
            EasingFunction::Linear | EasingFunction::Step => 1,
            EasingFunction::EaseIn
            | EasingFunction::EaseOut
            | EasingFunction::EaseInOut
            | EasingFunction::EaseInQuad
            | EasingFunction::EaseOutQuad
            | EasingFunction::EaseInOutQuad => 2,
            EasingFunction::EaseInCubic
            | EasingFunction::EaseOutCubic
            | EasingFunction::EaseInOutCubic => 3,
            EasingFunction::EaseInQuart
            | EasingFunction::EaseOutQuart
            | EasingFunction::EaseInOutQuart => 4,
            EasingFunction::EaseInQuint
            | EasingFunction::EaseOutQuint
            | EasingFunction::EaseInOutQuint => 5,
        }
    }

    /// The way the curve bends.
    #[verifier::when_used_as_spec(spec_bend)]
    pub fn bend(self) -> (b: Bend)
        ensures
            b == self.spec_bend(),
    {
        match self {
            EasingFunction::Step => Bend::Jump,
            EasingFunction::EaseIn => Bend::WaveIn,
            EasingFunction::EaseOut => Bend::WaveOut,
            EasingFunction::EaseInOut => Bend::WaveInOut,
            EasingFunction::Linear
            | EasingFunction::EaseInQuad
            | EasingFunction::EaseInCubic
            | EasingFunction::EaseInQuart
            | EasingFunction::EaseInQuint => Bend::Accelerating,
            EasingFunction::EaseOutQuad
            | EasingFunction::EaseOutCubic
            | EasingFunction::EaseOutQuart
            | EasingFunction::EaseOutQuint => Bend::Decelerating,
            EasingFunction::EaseInOutQuad
            | EasingFunction::EaseInOutCubic
            | EasingFunction::EaseInOutQuart
            | EasingFunction::EaseInOutQuint => Bend::Blended,
        }
    }
}

/// The whole number nearest to `t / s`, halves rounded away from zero.
pub open spec fn nearest_whole(t: int, s: int) -> int {
    if t >= 0 {
        (2 * t + s) / (2 * s)
    } else {
        -((s - 2 * t) / (2 * s))
    }
}

/// The denominator of the curve's value after `t` of `s` steps.
///
/// For a power curve and for a jump it is the number of steps to the curve's degree.
/// For a wave it depends on the time; it is positive at every time.
pub open spec fn curve_den(kind: EasingFunction, t: int, s: int) -> int {
    match kind.spec_bend() {
        Bend::WaveIn => 4 * (s * s) + t * t,
        Bend::WaveOut => 4 * (s * s) + (s - t) * (s - t),
        Bend::WaveInOut => if 2 * t < s {
            2 * (s * s) + 2 * (t * t)
        } else {
            2 * (s * s) + 2 * ((s - t) * (s - t))
        },
        _ => power(s, kind.spec_degree() as nat),
    }
}

/// The numerator of the curve's value after `t` of `s` steps, over [`curve_den`].
///
/// With `x = t / s` and `n` the degree, the value `curve_num / curve_den` is `x^n` for
/// an accelerating curve, `1 - (1 - x)^n` for a decelerating one, `2^(n-1) x^n` below
/// the midpoint and `1 - 2^(n-1) (1 - x)^n` from it on for a blended one, and `x`
/// rounded to the nearest whole number for a jump. For the waves, with `r = 1 - x`, it
/// is `5x² / (4 + x²)` going in, `(4 - 4r²) / (4 + r²)` going out, and for both
/// `5x² / (2 + 2x²)` below the midpoint and `(2 - 3r²) / (2 + 2r²)` from it on.
pub open spec fn curve_num(kind: EasingFunction, t: int, s: int) -> int {
    let n = kind.spec_degree() as nat;
    match kind.spec_bend() {
        Bend::Jump => nearest_whole(t, s) * s,
        Bend::Accelerating => power(t, n),
        Bend::Decelerating => power(s, n) - power(s - t, n),
        Bend::Blended => if 2 * t < s {
            power(2, (n - 1) as nat) * power(t, n)
        } else {
            power(s, n) - power(2, (n - 1) as nat) * power(s - t, n)
        },
        Bend::WaveIn => 5 * (t * t),
        Bend::WaveOut => 4 * (s * s) - 4 * ((s - t) * (s - t)),
        Bend::WaveInOut => if 2 * t < s {
            5 * (t * t)
        } else {
            2 * (s * s) - 3 * ((s - t) * (s - t))
        },
    }
}

/// The quotient of `n` by a positive `d`, rounded toward zero.
pub open spec fn toward_zero(n: int, d: int) -> int {
    if n >= 0 {
        n / d
    } else {
        -((-n) / d)
    }
}

/// `v` brought into the range of `i32`.
pub open spec fn saturated(v: int) -> int {
    if v < i32::MIN as int {
        i32::MIN as int
    } else if v > i32::MAX as int {
        i32::MAX as int
    } else {
        v
    }
}

/// The value interpolated between `from` and `to` after `t` of `s` steps:
/// `from + (to - from) * curve(t / s)`, rounded toward zero and brought into `i32`.
/// A transition of no steps is over: its value is `to`.
pub open spec fn eased(kind: EasingFunction, from: int, to: int, t: int, s: int) -> int {
    if s <= 0 {
        to
    } else {
        saturated(
            toward_zero(
                from * curve_den(kind, t, s) + (to - from) * curve_num(kind, t, s),
                curve_den(kind, t, s),
            ),
        )
    }
}

/// The largest magnitude of a base that [`small_power`] takes.
spec fn base_limit() -> int {
    65536
}

/// The largest magnitude that [`small_power`] returns.
spec fn power_limit() -> int {
    0x1_0000_0000_0000_0000_0000
}

proof fn lemma_product_bound(a: int, b: int, la: int, lb: int)
    requires
        -la <= a <= la,
        -lb <= b <= lb,
    ensures
        -(la * lb) <= a * b <= la * lb,
{
    assert(-(la * lb) <= a * b <= la * lb) by (nonlinear_arith)
        requires
            -la <= a <= la,
            -lb <= b <= lb,
    ;
}

proof fn lemma_product_positive(a: int, b: int)
    requires
        a > 0,
        b > 0,
    ensures
        a * b > 0,
{
    assert(a * b > 0) by (nonlinear_arith)
        requires
            a > 0,
            b > 0,
    ;
}

/// `b` raised to the power `n`, for a base of at most 16 bits and a degree of at most 5.
fn small_power(b: i128, n: u32) -> (r: i128)
    requires
        -base_limit() <= b <= base_limit(),
        n <= 5,
    ensures
        r == power(b as int, n as nat),
        -power_limit() <= r <= power_limit(),
        b > 0 ==> r > 0,
{
    let mut r: i128 = 1;
    let mut i: u32 = 0;
    proof {
        reveal_with_fuel(power, 7);
    }
    while i < n
        invariant
            i <= n <= 5,
            -base_limit() <= b <= base_limit(),
            r == power(b as int, i as nat),
            -power(base_limit(), i as nat) <= r <= power(base_limit(), i as nat),
            b > 0 ==> r > 0,
        decreases n - i,
    {
        proof {
            reveal_with_fuel(power, 7);
            lemma_product_bound(b as int, r as int, base_limit(), power(base_limit(), i as nat));
            if b > 0 {
                lemma_product_positive(b as int, r as int);
            }
        }
        r = b * r;
        i = i + 1;
    }
    r
}

/// The whole number nearest to `t / s`, halves rounded away from zero.
fn nearest(t: i16, s: i16) -> (k: i128)
    requires
        s > 0,
    ensures
        k == nearest_whole(t as int, s as int),
        -0x2_0000 <= k <= 0x2_0000,
{
    let d: i64 = 2 * (s as i64);
    let x: i64 = t as i64;
    if x >= 0 {
        let q: i64 = (2 * x + s as i64) / d;
        proof {
            lemma_quotient_at_most(2 * x + s, d as int, 0x2_0000);
        }
        q as i128
    } else {
        let q: i64 = (s as i64 - 2 * x) / d;
        proof {
            lemma_quotient_at_most(s - 2 * x, d as int, 0x2_0000);
        }
        -(q as i128)
    }
}

/// A quotient is at most its dividend, and not negative where the dividend is not.
proof fn lemma_quotient_at_most(n: int, d: int, bound: int)
    requires
        0 <= n <= bound,
        d >= 1,
    ensures
        0 <= n / d <= bound,
{
    vstd::arithmetic::div_mod::lemma_div_pos_is_pos(n, d);
    vstd::arithmetic::div_mod::lemma_div_is_ordered_by_denominator(n, 1, d);
}

/// The quotient of `n` by a positive `d`, rounded toward zero.
fn quotient_toward_zero(n: i128, d: i128) -> (q: i128)
    requires
        d > 0,
        n > i128::MIN,
    ensures
        q == toward_zero(n as int, d as int),
{
    if n >= 0 {
        let q: u128 = (n as u128) / (d as u128);
        q as i128
    } else {
        let q: u128 = ((-n) as u128) / (d as u128);
        -(q as i128)
    }
}

/// `v` brought into the range of `i32`.
fn saturate(v: i128) -> (r: i32)
    ensures
        r == saturated(v as int),
{
    if v < -2147483648 {
        -2147483648
    } else if v > 2147483647 {
        2147483647
    } else {
        v as i32
    }
}

/// The square of a number of at most 17 bits.
fn square(b: i128) -> (r: i128)
    requires
        -base_limit() <= b <= base_limit(),
    ensures
        r == b * b,
        0 <= r <= 0x1_0000_0000,
{
    proof {
        assert(0 <= b * b <= 0x1_0000_0000) by (nonlinear_arith)
            requires
                -65536 <= b <= 65536,
        ;
    }
    b * b
}

/// The denominator of the curve's value after `t` of `s` steps.
fn curve_denominator(kind: EasingFunction, t: i16, s: i16) -> (den: i128)
    requires
        s > 0,
    ensures
        den == curve_den(kind, t as int, s as int),
        0 < den <= power_limit(),
{
    let whole: i128 = s as i128;
    let x: i128 = t as i128;
    match kind.bend() {
        Bend::WaveIn => {
            let ss: i128 = square(whole);
            proof {
                assert(ss >= 1) by (nonlinear_arith)
                    requires
                        ss == whole * whole,
                        whole >= 1,
                ;
            }
            4 * ss + square(x)
        },
        Bend::WaveOut => {
            let ss: i128 = square(whole);
            proof {
                assert(ss >= 1) by (nonlinear_arith)
                    requires
                        ss == whole * whole,
                        whole >= 1,
                ;
            }
            4 * ss + square(whole - x)
        },
        Bend::WaveInOut => {
            let ss: i128 = square(whole);
            proof {
                assert(ss >= 1) by (nonlinear_arith)
                    requires
                        ss == whole * whole,
                        whole >= 1,
                ;
            }
            if 2 * x < whole {
                2 * ss + 2 * square(x)
            } else {
                2 * ss + 2 * square(whole - x)
            }
        },
        _ => small_power(whole, kind.degree()),
    }
}

/// The numerator of the curve's value after `t` of `s` steps.
fn curve_numerator(kind: EasingFunction, t: i16, s: i16) -> (num: i128)
    requires
        s > 0,
    ensures
        num == curve_num(kind, t as int, s as int),
        -18 * power_limit() <= num <= 18 * power_limit(),
{
    let n: u32 = kind.degree();
    let whole: i128 = s as i128;
    let x: i128 = t as i128;
    match kind.bend() {
        Bend::Jump => {
            let k: i128 = nearest(t, s);
            proof {
                lemma_product_bound(k as int, whole as int, 0x2_0000, 0x1_0000);
            }
            k * whole
        },
        Bend::Accelerating => small_power(x, n),
        Bend::Decelerating => small_power(whole, n) - small_power(whole - x, n),
        Bend::WaveIn => {
            let tt: i128 = square(x);
            5 * tt
        },
        Bend::WaveOut => {
            let ss: i128 = square(whole);
            let rr: i128 = square(whole - x);
            4 * ss - 4 * rr
        },
        Bend::WaveInOut => {
            if 2 * x < whole {
                let tt: i128 = square(x);
                5 * tt
            } else {
                let ss: i128 = square(whole);
                let rr: i128 = square(whole - x);
                2 * ss - 3 * rr
            }
        },
        Bend::Blended => {
            let weight: i128 = small_power(2, n - 1);
            proof {
                reveal_with_fuel(power, 7);
                assert(1 <= weight <= 16);
            }
            if 2 * x < whole {
                let p: i128 = small_power(x, n);
                proof {
                    lemma_product_bound(weight as int, p as int, 16, power_limit());
                }
                weight * p
            } else {
                let p: i128 = small_power(whole - x, n);
                proof {
                    lemma_product_bound(weight as int, p as int, 16, power_limit());
                }
                small_power(whole, n) - weight * p
            }
        },
    }
}

/// Interpolates between `from` and `to` along the curve `kind`, after `elapsed` of
/// `duration` steps.
///
/// Outside the unit interval the curve's formula is extended, not clamped; a value
/// beyond the range of `i32` becomes the nearest end of that range. A transition of no
/// steps is over: its value is `to`.
pub fn ease(kind: EasingFunction, from: i32, to: i32, elapsed: i16, duration: i16) -> (r: i32)
    ensures
        r == eased(kind, from as int, to as int, elapsed as int, duration as int),
{
    if duration <= 0 {
        return to;
    }
    let den: i128 = curve_denominator(kind, elapsed, duration);
    let num: i128 = curve_numerator(kind, elapsed, duration);
    let delta: i128 = to as i128 - from as i128;
    proof {
        lemma_product_bound(from as int, den as int, 0x8000_0000, power_limit());
        lemma_product_bound(delta as int, num as int, 0x1_0000_0000, 18 * power_limit());
    }
    let total: i128 = (from as i128) * den + delta * num;
    saturate(quotient_toward_zero(total, den))
}

/// A positive base has positive powers.
pub proof fn lemma_power_positive(b: int, n: nat)
    requires
        b > 0,
    ensures
        power(b, n) > 0,
    decreases n,
{
    if n > 0 {
        lemma_power_positive(b, (n - 1) as nat);
        lemma_product_positive(b, power(b, (n - 1) as nat));
    }
}

/// Zero has no power but the zeroth.
pub proof fn lemma_power_of_zero(n: nat)
    requires
        n >= 1,
    ensures
        power(0, n) == 0,
{
    assert(0 * power(0, (n - 1) as nat) == 0);
}

/// A multiple of `d` divided by `d` is the factor, whatever its sign.
pub proof fn lemma_whole_quotient(v: int, d: int)
    requires
        d > 0,
    ensures
        toward_zero(v * d, d) == v,
{
    if v >= 0 {
        assert(v * d >= 0) by (nonlinear_arith)
            requires
                v >= 0,
                d > 0,
        ;
        vstd::arithmetic::div_mod::lemma_div_by_multiple(v, d);
    } else {
        assert(v * d < 0 && -(v * d) == (-v) * d) by (nonlinear_arith)
            requires
                v < 0,
                d > 0,
        ;
        vstd::arithmetic::div_mod::lemma_div_by_multiple(-v, d);
    }
}

/// The square of a number that is not zero is positive.
proof fn lemma_square_positive(s: int)
    requires
        s != 0,
    ensures
        s * s > 0,
{
    assert(s * s > 0) by (nonlinear_arith)
        requires
            s != 0,
    ;
}

/// No square is negative.
proof fn lemma_square_not_negative(r: int)
    ensures
        r * r >= 0,
{
    assert(r * r >= 0) by (nonlinear_arith);
}

/// The denominator of every curve is positive at every time.
pub proof fn lemma_curve_den_positive(kind: EasingFunction, t: int, s: int)
    requires
        s > 0,
    ensures
        curve_den(kind, t, s) > 0,
{
    lemma_power_positive(s, kind.spec_degree() as nat);
    lemma_square_positive(s);
    lemma_square_not_negative(t);
    lemma_square_not_negative(s - t);
}

/// Every curve ends at one: after all of the steps its numerator equals its denominator.
pub proof fn lemma_curve_at_end(kind: EasingFunction, s: int)
    requires
        s > 0,
    ensures
        curve_num(kind, s, s) == curve_den(kind, s, s),
        curve_den(kind, s, s) > 0,
{
    let n = kind.spec_degree() as nat;
    lemma_curve_den_positive(kind, s, s);
    lemma_power_of_zero(n);
    assert(s - s == 0);
    match kind.spec_bend() {
        Bend::Jump => {
            assert(2 * s + s == 1 * (2 * s) + s);
            vstd::arithmetic::div_mod::lemma_div_multiples_vanish_fancy(1, s, 2 * s);
            assert((2 * s * 1 + s) / (2 * s) == 1);
            assert(nearest_whole(s, s) == 1);
            assert(power(s, 1) == s) by {
                reveal_with_fuel(power, 2);
            }
        },
        Bend::Accelerating => {},
        Bend::Decelerating => {},
        Bend::Blended => {
            assert(power(2, (n - 1) as nat) * 0 == 0);
        },
        Bend::WaveIn => {},
        Bend::WaveOut => {
            assert((s - s) * (s - s) == 0);
        },
        Bend::WaveInOut => {
            assert((s - s) * (s - s) == 0);
        },
    }
}

/// Every curve starts at zero.
pub proof fn lemma_curve_at_start(kind: EasingFunction, s: int)
    requires
        s > 0,
    ensures
        curve_num(kind, 0, s) == 0,
        curve_den(kind, 0, s) > 0,
{
    let n = kind.spec_degree() as nat;
    lemma_curve_den_positive(kind, 0, s);
    lemma_power_of_zero(n);
    match kind.spec_bend() {
        Bend::Jump => {
            vstd::arithmetic::div_mod::lemma_div_multiples_vanish_fancy(0, s, 2 * s);
            assert((2 * s * 0 + s) / (2 * s) == 0);
            assert(nearest_whole(0, s) == 0);
        },
        Bend::Accelerating => {},
        Bend::Decelerating => {
            assert(s - 0 == s);
        },
        Bend::Blended => {
            assert(power(2, (n - 1) as nat) * 0 == 0);
        },
        Bend::WaveIn => {
            assert(0int * 0int == 0);
        },
        Bend::WaveOut => {
            assert(s - 0 == s);
        },
        Bend::WaveInOut => {
            assert(0int * 0int == 0);
        },
    }
}

/// After all of its steps every curve yields the target exactly.
pub proof fn lemma_ease_reaches_target(kind: EasingFunction, from: i32, to: i32, s: int)
    ensures
        eased(kind, from as int, to as int, s, s) == to,
{
    if s > 0 {
        lemma_curve_at_end(kind, s);
        let d = curve_den(kind, s, s);
        assert(from * d + (to - from) * d == to * d) by (nonlinear_arith);
        lemma_whole_quotient(to as int, d);
    }
}

/// Before its first step every curve yields the source exactly.
pub proof fn lemma_ease_starts_at_source(kind: EasingFunction, from: i32, to: i32, s: int)
    requires
        s > 0,
    ensures
        eased(kind, from as int, to as int, 0, s) == from,
{
    lemma_curve_at_start(kind, s);
    let d = curve_den(kind, 0, s);
    assert(from * d + (to - from) * 0 == from * d) by (nonlinear_arith);
    lemma_whole_quotient(from as int, d);
}

/// Powers of bases that are not negative keep the order of the bases.
pub proof fn lemma_power_keeps_order(a: int, b: int, n: nat)
    requires
        0 <= a <= b,
    ensures
        0 <= power(a, n) <= power(b, n),
    decreases n,
{
    if n > 0 {
        lemma_power_keeps_order(a, b, (n - 1) as nat);
        let pa = power(a, (n - 1) as nat);
        let pb = power(b, (n - 1) as nat);
        assert(0 <= a * pa <= b * pb) by (nonlinear_arith)
            requires
                0 <= a <= b,
                0 <= pa <= pb,
        ;
    }
}

/// The power of a product is the product of the powers.
pub proof fn lemma_power_of_product(a: int, b: int, n: nat)
    ensures
        power(a * b, n) == power(a, n) * power(b, n),
    decreases n,
{
    if n > 0 {
        lemma_power_of_product(a, b, (n - 1) as nat);
        let pa = power(a, (n - 1) as nat);
        let pb = power(b, (n - 1) as nat);
        assert((a * b) * (pa * pb) == (a * pa) * (b * pb)) by (nonlinear_arith);
    }
}

/// Half a blended curve: where twice `u` is at most the number of steps `s`, the
/// weighted power of `u` lies between zero and the power of `s`.
proof fn lemma_blended_half(u: int, s: int, n: nat)
    requires
        n >= 1,
        0 <= u,
        2 * u <= s,
    ensures
        0 <= power(2, (n - 1) as nat) * power(u, n) <= power(s, n),
{
    let w = power(2, (n - 1) as nat);
    let pu = power(u, n);
    lemma_power_positive(2, (n - 1) as nat);
    lemma_power_keeps_order(u, u, n);
    lemma_power_of_product(2, u, n);
    lemma_power_keeps_order(2 * u, s, n);
    assert(power(2, n) == 2 * w);
    assert(0 <= w * pu <= (2 * w) * pu) by (nonlinear_arith)
        requires
            w > 0,
            pu >= 0,
    ;
}

/// Within the unit interval every curve stays between zero and one.
pub proof fn lemma_curve_in_unit(kind: EasingFunction, t: int, s: int)
    requires
        s > 0,
        0 <= t <= s,
    ensures
        0 <= curve_num(kind, t, s) <= curve_den(kind, t, s),
        curve_den(kind, t, s) > 0,
{
    let n = kind.spec_degree() as nat;
    lemma_curve_den_positive(kind, t, s);
    match kind.spec_bend() {
        Bend::WaveIn => {
            assert(0 <= t * t <= s * s) by (nonlinear_arith)
                requires
                    0 <= t <= s,
            ;
        },
        Bend::WaveOut => {
            let r = s - t;
            assert(0 <= r * r <= s * s) by (nonlinear_arith)
                requires
                    0 <= r <= s,
            ;
        },
        Bend::WaveInOut => {
            if 2 * t < s {
                assert(0 <= 4 * (t * t) <= s * s) by (nonlinear_arith)
                    requires
                        0 <= 2 * t <= s,
                ;
            } else {
                let r = s - t;
                assert(0 <= 4 * (r * r) <= s * s) by (nonlinear_arith)
                    requires
                        0 <= 2 * r <= s,
                ;
            }
        },
        Bend::Jump => {
            assert(power(s, 1) == s) by {
                reveal_with_fuel(power, 2);
            }
            let k = nearest_whole(t, s);
            vstd::arithmetic::div_mod::lemma_div_pos_is_pos(2 * t + s, 2 * s);
            assert(2 * t + s < 2 * (2 * s));
            if k >= 2 {
                vstd::arithmetic::div_mod::lemma_fundamental_div_mod(2 * t + s, 2 * s);
                assert((2 * s) * k >= (2 * s) * 2) by (nonlinear_arith)
                    requires
                        k >= 2,
                        s > 0,
                ;
                vstd::arithmetic::div_mod::lemma_mod_multiples_basic(2 * t + s, 2 * s);
                assert((2 * t + s) % (2 * s) >= 0) by (nonlinear_arith)
                    requires
                        s > 0,
                ;
            }
            assert(0 <= k * s <= s) by (nonlinear_arith)
                requires
                    0 <= k <= 1,
                    s > 0,
            ;
        },
        Bend::Accelerating => {
            lemma_power_keeps_order(t, s, n);
        },
        Bend::Decelerating => {
            lemma_power_keeps_order(s - t, s, n);
        },
        Bend::Blended => {
            if 2 * t < s {
                lemma_blended_half(t, s, n);
            } else {
                lemma_blended_half(s - t, s, n);
            }
        },
    }
}

/// Rounding toward zero keeps the order of the dividends.
pub proof fn lemma_toward_zero_keeps_order(a: int, b: int, d: int)
    requires
        a <= b,
        d > 0,
    ensures
        toward_zero(a, d) <= toward_zero(b, d),
{
    if a >= 0 {
        vstd::arithmetic::div_mod::lemma_div_is_ordered(a, b, d);
    } else if b >= 0 {
        vstd::arithmetic::div_mod::lemma_div_pos_is_pos(-a, d);
        vstd::arithmetic::div_mod::lemma_div_pos_is_pos(b, d);
    } else {
        vstd::arithmetic::div_mod::lemma_div_is_ordered(-b, -a, d);
    }
}

/// Within the unit interval no curve overshoots: the value lies between the source and
/// the target.
pub proof fn lemma_ease_stays_between(kind: EasingFunction, from: i32, to: i32, t: int, s: int)
    requires
        s > 0,
        0 <= t <= s,
    ensures
        from <= to ==> from <= eased(kind, from as int, to as int, t, s) <= to,
        to <= from ==> to <= eased(kind, from as int, to as int, t, s) <= from,
{
    lemma_curve_in_unit(kind, t, s);
    let d = curve_den(kind, t, s);
    let n = curve_num(kind, t, s);
    let delta = to - from;
    let total = from * d + delta * n;
    lemma_whole_quotient(from as int, d);
    lemma_whole_quotient(to as int, d);
    assert(from * d + delta * d == to * d) by (nonlinear_arith)
        requires
            delta == to - from,
    ;
    if from <= to {
        assert(0 <= delta * n <= delta * d) by (nonlinear_arith)
            requires
                delta >= 0,
                0 <= n <= d,
        ;
        lemma_toward_zero_keeps_order(from * d, total, d);
        lemma_toward_zero_keeps_order(total, to * d, d);
    } else {
        assert(delta * d <= delta * n <= 0) by (nonlinear_arith)
            requires
                delta <= 0,
                0 <= n <= d,
        ;
        lemma_toward_zero_keeps_order(total, from * d, d);
        lemma_toward_zero_keeps_order(to * d, total, d);
    }
}

} // verus!
