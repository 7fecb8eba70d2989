//! What doubles make of quotients, products and sums, on integers.
//!
//! A double is an integer of at most 53 bits over a power of two. Values that all stand over one and
//! the same power are kept here as the integers above it: an exact result is an integer again, and
//! the double nearest to it is that integer with at most 53 bits kept.
use vstd::prelude::*;

verus! {

/// The smallest integer of 53 bits.
pub const FULL: u128 = 0x10_0000_0000_0000;

/// The smallest integer of 54 bits.
pub const OVER: u128 = 0x20_0000_0000_0000;

/// A double: an integer over a power of two.
#[derive(Debug, Clone, Copy, PartialEq, Eq, Structural)]
pub struct Double {
    /// The integer.
    pub num: u128,
    /// The power of two.
    pub den: u128,
}

/// A double as a pair of mathematical integers.
pub struct DoubleView {
    /// The integer.
    pub num: int,
    /// The power of two.
    pub den: int,
}

impl View for Double {
    type V = DoubleView;

    open spec fn view(&self) -> DoubleView {
        DoubleView { num: self.num as int, den: self.den as int }
    }
}

/// `n / d` to the nearest integer, a half to the even one.
pub open spec fn half_even(n: int, d: int) -> int {
    let q = n / d;
    let r = n % d;
    if 2 * r < d || (2 * r == d && q % 2 == 0) {
        q
    } else {
        q + 1
    }
}

/// The distance of neighbouring doubles around an integer that is not negative.
pub open spec fn spacing(x: int) -> int
    decreases x,
{
    if x < OVER {
        1
    } else {
        2 * spacing(x / 2)
    }
}

/// The double nearest to an integer, ties to the even one.
pub open spec fn nearest(x: int) -> int {
    if x < 0 {
        -(half_even(-x, spacing(-x)) * spacing(-x))
    } else {
        half_even(x, spacing(x)) * spacing(x)
    }
}

/// The double nearest to `n / d`: over the power of two at which the quotient has 53 bits.
pub open spec fn quotient(n: int, d: int) -> DoubleView
    decreases
            (if n < FULL * d {
                FULL * d - n
            } else {
                0
            }),
{
    if n <= 0 || n >= FULL * d {
        DoubleView { num: half_even(n, d), den: 1 }
    } else {
        let twice = quotient(2 * n, d);
        DoubleView { num: twice.num, den: 2 * twice.den }
    }
}

/// Rounding to an integer moves a quotient by at most a half.
pub proof fn lemma_half_even(n: int, d: int)
    requires
        n >= 0,
        d > 0,
    ensures
        half_even(n, d) >= 0,
        2 * n - d <= 2 * (d * half_even(n, d)) <= 2 * n + d,
{
    let q = n / d;
    let r = n % d;
    assert(n == d * q + r && 0 <= r < d && q >= 0) by (nonlinear_arith)
        requires
            n >= 0,
            d > 0,
            q == n / d,
            r == n % d,
    ;
    assert(d * (q + 1) == d * q + d) by (nonlinear_arith);
}

/// Doubles lie no further apart than their 53 bits demand.
pub proof fn lemma_spacing(x: int)
    requires
        x >= 0,
    ensures
        spacing(x) >= 1,
        spacing(x) == 1 || FULL * spacing(x) <= x,
    decreases x,
{
    if x >= OVER {
        lemma_spacing(x / 2);
    }
}

/// The nearest double is at most half a distance away.
pub proof fn lemma_nearest(x: int)
    requires
        x >= 0,
    ensures
        nearest(x) >= 0,
        2 * x - spacing(x) <= 2 * nearest(x) <= 2 * x + spacing(x),
        nearest(x) <= 2 * x,
{
    let u = spacing(x);
    lemma_spacing(x);
    lemma_half_even(x, u);
    assert(u * half_even(x, u) == half_even(x, u) * u) by (nonlinear_arith);
    assert(half_even(x, u) * u >= 0) by (nonlinear_arith)
        requires
            half_even(x, u) >= 0,
            u >= 1,
    ;
    if u == 1 {
        assert(half_even(x, 1) == x);
    }
}

/// A quotient has its 53 bits, and is off by at most half of the last one.
pub proof fn lemma_quotient(n: int, d: int)
    requires
        n > 0,
        d > 0,
        n < OVER * d,
    ensures
        quotient(n, d).den >= 1,
        FULL <= quotient(n, d).num <= OVER,
        n * quotient(n, d).den < OVER * d,
        2 * (n * quotient(n, d).den) - d <= 2 * (d * quotient(n, d).num) <= 2 * (n * quotient(
            n,
            d,
        ).den) + d,
    decreases
            (if n < FULL * d {
                FULL * d - n
            } else {
                0
            }),
{
    if n >= FULL * d {
        lemma_half_even(n, d);
        let q = n / d;
        assert(FULL <= q < OVER) by (nonlinear_arith)
            requires
                FULL * d <= n < OVER * d,
                d > 0,
                q == n / d,
        ;
        assert(n * 1 == n);
    } else {
        lemma_quotient(2 * n, d);
        let den = quotient(2 * n, d).den;
        assert(n * (2 * den) == (2 * n) * den) by (nonlinear_arith);
    }
}

/// `n / d` to the nearest integer, a half to the even one.
fn divide_half_even(n: u128, d: u128) -> (r: u128)
    requires
        0 < d < 0x1_0000_0000_0000_0000_0000_0000_0000,
    ensures
        r == half_even(n as int, d as int),
{
    let q: u128 = n / d;
    let rest: u128 = n % d;
    if 2 * rest < d || (2 * rest == d && q % 2 == 0) {
        q
    } else {
        proof {
            assert(q < u128::MAX) by (nonlinear_arith)
                requires
                    q == n / d,
                    0 < d,
                    n <= u128::MAX,
                    2 * (n % d) >= d,
            ;
        }
        q + 1
    }
}

/// The double nearest to `n / d`.
pub fn divide(n: u128, d: u128) -> (r: Double)
    requires
        0 < n,
        0 < d < 0x100_0000_0000_0000,
        n < OVER * d,
    ensures
        r@ == quotient(n as int, d as int),
{
    let mut m: u128 = n;
    let mut den: u128 = 1;
    let ghost whole = quotient(n as int, d as int);
    proof {
        assert(FULL * d <= 0x10_0000_0000_0000 * 0x100_0000_0000_0000);
    }
    while m < FULL * d
        invariant
            0 < m < OVER * d,
            0 < d < 0x100_0000_0000_0000,
            1 <= den <= m,
            whole == (DoubleView {
                num: quotient(m as int, d as int).num,
                den: den * quotient(m as int, d as int).den,
            }),
        decreases OVER * d - m,
    {
        let ghost later = quotient(2 * m, d as int);
        proof {
            assert(den * (2 * later.den) == (2 * den) * later.den) by (nonlinear_arith);
        }
        m = 2 * m;
        den = 2 * den;
    }
    Double { num: divide_half_even(m, d), den }
}

/// The double nearest to an integer.
fn round_up_from_zero(x: u128) -> (r: u128)
    requires
        x < 0x1000_0000_0000_0000_0000_0000_0000_0000,
    ensures
        r == nearest(x as int),
{
    let mut y: u128 = x;
    let mut u: u128 = 1;
    while y >= OVER
        invariant
            u >= 1,
            x < 0x1000_0000_0000_0000_0000_0000_0000_0000,
            y * u <= x < (y + 1) * u,
            spacing(x as int) == u * spacing(y as int),
        decreases y,
    {
        let half: u128 = y / 2;
        proof {
            assert(OVER * u <= x) by (nonlinear_arith)
                requires
                    OVER <= y,
                    y * u <= x,
                    u >= 1,
            ;
            assert(half * (2 * u) <= y * u && (y + 1) * u <= (half + 1) * (2 * u))
                by (nonlinear_arith)
                requires
                    2 * half <= y <= 2 * half + 1,
                    u >= 1,
            ;
            let s = spacing(half as int);
            assert(u * (2 * s) == (2 * u) * s) by (nonlinear_arith);
        }
        y = half;
        u = 2 * u;
    }
    proof {
        lemma_spacing(x as int);
        lemma_nearest(x as int);
        assert(x / u == y && x % u == x - y * u) by (nonlinear_arith)
            requires
                y * u <= x < (y + 1) * u,
                u >= 1,
        ;
    }
    let rest: u128 = x - y * u;
    assert(rest < u) by (nonlinear_arith)
        requires
            rest == x - y * u,
            x < (y + 1) * u,
    ;
    if 2 * rest < u || (2 * rest == u && y % 2 == 0) {
        y * u
    } else {
        assert((y + 1) * u == y * u + u) by (nonlinear_arith);
        (y + 1) * u
    }
}

/// The double nearest to an integer, ties to the even one.
pub fn round(x: i128) -> (r: i128)
    requires
        -0x1000_0000_0000_0000_0000_0000_0000_0000 < x < 0x1000_0000_0000_0000_0000_0000_0000_0000,
    ensures
        r == nearest(x as int),
{
    if x < 0 {
        proof {
            lemma_nearest(-x);
        }
        -(round_up_from_zero((-x) as u128) as i128)
    } else {
        proof {
            lemma_nearest(x as int);
        }
        round_up_from_zero(x as u128) as i128
    }
}

/// An integer of at most 53 bits is a double itself.
pub proof fn law_small_integers_are_doubles(x: int)
    requires
        -OVER < x < OVER,
    ensures
        nearest(x) == x,
{
    let y = if x < 0 {
        -x
    } else {
        x
    };
    assert(spacing(y) == 1);
    assert(half_even(y, 1) == y);
}

/// Rounding to an integer gives the nearest, and of two that are equally near the even one.
pub proof fn law_half_goes_to_the_even(n: int, d: int)
    requires
        n >= 0,
        d > 0,
    ensures
        2 * n - d <= 2 * (half_even(n, d) * d) <= 2 * n + d,
        2 * (half_even(n, d) * d) == 2 * n + d || 2 * (half_even(n, d) * d) == 2 * n - d ==> half_even(
            n,
            d,
        ) % 2 == 0,
{
    lemma_half_even(n, d);
    let q = n / d;
    assert(n == d * q + n % d) by (nonlinear_arith)
        requires
            d > 0,
            q == n / d,
    ;
    assert(half_even(n, d) * d == d * half_even(n, d)) by (nonlinear_arith);
    assert((q + 1) * d == d * q + d && q * d == d * q) by (nonlinear_arith);
}

/// Rounding does the same on either side of zero, and to twice the value twice the result once the value
/// has all its bits.
pub proof fn law_rounding_is_even_handed(x: int)
    ensures
        nearest(-x) == -nearest(x),
        x >= OVER ==> spacing(2 * x) == 2 * spacing(x),
        0 <= x < OVER ==> spacing(x) == 1,
{
    if x == 0 {
        assert(half_even(0, 1) == 0);
    }
    if x >= OVER {
        assert((2 * x) / 2 == x);
    }
}

/// The double nearest to an integer is off by at most one part in 2 to the 53rd of it.
pub proof fn law_nearest_is_near(x: int)
    ensures
        0 <= x ==> -x <= 0x20_0000_0000_0000 * (nearest(x) - x) <= x,
        x < 0 ==> x <= 0x20_0000_0000_0000 * (nearest(x) - x) <= -x,
{
    let y = if x < 0 {
        -x
    } else {
        x
    };
    lemma_nearest(y);
    lemma_spacing(y);
    if spacing(y) == 1 {
        assert(half_even(y, 1) == y);
    }
}

} // verus!
