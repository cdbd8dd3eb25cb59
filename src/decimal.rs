//! Exact fixed-point decimal numbers.
//!
//! A [`Dec`] stands for `mantissa * 10^(-scale)`. Every operation here is exact:
//! where the true result cannot be held in an `i128` mantissa, the operation
//! reports it (`None`) instead of rounding silently. Truncation and rounding
//! happen only where a caller asks for them, at a scale of its choosing.
use vstd::arithmetic::power::*;
use vstd::prelude::*;

verus! {

/// `mantissa * 10^(-scale)`. `==` compares representations (`1.0` and `1.00`
/// differ); [`Dec::lt`], [`lt`] and [`same_value`] compare values.
#[derive(Clone, Copy, Debug, PartialEq, Eq, Structural)]
pub struct Dec {
    pub mantissa: i128,
    pub scale: u32,
}

pub open spec fn pow10(n: nat) -> int {
    pow(10, n)
}

pub open spec fn in_i128(x: int) -> bool {
    i128::MIN <= x <= i128::MAX
}

/// The mantissa of `d` once written with `s` decimal places (for `s >= d.scale`).
pub open spec fn rescaled(d: Dec, s: nat) -> int {
    d.mantissa * pow10((s - d.scale) as nat)
}

pub open spec fn max_scale(a: Dec, b: Dec) -> nat {
    if a.scale >= b.scale {
        a.scale as nat
    } else {
        b.scale as nat
    }
}

/// Integer quotient rounded toward zero (`d != 0`).
pub open spec fn quot_tz(x: int, d: int) -> int {
    if x == 0 {
        0
    } else if x > 0 && d > 0 {
        x / d
    } else if x < 0 && d < 0 {
        (-x) / (-d)
    } else if x < 0 {
        -((-x) / d)
    } else {
        -(x / (-d))
    }
}

/// Value order: `a < b` as numbers, whatever their scales.
pub open spec fn lt(a: Dec, b: Dec) -> bool {
    a.mantissa * pow10(b.scale as nat) < b.mantissa * pow10(a.scale as nat)
}

/// Value equality: `a` and `b` stand for the same number.
pub open spec fn same_value(a: Dec, b: Dec) -> bool {
    a.mantissa * pow10(b.scale as nat) == b.mantissa * pow10(a.scale as nat)
}

pub open spec fn le(a: Dec, b: Dec) -> bool {
    lt(a, b) || same_value(a, b)
}

/// Exact sum, written with the larger of the two scales; `None` where an
/// aligned operand or the sum leaves the range of the mantissa.
pub open spec fn spec_add(a: Dec, b: Dec) -> Option<Dec> {
    let s = max_scale(a, b);
    let x = rescaled(a, s);
    let y = rescaled(b, s);
    if in_i128(x) && in_i128(y) && in_i128(x + y) {
        Some(Dec { mantissa: (x + y) as i128, scale: s as u32 })
    } else {
        None
    }
}

/// Exact difference, as [`spec_add`].
pub open spec fn spec_sub(a: Dec, b: Dec) -> Option<Dec> {
    let s = max_scale(a, b);
    let x = rescaled(a, s);
    let y = rescaled(b, s);
    if in_i128(x) && in_i128(y) && in_i128(x - y) {
        Some(Dec { mantissa: (x - y) as i128, scale: s as u32 })
    } else {
        None
    }
}

/// Exact product: mantissas multiply, scales add.
pub open spec fn spec_mul(a: Dec, b: Dec) -> Option<Dec> {
    let m = a.mantissa * b.mantissa;
    let s = a.scale + b.scale;
    if in_i128(m) && s <= u32::MAX {
        Some(Dec { mantissa: m as i128, scale: s as u32 })
    } else {
        None
    }
}

/// `d` cut toward zero to at most `k` decimal places; unchanged where it has no more.
pub open spec fn spec_trunc(d: Dec, k: u32) -> Dec {
    if d.scale <= k {
        d
    } else {
        Dec {
            mantissa: quot_tz(d.mantissa as int, pow10((d.scale - k) as nat)) as i128,
            scale: k,
        }
    }
}

/// `a / b` cut toward zero to exactly `k` decimal places; `None` where `b` is
/// zero or an intermediate leaves the range of the mantissa.
pub open spec fn spec_div_trunc(a: Dec, b: Dec, k: u32) -> Option<Dec> {
    let s = max_scale(a, b);
    let x = rescaled(a, s);
    let y = rescaled(b, s);
    let n = x * pow10(k as nat);
    if in_i128(x) && in_i128(y) && in_i128(n) && y != 0 && in_i128(quot_tz(n, y)) {
        Some(Dec { mantissa: quot_tz(n, y) as i128, scale: k })
    } else {
        None
    }
}

/// `n / d` rounded to the nearest integer, halves to the even neighbour (`d > 0`).
pub open spec fn round_half_even(n: int, d: int) -> int {
    let q = quot_tz(n, d);
    let r = n - q * d;
    let ar = if r >= 0 {
        r
    } else {
        -r
    };
    let step: int = if n >= 0 {
        1
    } else {
        -1
    };
    if 2 * ar < d {
        q
    } else if 2 * ar > d {
        q + step
    } else if q % 2 == 0 {
        q
    } else {
        q + step
    }
}

/// `a / b` rounded to exactly `dp` decimal places, halves to even (`b > 0`);
/// `None` where an intermediate leaves the range of the mantissa.
pub open spec fn spec_round_div(a: Dec, b: Dec, dp: u32) -> Option<Dec> {
    let s = max_scale(a, b);
    let x = rescaled(a, s);
    let y = rescaled(b, s);
    let n = x * pow10(dp as nat);
    if in_i128(x) && in_i128(y) && in_i128(n) {
        Some(Dec { mantissa: round_half_even(n, y) as i128, scale: dp })
    } else {
        None
    }
}

/// The number of decimal places that `m * 10^(-s)` needs: `s` less its trailing zeros.
pub open spec fn places(m: int, s: nat) -> nat
    decreases s,
{
    if m == 0 {
        0
    } else if s > 0 && m % 10 == 0 {
        places(m / 10, (s - 1) as nat)
    } else {
        s
    }
}

pub proof fn lemma_pow10_pos(n: nat)
    ensures
        pow10(n) >= 1,
{
    lemma_pow_positive(10, n);
}

proof fn lemma_quot_tz_bound(x: int, d: int)
    requires
        d >= 1,
    ensures
        quot_tz(x, d) * x >= 0,
        -x <= quot_tz(x, d) <= x || x <= quot_tz(x, d) <= -x,
{
    if x > 0 {
        vstd::arithmetic::div_mod::lemma_div_is_ordered_by_denominator(x, 1, d);
        vstd::arithmetic::div_mod::lemma_div_pos_is_pos(x, d);
        assert(quot_tz(x, d) * x >= 0) by (nonlinear_arith)
            requires
                quot_tz(x, d) >= 0,
                x > 0,
        ;
    } else if x < 0 {
        vstd::arithmetic::div_mod::lemma_div_is_ordered_by_denominator(-x, 1, d);
        vstd::arithmetic::div_mod::lemma_div_pos_is_pos(-x, d);
        assert(quot_tz(x, d) * x >= 0) by (nonlinear_arith)
            requires
                quot_tz(x, d) <= 0,
                x < 0,
        ;
    }
}

/// Comparing at any common scale compares the values.
pub proof fn lemma_rescaled_order(a: Dec, b: Dec, s: nat)
    requires
        s >= a.scale,
        s >= b.scale,
    ensures
        lt(a, b) <==> rescaled(a, s) < rescaled(b, s),
        same_value(a, b) <==> rescaled(a, s) == rescaled(b, s),
{
    let pa = pow10((s - a.scale) as nat);
    let pb = pow10((s - b.scale) as nat);
    lemma_pow_adds(10, a.scale as nat, (s - a.scale) as nat);
    lemma_pow_adds(10, b.scale as nat, (s - b.scale) as nat);
    lemma_pow10_pos((s - a.scale) as nat);
    lemma_pow10_pos((s - b.scale) as nat);
    let c = pa * pb;
    assert(c > 0) by (nonlinear_arith)
        requires
            c == pa * pb,
            pa >= 1,
            pb >= 1,
    ;
    let u = a.mantissa * pow10(b.scale as nat);
    let v = b.mantissa * pow10(a.scale as nat);
    let ra = rescaled(a, s);
    let rb = rescaled(b, s);
    assert(u * c == ra * pow10(s)) by (nonlinear_arith)
        requires
            u == a.mantissa * pow10(b.scale as nat),
            ra == a.mantissa * pa,
            c == pa * pb,
            pow10(s) == pow10(b.scale as nat) * pb,
    ;
    assert(v * c == rb * pow10(s)) by (nonlinear_arith)
        requires
            v == b.mantissa * pow10(a.scale as nat),
            rb == b.mantissa * pb,
            c == pa * pb,
            pow10(s) == pow10(a.scale as nat) * pa,
    ;
    lemma_pow10_pos(s);
    let ps = pow10(s);
    assert(u < v <==> u * c < v * c) by (nonlinear_arith)
        requires
            c > 0,
    ;
    assert(ra < rb <==> ra * ps < rb * ps) by (nonlinear_arith)
        requires
            ps > 0,
    ;
    assert(u == v <==> u * c == v * c) by (nonlinear_arith)
        requires
            c > 0,
    ;
    assert(ra == rb <==> ra * ps == rb * ps) by (nonlinear_arith)
        requires
            ps > 0,
    ;
}

proof fn lemma_sign_scaled(m: int, k: nat)
    ensures
        m > 0 ==> m * pow10(k) > 0,
        m < 0 ==> m * pow10(k) < 0,
        m == 0 ==> m * pow10(k) == 0,
{
    lemma_pow10_pos(k);
    let p = pow10(k);
    assert(m > 0 ==> m * p > 0) by (nonlinear_arith)
        requires
            p >= 1,
    ;
    assert(m < 0 ==> m * p < 0) by (nonlinear_arith)
        requires
            p >= 1,
    ;
}

/// A quotient toward zero is no larger in magnitude than its dividend.
pub proof fn lemma_quot_tz_magnitude(x: int, d: int)
    requires
        d != 0,
    ensures
        -x <= quot_tz(x, d) <= x || x <= quot_tz(x, d) <= -x,
        x >= 0 && d > 0 ==> quot_tz(x, d) >= 0,
{
    if d > 0 {
        lemma_quot_tz_bound(x, d);
    } else {
        lemma_quot_tz_bound(x, -d);
        if x > 0 {
            assert(quot_tz(x, d) == -quot_tz(x, -d));
        } else if x < 0 {
            assert(quot_tz(x, d) == -quot_tz(x, -d));
        }
    }
}

/// Truncation to `k` places leaves at most `k` places and never rounds a
/// non-negative number up.
pub proof fn lemma_trunc_never_up(d: Dec, k: u32)
    ensures
        spec_trunc(d, k).scale <= k,
        d.mantissa >= 0 ==> le(spec_trunc(d, k), d),
{
    let r = spec_trunc(d, k);
    if d.scale <= k {
        assert(same_value(d, d));
    } else if d.mantissa >= 0 {
        let e = (d.scale - k) as nat;
        let p = pow10(e);
        lemma_pow10_pos(e);
        lemma_pow_adds(10, k as nat, e);
        let m = d.mantissa as int;
        let q = m / p;
        vstd::arithmetic::div_mod::lemma_fundamental_div_mod(m, p);
        vstd::arithmetic::div_mod::lemma_mod_pos_bound(m, p);
        lemma_quot_tz_bound(m, p);
        assert(r.mantissa == q);
        lemma_pow10_pos(k as nat);
        assert(q * pow10(d.scale as nat) <= m * pow10(k as nat)) by (nonlinear_arith)
            requires
                m == p * q + m % p,
                m % p >= 0,
                pow10(d.scale as nat) == pow10(k as nat) * p,
                pow10(k as nat) >= 1,
        ;
    }
}

/// A number above a non-negative one is positive.
pub proof fn lemma_above_nonneg(a: Dec, b: Dec)
    requires
        a.mantissa >= 0,
        lt(a, b),
    ensures
        b.mantissa > 0,
{
    lemma_sign_scaled(a.mantissa as int, b.scale as nat);
    lemma_sign_scaled(b.mantissa as int, a.scale as nat);
}

proof fn lemma_rescaled_self(d: Dec)
    ensures
        rescaled(d, d.scale as nat) == d.mantissa,
{
    lemma_pow0(10);
}

/// Facts on the quotient toward zero and its remainder (`d > 0`).
proof fn lemma_quot_rem(n: int, d: int)
    requires
        d > 0,
    ensures
        ({
            let q = quot_tz(n, d);
            let r = n - q * d;
            &&& n >= 0 ==> 0 <= r < d && q >= 0
            &&& n < 0 ==> -d < r <= 0 && q <= 0
            &&& d >= 2 ==> 2 * q <= n || 2 * q >= n
            &&& d >= 2 && n >= 0 ==> 2 * q <= n
            &&& d >= 2 && n < 0 ==> 2 * q >= n
            &&& d == 1 ==> q == n
        }),
{
    let q = quot_tz(n, d);
    if n >= 0 {
        vstd::arithmetic::div_mod::lemma_fundamental_div_mod(n, d);
        vstd::arithmetic::div_mod::lemma_mod_pos_bound(n, d);
        vstd::arithmetic::div_mod::lemma_div_pos_is_pos(n, d);
        assert(n / d * d == d * (n / d)) by (nonlinear_arith);
        if d >= 2 {
            assert(2 * (n / d) <= n) by (nonlinear_arith)
                requires
                    n == d * (n / d) + n % d,
                    n % d >= 0,
                    n / d >= 0,
                    d >= 2,
            ;
        }
        if d == 1 {
            vstd::arithmetic::div_mod::lemma_div_basics(n);
        }
    } else {
        let m = -n;
        vstd::arithmetic::div_mod::lemma_fundamental_div_mod(m, d);
        vstd::arithmetic::div_mod::lemma_mod_pos_bound(m, d);
        vstd::arithmetic::div_mod::lemma_div_pos_is_pos(m, d);
        assert(q * d == -(d * (m / d))) by (nonlinear_arith)
            requires
                q == -(m / d),
        ;
        if d >= 2 {
            assert(2 * (m / d) <= m) by (nonlinear_arith)
                requires
                    m == d * (m / d) + m % d,
                    m % d >= 0,
                    m / d >= 0,
                    d >= 2,
            ;
        }
        if d == 1 {
            vstd::arithmetic::div_mod::lemma_div_basics(m);
        }
    }
}

/// `m * 10^k`, or `None` where that leaves the range of `i128`.
fn scale_up(m: i128, k: u32) -> (r: Option<i128>)
    ensures
        r == (if in_i128(m * pow10(k as nat)) {
            Some((m * pow10(k as nat)) as i128)
        } else {
            None::<i128>
        }),
{
    proof {
        lemma_pow0(10);
    }
    if m == 0 {
        assert(m * pow10(k as nat) == 0);
        return Some(0);
    }
    let mut acc: i128 = m;
    let mut i: u32 = 0;
    while i < k
        invariant
            i <= k,
            m != 0,
            acc == m * pow10(i as nat),
        decreases k - i,
    {
        proof {
            lemma_pow_adds(10, i as nat, 1);
            lemma_pow1(10);
            assert(m * pow10((i + 1) as nat) == acc * 10) by (nonlinear_arith)
                requires
                    acc == m * pow10(i as nat),
                    pow10((i + 1) as nat) == pow10(i as nat) * 10,
            ;
        }
        match acc.checked_mul(10) {
            Some(v) => {
                acc = v;
            },
            None => {
                proof {
                    lemma_grows(m as int, i as nat, (i + 1) as nat, k as nat);
                }
                return None;
            },
        }
        i = i + 1;
    }
    Some(acc)
}

/// Once `m * 10^j` has left the range of `i128`, so has `m * 10^k` for `k >= j`.
proof fn lemma_grows(m: int, i: nat, j: nat, k: nat)
    requires
        j == i + 1,
        j <= k,
        !in_i128(m * pow10(i) * 10),
    ensures
        !in_i128(m * pow10(k)),
{
    lemma_pow_adds(10, i, 1);
    lemma_pow1(10);
    lemma_pow_adds(10, j, (k - j) as nat);
    lemma_pow10_pos((k - j) as nat);
    let c = pow10((k - j) as nat);
    let x = m * pow10(i) * 10;
    assert(m * pow10(k) == x * c) by (nonlinear_arith)
        requires
            pow10(k) == pow10(j) * c,
            pow10(j) == pow10(i) * 10,
            x == m * pow10(i) * 10,
    ;
    assert(x > 0 ==> x * c >= x) by (nonlinear_arith)
        requires
            c >= 1,
    ;
    assert(x < 0 ==> x * c <= x) by (nonlinear_arith)
        requires
            c >= 1,
    ;
}

/// `n / d` rounded to the nearest integer, halves to even.
fn round_half_even_exec(n: i128, d: i128) -> (r: i128)
    requires
        d > 0,
    ensures
        r == round_half_even(n as int, d as int),
{
    proof {
        lemma_quot_rem(n as int, d as int);
    }
    let q = n / d;
    assert(q == quot_tz(n as int, d as int));
    let r = n - q * d;
    let ar = if r >= 0 {
        r
    } else {
        -r
    };
    let rest = d - ar;
    let step: i128 = if n >= 0 {
        1
    } else {
        -1
    };
    if ar < rest {
        q
    } else if ar > rest {
        q + step
    } else if q % 2 == 0 {
        q
    } else {
        q + step
    }
}

impl Dec {
    /// `a / b` cut toward zero to exactly `k` decimal places.
    pub fn checked_div_trunc(&self, other: &Dec, k: u32) -> (r: Option<Dec>)
        ensures
            r == spec_div_trunc(*self, *other, k),
    {
        let s = if self.scale >= other.scale {
            self.scale
        } else {
            other.scale
        };
        let x = scale_up(self.mantissa, s - self.scale);
        let y = scale_up(other.mantissa, s - other.scale);
        match (x, y) {
            (Some(x), Some(y)) => {
                if y == 0 {
                    return None;
                }
                match scale_up(x, k) {
                    Some(n) => match n.checked_div(y) {
                        Some(q) => Some(Dec { mantissa: q, scale: k }),
                        None => None,
                    },
                    None => None,
                }
            },
            _ => None,
        }
    }

    /// `self / other` rounded to exactly `dp` decimal places, halves to even.
    pub fn checked_round_div(&self, other: &Dec, dp: u32) -> (r: Option<Dec>)
        requires
            other.mantissa > 0,
        ensures
            r == spec_round_div(*self, *other, dp),
    {
        let s = if self.scale >= other.scale {
            self.scale
        } else {
            other.scale
        };
        let x = scale_up(self.mantissa, s - self.scale);
        let y = scale_up(other.mantissa, s - other.scale);
        match (x, y) {
            (Some(x), Some(y)) => {
                proof {
                    lemma_pow10_pos((s - other.scale) as nat);
                    assert(y > 0) by (nonlinear_arith)
                        requires
                            y == other.mantissa * pow10((s - other.scale) as nat),
                            other.mantissa > 0,
                            pow10((s - other.scale) as nat) >= 1,
                    ;
                }
                match scale_up(x, dp) {
                    Some(n) => Some(Dec { mantissa: round_half_even_exec(n, y), scale: dp }),
                    None => None,
                }
            },
            _ => None,
        }
    }

    /// Whether `self < other` as numbers.
    pub fn lt(&self, other: &Dec) -> (r: bool)
        ensures
            r == lt(*self, *other),
    {
        proof {
            lemma_rescaled_self(*self);
            lemma_rescaled_self(*other);
        }
        if self.scale <= other.scale {
            proof {
                lemma_rescaled_order(*self, *other, other.scale as nat);
            }
            match scale_up(self.mantissa, other.scale - self.scale) {
                Some(x) => x < other.mantissa,
                None => {
                    proof {
                        lemma_sign_scaled(self.mantissa as int, (other.scale - self.scale) as nat);
                    }
                    self.mantissa < 0
                },
            }
        } else {
            proof {
                lemma_rescaled_order(*self, *other, self.scale as nat);
            }
            match scale_up(other.mantissa, self.scale - other.scale) {
                Some(y) => self.mantissa < y,
                None => {
                    proof {
                        lemma_sign_scaled(other.mantissa as int, (self.scale - other.scale) as nat);
                    }
                    other.mantissa > 0
                },
            }
        }
    }

    /// Decimal places that the value needs, trailing zeros stripped.
    pub fn decimal_places(&self) -> (r: u32)
        ensures
            r == places(self.mantissa as int, self.scale as nat),
    {
        let mut m = self.mantissa;
        let mut s = self.scale;
        if m == 0 {
            return 0;
        }
        while s > 0 && m % 10 == 0
            invariant
                m != 0,
                places(m as int, s as nat) == places(self.mantissa as int, self.scale as nat),
            decreases s,
        {
            m = m / 10;
            s = s - 1;
        }
        s
    }

    /// A whole number.
    pub fn from_int(v: i128) -> (r: Dec)
        ensures
            r == (Dec { mantissa: v, scale: 0 }),
    {
        Dec { mantissa: v, scale: 0 }
    }

    /// `self + other`, exactly.
    pub fn checked_add(&self, other: &Dec) -> (r: Option<Dec>)
        ensures
            r == spec_add(*self, *other),
    {
        let s = if self.scale >= other.scale {
            self.scale
        } else {
            other.scale
        };
        let x = scale_up(self.mantissa, s - self.scale);
        let y = scale_up(other.mantissa, s - other.scale);
        match (x, y) {
            (Some(x), Some(y)) => match x.checked_add(y) {
                Some(m) => Some(Dec { mantissa: m, scale: s }),
                None => None,
            },
            _ => None,
        }
    }

    /// `self - other`, exactly.
    pub fn checked_sub(&self, other: &Dec) -> (r: Option<Dec>)
        ensures
            r == spec_sub(*self, *other),
    {
        let s = if self.scale >= other.scale {
            self.scale
        } else {
            other.scale
        };
        let x = scale_up(self.mantissa, s - self.scale);
        let y = scale_up(other.mantissa, s - other.scale);
        match (x, y) {
            (Some(x), Some(y)) => match x.checked_sub(y) {
                Some(m) => Some(Dec { mantissa: m, scale: s }),
                None => None,
            },
            _ => None,
        }
    }

    /// `self * other`, exactly.
    pub fn checked_mul(&self, other: &Dec) -> (r: Option<Dec>)
        ensures
            r == spec_mul(*self, *other),
    {
        match self.mantissa.checked_mul(other.mantissa) {
            Some(m) => match self.scale.checked_add(other.scale) {
                Some(s) => Some(Dec { mantissa: m, scale: s }),
                None => None,
            },
            None => None,
        }
    }

    /// `self` cut toward zero to at most `k` decimal places.
    pub fn trunc_with_scale(&self, k: u32) -> (r: Dec)
        ensures
            r == spec_trunc(*self, k),
    {
        if self.scale <= k {
            return *self;
        }
        let e = self.scale - k;
        let ghost p = pow10(e as nat);
        proof {
            lemma_pow10_pos(e as nat);
            lemma_quot_tz_bound(self.mantissa as int, p);
        }
        match scale_up(1, e) {
            Some(d) => {
                assert(d == p);
                let q = self.mantissa / d;
                Dec { mantissa: q, scale: k }
            },
            None => {
                // 10^e is beyond every mantissa: nothing is left of `self`
                // but a sign, and that goes too.
                proof {
                    assert(p > i128::MAX);
                    lemma_pow_adds(10, 1, (e - 1) as nat);
                    lemma_pow1(10);
                    lemma_pow10_pos((e - 1) as nat);
                    assert(p % 10 == 0) by (nonlinear_arith)
                        requires
                            p == 10 * pow10((e - 1) as nat),
                    ;
                    let x = self.mantissa as int;
                    if x > 0 {
                        vstd::arithmetic::div_mod::lemma_basic_div(x, p);
                    } else if x < 0 {
                        vstd::arithmetic::div_mod::lemma_basic_div(-x, p);
                    }
                }
                Dec { mantissa: 0, scale: k }
            },
        }
    }
}

} // verus!
