//! Exact fixed-point arithmetic on `i128` prices.
//!
//! A price with `decimals` fractional digits is the integer `price * 10^decimals`.
//! Dividing two such prices multiplies the dividend by `10^decimals` first, which
//! does not fit 128 bits in general. The division here is carried out one decimal
//! digit at a time, so the scaled dividend is never formed and the quotient is
//! the exact floor for every input.

use vstd::prelude::*;
use vstd::arithmetic::power::*;
use vstd::arithmetic::div_mod::*;
use vstd::arithmetic::mul::*;

verus! {

/// Largest magnitude of an `i128`: `2^127`, the magnitude of `i128::MIN`.
pub const MAGNITUDE_LIMIT: u128 = 0x8000_0000_0000_0000_0000_0000_0000_0000u128;

/// Mathematical floor of `x / d` for a non-zero divisor of either sign.
pub open spec fn floor_div(x: int, d: int) -> int {
    if d > 0 {
        x / d
    } else {
        (-x) / (-d)
    }
}

/// [`floor_div`] is the floor of the quotient: the largest integer that,
/// times the divisor, does not pass the dividend on the divisor's side.
pub proof fn lemma_floor_div_is_floor(x: int, d: int)
    requires
        d != 0,
    ensures
        d > 0 ==> floor_div(x, d) * d <= x < (floor_div(x, d) + 1) * d,
        d < 0 ==> (floor_div(x, d) + 1) * d < x <= floor_div(x, d) * d,
{
    if d > 0 {
        lemma_fundamental_div_mod(x, d);
        lemma_mod_bound(x, d);
        let q = x / d;
        assert(q * d <= x < (q + 1) * d) by (nonlinear_arith)
            requires
                x == d * q + x % d,
                0 <= x % d < d,
        ;
    } else {
        let n = -x;
        let m = -d;
        lemma_fundamental_div_mod(n, m);
        lemma_mod_bound(n, m);
        let q = n / m;
        assert((q + 1) * d < x <= q * d) by (nonlinear_arith)
            requires
                n == m * q + n % m,
                0 <= n % m < m,
                n == -x,
                m == -d,
        ;
    }
}

/// `floor(x * 10^decimals / y)`: the quotient of two fixed-point numbers,
/// rounded toward negative infinity.
pub open spec fn fixed_div_floor_spec(x: int, y: int, decimals: nat) -> int {
    floor_div(x * pow(10, decimals), y)
}

/// The fixed-point quotient exists (the divisor is not zero) and fits an `i128`.
pub open spec fn fixed_div_floor_fits(x: int, y: int, decimals: nat) -> bool {
    &&& y != 0
    &&& i128::MIN <= fixed_div_floor_spec(x, y, decimals) <= i128::MAX
}

/// `price * 10^decimals`: a whole price written with `decimals` fractional digits.
pub open spec fn normalize_price_spec(price: int, decimals: nat) -> int {
    price * pow(10, decimals)
}

/// Magnitude of `x` as an unsigned number.
pub open spec fn magnitude_spec(x: int) -> int {
    if x < 0 {
        -x
    } else {
        x
    }
}

/// Magnitude of an `i128`, which always fits a `u128`.
pub fn magnitude(x: i128) -> (m: u128)
    ensures
        m == magnitude_spec(x as int),
        m <= MAGNITUDE_LIMIT,
{
    if x >= 0 {
        x as u128
    } else if x == i128::MIN {
        MAGNITUDE_LIMIT
    } else {
        (-x) as u128
    }
}

/// Ten times a remainder, divided by the divisor it is a remainder of:
/// the next decimal digit of a long division and the remainder that follows it.
fn next_digit(rem: u128, divisor: u128) -> (r: (u8, u128))
    requires
        rem < divisor,
        divisor <= MAGNITUDE_LIMIT,
    ensures
        r.0 <= 9,
        r.1 < divisor,
        10 * rem == r.0 * divisor + r.1,
        r.0 == (10 * rem) / (divisor as int),
        r.1 == (10 * rem) % (divisor as int),
{
    let mut digit: u8 = 0;
    let mut acc: u128 = 0;
    let mut i: u8 = 0;
    while i < 10
        invariant
            i <= 10,
            digit <= i,
            acc < divisor,
            rem < divisor,
            divisor <= MAGNITUDE_LIMIT,
            i * rem == digit * divisor + acc,
        decreases 10 - i,
    {
        proof {
            assert((i + 1) * rem == i * rem + rem) by (nonlinear_arith);
            assert((digit + 1) * divisor == digit * divisor + divisor) by (nonlinear_arith);
        }
        acc = acc + rem;
        if acc >= divisor {
            acc = acc - divisor;
            digit = digit + 1;
        }
        i = i + 1;
    }
    proof {
        assert(digit <= 9) by {
            if digit == 10 {
                assert(10 * rem < 10 * divisor);
            }
        }
        lemma_fundamental_div_mod_converse(10 * rem, divisor as int, digit as int, acc as int);
    }
    (digit, acc)
}

/// Quotient and remainder of `x * 10^decimals` by `y`, for unsigned operands.
/// `None` when the quotient exceeds `u128::MAX`.
fn scaled_div_rem(x: u128, y: u128, decimals: u32) -> (r: Option<(u128, u128)>)
    requires
        0 < y <= MAGNITUDE_LIMIT,
    ensures
        match r {
            Some((q, rem)) => q == (x * pow(10, decimals as nat)) / (y as int) && rem == (x * pow(
                10,
                decimals as nat,
            )) % (y as int),
            None => (x * pow(10, decimals as nat)) / (y as int) > u128::MAX,
        },
{
    if x == 0 {
        proof {
            assert(0 * pow(10, decimals as nat) == 0) by (nonlinear_arith);
            lemma_fundamental_div_mod_converse(0, y as int, 0, 0);
        }
        return Some((0, 0));
    }
    let mut q: u128 = x / y;
    let mut rem: u128 = x % y;
    let mut k: u32 = 0;
    proof {
        lemma_pow0(10);
        lemma_fundamental_div_mod(x as int, y as int);
        assert(x * 1 == x);
        assert(y * (x / y) == (x / y) * y) by (nonlinear_arith);
    }
    while k < decimals
        invariant
            k <= decimals,
            0 < y <= MAGNITUDE_LIMIT,
            rem < y,
            x * pow(10, k as nat) == q * y + rem,
        decreases decimals - k,
    {
        let (digit, next_rem) = next_digit(rem, y);
        proof {
            lemma_scaled_step(
                x as int,
                y as int,
                k as nat,
                q as int,
                rem as int,
                digit as int,
                next_rem as int,
            );
        }
        let shifted = match q.checked_mul(10) {
            Some(v) => v.checked_add(digit as u128),
            None => None,
        };
        match shifted {
            Some(next_q) => {
                q = next_q;
                rem = next_rem;
                k = k + 1;
            },
            None => {
                proof {
                    lemma_scaled_quotient_grows(
                        x as int,
                        y as int,
                        (k + 1) as nat,
                        decimals as nat,
                        q * 10 + digit,
                        next_rem as int,
                    );
                }
                return None;
            },
        }
    }
    proof {
        lemma_fundamental_div_mod_converse(
            x * pow(10, decimals as nat),
            y as int,
            q as int,
            rem as int,
        );
    }
    Some((q, rem))
}

/// One step of decimal long division keeps the division identity.
proof fn lemma_scaled_step(x: int, y: int, k: nat, q: int, rem: int, digit: int, next_rem: int)
    requires
        x * pow(10, k) == q * y + rem,
        10 * rem == digit * y + next_rem,
    ensures
        x * pow(10, k + 1) == (q * 10 + digit) * y + next_rem,
{
    lemma_pow_adds(10, k, 1);
    lemma_pow1(10);
    let p = pow(10, k);
    assert(x * (p * 10) == (x * p) * 10) by (nonlinear_arith);
    assert((q * y + rem) * 10 == (q * 10) * y + 10 * rem) by (nonlinear_arith);
    assert((q * 10 + digit) * y == (q * 10) * y + digit * y) by (nonlinear_arith);
}

/// A quotient reached after `k` digits bounds the quotient after `d >= k` digits from below.
proof fn lemma_scaled_quotient_grows(x: int, y: int, k: nat, d: nat, q: int, rem: int)
    requires
        0 <= x,
        0 < y,
        k <= d,
        0 <= rem < y,
        x * pow(10, k) == q * y + rem,
    ensures
        q <= (x * pow(10, d)) / y,
{
    lemma_fundamental_div_mod_converse(x * pow(10, k), y, q, rem);
    lemma_pow_increases(10, k, d);
    lemma_pow_positive(10, k);
    lemma_mul_inequality(pow(10, k), pow(10, d), x);
    assert(x * pow(10, k) == pow(10, k) * x) by (nonlinear_arith);
    assert(x * pow(10, d) == pow(10, d) * x) by (nonlinear_arith);
    lemma_div_is_ordered(x * pow(10, k), x * pow(10, d), y);
}

/// The floor quotient of a dividend and a divisor of the same sign is the
/// quotient of their magnitudes.
proof fn lemma_floor_same_sign(x: int, y: int, s: int)
    requires
        y != 0,
        s >= 0,
        (x >= 0 && y > 0) || (x <= 0 && y < 0),
    ensures
        floor_div(x * s, y) == (magnitude_spec(x) * s) / magnitude_spec(y),
{
    if y < 0 {
        assert(-(x * s) == (-x) * s) by (nonlinear_arith);
    }
}

/// The floor quotient of a dividend and a divisor of opposite signs is the
/// negated quotient of their magnitudes, one lower when a remainder is left.
proof fn lemma_floor_opposite_sign(x: int, y: int, s: int)
    requires
        y != 0,
        s >= 0,
        (x >= 0 && y < 0) || (x <= 0 && y > 0),
    ensures
        ({
            let n = magnitude_spec(x) * s;
            let d = magnitude_spec(y);
            floor_div(x * s, y) == if n % d == 0 {
                -(n / d)
            } else {
                -(n / d) - 1
            }
        }),
{
    let n = magnitude_spec(x) * s;
    let d = magnitude_spec(y);
    let q = n / d;
    let r = n % d;
    lemma_fundamental_div_mod(n, d);
    assert(n == q * d + r) by (nonlinear_arith)
        requires
            n == d * q + r,
    ;
    // the dividend of the floor quotient, with a positive divisor, is -n
    if y > 0 {
        assert(x * s == -n) by (nonlinear_arith)
            requires
                n == (-x) * s,
        ;
    } else {
        assert(-(x * s) == -n) by (nonlinear_arith)
            requires
                n == x * s,
        ;
    }
    assert(floor_div(x * s, y) == (-n) / d);
    if r == 0 {
        assert(-n == (-q) * d + 0) by (nonlinear_arith)
            requires
                n == q * d + r,
                r == 0,
        ;
        lemma_fundamental_div_mod_converse(-n, d, -q, 0);
    } else {
        assert(-n == (-q - 1) * d + (d - r)) by (nonlinear_arith)
            requires
                n == q * d + r,
        ;
        lemma_fundamental_div_mod_converse(-n, d, -q - 1, d - r);
    }
}

/// `floor(x * 10^decimals / y)` where that number exists and fits an `i128`,
/// `None` where the divisor is zero or the quotient is out of range.
pub fn checked_fixed_div_floor(x: i128, y: i128, decimals: u32) -> (r: Option<i128>)
    ensures
        r == if fixed_div_floor_fits(x as int, y as int, decimals as nat) {
            Some(fixed_div_floor_spec(x as int, y as int, decimals as nat) as i128)
        } else {
            None
        },
{
    if y == 0 {
        return None;
    }
    let ghost s = pow(10, decimals as nat);
    proof {
        lemma_pow_positive(10, decimals as nat);
    }
    let opposite = (x > 0 && y < 0) || (x < 0 && y > 0);
    proof {
        if opposite {
            lemma_floor_opposite_sign(x as int, y as int, s);
        } else {
            lemma_floor_same_sign(x as int, y as int, s);
        }
    }
    match scaled_div_rem(magnitude(x), magnitude(y), decimals) {
        None => None,
        Some((q, rem)) => {
            if !opposite {
                if q <= i128::MAX as u128 {
                    Some(q as i128)
                } else {
                    None
                }
            } else if rem == 0 {
                if q < MAGNITUDE_LIMIT {
                    Some(-(q as i128))
                } else if q == MAGNITUDE_LIMIT {
                    Some(i128::MIN)
                } else {
                    None
                }
            } else {
                if q < MAGNITUDE_LIMIT {
                    Some(-(q as i128) - 1)
                } else {
                    None
                }
            }
        },
    }
}

/// `price * 10^decimals` where it fits an `i128`, `None` where it does not.
pub fn checked_normalize_price(price: i128, decimals: u32) -> (r: Option<i128>)
    ensures
        r == if i128::MIN <= normalize_price_spec(price as int, decimals as nat) <= i128::MAX {
            Some(normalize_price_spec(price as int, decimals as nat) as i128)
        } else {
            None
        },
{
    if price == 0 {
        proof {
            assert(0 * pow(10, decimals as nat) == 0) by (nonlinear_arith);
        }
        return Some(0);
    }
    let mut acc: i128 = price;
    let mut k: u32 = 0;
    proof {
        lemma_pow0(10);
    }
    while k < decimals
        invariant
            k <= decimals,
            price != 0,
            acc == price * pow(10, k as nat),
        decreases decimals - k,
    {
        proof {
            lemma_pow_adds(10, k as nat, 1);
            lemma_pow1(10);
            lemma_pow_positive(10, k as nat);
            let p = pow(10, k as nat);
            assert(price * (p * 10) == (price * p) * 10) by (nonlinear_arith);
            assert(acc * 10 == price * pow(10, (k + 1) as nat));
            assert(price > 0 ==> price * p > 0) by (nonlinear_arith)
                requires
                    p > 0,
            ;
            assert(price < 0 ==> price * p < 0) by (nonlinear_arith)
                requires
                    p > 0,
            ;
        }
        match acc.checked_mul(10) {
            Some(next) => {
                acc = next;
                k = k + 1;
            },
            None => {
                proof {
                    lemma_normalize_grows(price as int, (k + 1) as nat, decimals as nat);
                }
                return None;
            },
        }
    }
    Some(acc)
}

/// Scaling by more digits never brings a number closer to zero.
proof fn lemma_normalize_grows(price: int, k: nat, d: nat)
    requires
        k <= d,
    ensures
        price >= 0 ==> price * pow(10, k) <= price * pow(10, d),
        price <= 0 ==> price * pow(10, d) <= price * pow(10, k),
{
    lemma_pow_increases(10, k, d);
    let a = pow(10, k);
    let b = pow(10, d);
    assert(price >= 0 ==> price * a <= price * b) by (nonlinear_arith)
        requires
            a <= b,
    ;
    assert(price <= 0 ==> price * b <= price * a) by (nonlinear_arith)
        requires
            a <= b,
    ;
}

/// `price * 10^decimals`, for a product that fits an `i128`.
pub fn normalize_price(price: i128, decimals: u32) -> (r: i128)
    requires
        i128::MIN <= normalize_price_spec(price as int, decimals as nat) <= i128::MAX,
    ensures
        r == normalize_price_spec(price as int, decimals as nat),
{
    match checked_normalize_price(price, decimals) {
        Some(v) => v,
        None => price,
    }
}

/// Fixed-point operations on a price held as an `i128`.
pub trait I128Extensions: Sized {
    /// The number that `self` stands for.
    spec fn as_int(self) -> int;

    /// `floor(self * 10^decimals / y)`, for a non-zero divisor and a quotient
    /// that fits an `i128`.
    fn fixed_div_floor(self, y: i128, decimals: u32) -> (r: i128)
        requires
            fixed_div_floor_fits(self.as_int(), y as int, decimals as nat),
        ensures
            r == fixed_div_floor_spec(self.as_int(), y as int, decimals as nat),
    ;
}

impl I128Extensions for i128 {
    open spec fn as_int(self) -> int {
        self as int
    }

    fn fixed_div_floor(self, y: i128, decimals: u32) -> (r: i128) {
        match checked_fixed_div_floor(self, y, decimals) {
            Some(v) => v,
            None => self,
        }
    }
}

} // verus!
