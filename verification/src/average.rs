//! The mean of a series of prices, exact for every series.

use vstd::prelude::*;
use vstd::arithmetic::div_mod::*;
use crate::price_data::PriceData;

verus! {

/// Sum of the prices of `records`.
pub open spec fn total(records: Seq<PriceData>) -> int
    decreases records.len(),
{
    if records.len() == 0 {
        0
    } else {
        total(records.drop_last()) + records.last().price
    }
}

/// `floor(sum / count)` over the prices of `records`; absent for no record.
pub open spec fn mean_spec(records: Seq<PriceData>) -> Option<int> {
    if records.len() == 0 {
        None
    } else {
        Some(total(records) / (records.len() as int))
    }
}

/// The sum of `n` prices lies between `n` times the least and `n` times the
/// largest `i128`.
pub proof fn lemma_total_bounds(records: Seq<PriceData>)
    ensures
        records.len() * i128::MIN <= total(records) <= records.len() * i128::MAX,
    decreases records.len(),
{
    if records.len() > 0 {
        lemma_total_bounds(records.drop_last());
    }
}

/// The mean of a series of `i128` prices is an `i128`.
pub proof fn lemma_mean_fits(records: Seq<PriceData>)
    requires
        records.len() > 0,
    ensures
        i128::MIN <= total(records) / (records.len() as int) <= i128::MAX,
{
    let n = records.len() as int;
    lemma_total_bounds(records);
    lemma_div_is_ordered(n * i128::MIN, total(records), n);
    lemma_div_is_ordered(total(records), n * i128::MAX, n);
    lemma_div_multiples_vanish(i128::MIN as int, n);
    lemma_div_multiples_vanish(i128::MAX as int, n);
}

/// Adding `a * n + b` to `q * n + r` gives `(q + a + c) * n + (r + b - c * n)`.
proof fn lemma_carry(q: int, r: int, a: int, b: int, c: int, n: int)
    ensures
        (q + a + c) * n + (r + b - c * n) == (q * n + r) + (a * n + b),
{
    assert((q + a + c) * n == q * n + a * n + c * n) by (nonlinear_arith);
}

/// The mean price of `records`, rounded toward negative infinity: the sum of
/// the prices divided by their number. The sum itself may exceed an `i128`;
/// it is kept as a quotient and a remainder by the number of records.
pub fn mean_floor(records: &Vec<PriceData>) -> (r: Option<i128>)
    ensures
        match r {
            Some(mean) => mean_spec(records@) == Some(mean as int),
            None => mean_spec(records@) is None,
        },
{
    let len = records.len();
    if len == 0 {
        return None;
    }
    let n: i128 = len as i128;
    let mut quotient: i128 = 0;
    let mut remainder: i128 = 0;
    let mut j: usize = 0;
    while j < len
        invariant
            j <= len,
            len == records@.len(),
            n == len,
            n > 0,
            0 <= remainder < n,
            total(records@.take(j as int)) == quotient * n + remainder,
        decreases len - j,
    {
        let price = records[j].price;
        let ghost before = records@.take(j as int);
        let ghost after = records@.take(j + 1);
        proof {
            assert(after.drop_last() =~= before);
            assert(after.last().price == price);
            lemma_fundamental_div_mod(price as int, n as int);
            lemma_mod_bound(price as int, n as int);
            lemma_price_quotient(price as int, n as int);
        }
        let a = match price.checked_div_euclid(n) {
            Some(v) => v,
            None => 0,
        };
        let b = match price.checked_rem_euclid(n) {
            Some(v) => v,
            None => 0,
        };
        let sum = remainder + b;
        let carry: i128 = if sum >= n {
            1
        } else {
            0
        };
        proof {
            assert(price == a * n + b) by (nonlinear_arith)
                requires
                    price == n * a + b,
            ;
            lemma_carry(
                quotient as int,
                remainder as int,
                a as int,
                b as int,
                carry as int,
                n as int,
            );
            let next_remainder = sum - carry * n;
            assert(0 <= next_remainder < n) by (nonlinear_arith)
                requires
                    next_remainder == sum - carry * n,
                    0 <= sum < 2 * n,
                    carry == (if sum >= n {
                        1int
                    } else {
                        0int
                    }),
            ;
            assert(total(after) == (quotient + a + carry) * n + next_remainder);
            lemma_fundamental_div_mod_converse(
                total(after),
                n as int,
                quotient + a + carry,
                next_remainder,
            );
            lemma_total_bounds(after);
            lemma_div_is_ordered(n * i128::MIN, total(after), n as int);
            lemma_div_is_ordered(total(after), n * i128::MAX, n as int);
            lemma_div_multiples_vanish(i128::MIN as int, n as int);
            lemma_div_multiples_vanish(i128::MAX as int, n as int);
            assert(after.len() * i128::MIN >= n * i128::MIN) by (nonlinear_arith)
                requires
                    after.len() <= n,
            ;
            assert(after.len() * i128::MAX <= n * i128::MAX) by (nonlinear_arith)
                requires
                    after.len() <= n,
            ;
        }
        let step = a + carry;
        quotient = quotient + step;
        remainder = if sum >= n {
            sum - n
        } else {
            sum
        };
        j = j + 1;
    }
    proof {
        assert(records@.take(len as int) =~= records@);
        lemma_fundamental_div_mod_converse(
            total(records@),
            n as int,
            quotient as int,
            remainder as int,
        );
    }
    Some(quotient)
}

/// Bounds on the quotient of a price by a count: negative prices have a
/// negative quotient, and with two records or more the quotient of a
/// non-negative price is at most half the largest `i128`.
proof fn lemma_price_quotient(price: int, n: int)
    requires
        i128::MIN <= price <= i128::MAX,
        n > 0,
    ensures
        i128::MIN <= price / n <= i128::MAX,
        price < 0 ==> price / n < 0,
        n >= 2 ==> price / n < i128::MAX,
        n == 1 ==> price % n == 0,
{
    lemma_fundamental_div_mod(price, n);
    lemma_mod_bound(price, n);
    let q = price / n;
    let r = price % n;
    assert(price < 0 ==> q < 0) by (nonlinear_arith)
        requires
            price == n * q + r,
            0 <= r < n,
            n > 0,
    ;
    assert(i128::MIN <= q <= i128::MAX) by (nonlinear_arith)
        requires
            price == n * q + r,
            0 <= r < n,
            n > 0,
            i128::MIN <= price <= i128::MAX,
    ;
    assert(n >= 2 ==> q < i128::MAX) by (nonlinear_arith)
        requires
            price == n * q + r,
            0 <= r < n,
            n > 0,
            price <= i128::MAX,
    ;
}

} // verus!
