//! How many blockchain confirmations an incoming transaction needs before it
//! is accepted: the more it is worth in dollars, the more confirmations.
use vstd::prelude::*;
use vstd::arithmetic::div_mod::{
    lemma_div_is_ordered, lemma_div_multiples_vanish_fancy, lemma_fundamental_div_mod, lemma_mod_bound,
};
use vstd::arithmetic::mul::lemma_mul_inequality;
use crate::models::{Amount, Currency};

verus! {

pub const BTC_DECIMALS: u128 = 100_000_000u128;
pub const ETH_DECIMALS: u128 = 1_000_000_000_000_000_000u128;
pub const STQ_DECIMALS: u128 = 1_000_000_000_000_000_000u128;

/// Dollar values (in whole dollars) that separate the confirmation levels of
/// bitcoin: up to $100, $500, $1000, and above.
pub open spec fn btc_thresholds() -> Seq<u64> {
    seq![100u64, 500u64, 1000u64]
}

/// Confirmations that bitcoin needs at each level.
pub open spec fn btc_levels() -> Seq<u64> {
    seq![0u64, 1u64, 2u64, 3u64]
}

/// Dollar values that separate the confirmation levels of ether.
pub open spec fn ether_thresholds() -> Seq<u64> {
    seq![20u64, 50u64, 200u64, 500u64, 1000u64, 2000u64, 3000u64, 5000u64]
}

/// Confirmations that ether needs at each level: up to $3000 one more per
/// level, 8 up to $5000 and 12 above.
pub open spec fn ether_levels() -> Seq<u64> {
    seq![0u64, 1u64, 2u64, 3u64, 4u64, 5u64, 6u64, 8u64, 12u64]
}

/// Dollar values that separate the confirmation levels of the token.
pub open spec fn token_thresholds() -> Seq<u64> {
    seq![20u64, 50u64, 200u64, 500u64, 1000u64, 2000u64, 3000u64, 4000u64, 5000u64]
}

/// Confirmations that the token needs at each level: one more per level.
pub open spec fn token_levels() -> Seq<u64> {
    seq![0u64, 1u64, 2u64, 3u64, 4u64, 5u64, 6u64, 7u64, 8u64, 9u64]
}

pub open spec fn thresholds(currency: Currency) -> Seq<u64> {
    match currency {
        Currency::Btc => btc_thresholds(),
        Currency::Eth => ether_thresholds(),
        Currency::Stq => token_thresholds(),
    }
}

pub open spec fn levels(currency: Currency) -> Seq<u64> {
    match currency {
        Currency::Btc => btc_levels(),
        Currency::Eth => ether_levels(),
        Currency::Stq => token_levels(),
    }
}

/// Smallest units per whole coin.
pub open spec fn decimals(currency: Currency) -> int {
    match currency {
        Currency::Btc => BTC_DECIMALS as int,
        Currency::Eth => ETH_DECIMALS as int,
        Currency::Stq => STQ_DECIMALS as int,
    }
}

/// Dollars per coin as a fraction: 6500 per bitcoin, 200 per ether, 1/400 per token.
pub open spec fn usd_rate_numerator(currency: Currency) -> int {
    match currency {
        Currency::Btc => 6500,
        Currency::Eth => 200,
        Currency::Stq => 1,
    }
}

pub open spec fn usd_rate_denominator(currency: Currency) -> int {
    match currency {
        Currency::Btc => 1,
        Currency::Eth => 1,
        Currency::Stq => 400,
    }
}

/// Smallest units per dollar's worth of `usd_rate_numerator` dollars.
pub open spec fn usd_divisor(currency: Currency) -> int {
    usd_rate_denominator(currency) * decimals(currency)
}

/// The dollar value of `raw` smallest units at the fixed rate, rounded down
/// once: less than a dollar below the exact value.
pub open spec fn usd_value(currency: Currency, raw: int) -> int {
    raw * usd_rate_numerator(currency) / usd_divisor(currency)
}

/// `usd_value`, capped at the largest `u64`.
pub open spec fn usd_value_capped(currency: Currency, raw: int) -> int {
    if usd_value(currency, raw) > u64::MAX as int {
        u64::MAX as int
    } else {
        usd_value(currency, raw)
    }
}

/// The number of thresholds that lie strictly below `usd`.
pub open spec fn count_below(ts: Seq<u64>, usd: int) -> nat
    decreases ts.len(),
{
    if ts.len() == 0 {
        0
    } else {
        count_below(ts.drop_last(), usd) + if (ts.last() as int) < usd {
            1nat
        } else {
            0nat
        }
    }
}

/// The confirmations that a transfer of `raw` smallest units needs: the level
/// of its dollar value, which is the number of thresholds it exceeds.
pub open spec fn confirmations_needed(currency: Currency, raw: int) -> int {
    levels(currency)[count_below(thresholds(currency), usd_value_capped(currency, raw)) as int] as int
}

proof fn lemma_mul_div_split(raw: int, n: int, d: int)
    requires
        d > 0,
        n > 0,
        raw >= 0,
    ensures
        raw * n / d == (raw / d) * n + ((raw % d) * n) / d,
        0 <= (raw % d) * n,
        (raw % d) * n < d * n,
{
    let q = raw / d;
    let r = raw % d;
    lemma_fundamental_div_mod(raw, d);
    lemma_mod_bound(raw, d);
    let q2 = (r * n) / d;
    let r2 = (r * n) % d;
    lemma_fundamental_div_mod(r * n, d);
    lemma_mod_bound(r * n, d);
    assert(raw * n == d * (q * n + q2) + r2) by (nonlinear_arith)
        requires
            raw == d * q + r,
            r * n == d * q2 + r2,
    ;
    lemma_div_multiples_vanish_fancy(q * n + q2, r2, d);
    assert(0 <= r * n < d * n) by (nonlinear_arith)
        requires
            r < d,
            0 <= r,
            n > 0,
    ;
}

proof fn lemma_floor_bounds(x: int, d: int)
    requires
        d > 0,
        x >= 0,
    ensures
        (x / d) * d <= x < (x / d + 1) * d,
{
    lemma_fundamental_div_mod(x, d);
    lemma_mod_bound(x, d);
    assert((x / d) * d == d * (x / d)) by (nonlinear_arith);
    assert((x / d + 1) * d == d * (x / d) + d) by (nonlinear_arith);
}

/// Approximate value in whole dollars, at fixed rates, of a transfer (used only
/// to decide how many confirmations it needs): the exact value rounded down,
/// so less than a dollar below it. Values beyond the `u64` range are reported
/// as `u64::MAX`.
pub fn to_usd_approx(currency: Currency, value: Amount) -> (r: u64)
    ensures
        r == usd_value_capped(currency, value.0 as int),
        usd_value(currency, value.0 as int) <= u64::MAX ==> r * usd_divisor(currency) <= value.0 * usd_rate_numerator(
            currency,
        ) < (r + 1) * usd_divisor(currency),
{
    let (n, d): (u128, u128) = match currency {
        Currency::Btc => (6500u128, BTC_DECIMALS),
        Currency::Eth => (200u128, ETH_DECIMALS),
        Currency::Stq => (1u128, 400u128 * STQ_DECIMALS),
    };
    assert(n == usd_rate_numerator(currency) && d == usd_divisor(currency));
    let raw = value.0;
    proof {
        lemma_mul_div_split(raw as int, n as int, d as int);
        lemma_floor_bounds(raw * n, d as int);
        assert(raw / d <= u128::MAX / 100_000_000) by {
            vstd::arithmetic::div_mod::lemma_div_is_ordered_by_denominator(raw as int, 100_000_000, d as int);
            lemma_div_is_ordered(raw as int, u128::MAX as int, 100_000_000);
        }
        assert((raw / d) * n <= (u128::MAX / 100_000_000) * 6500) by (nonlinear_arith)
            requires
                raw / d <= u128::MAX / 100_000_000,
                0 <= raw / d,
                0 < n <= 6500,
        ;
        assert(d * n <= 400_000_000_000_000_000_000);
    }
    // value * n / d, computed without an intermediate overflow
    let usd: u128 = (raw / d) * n + ((raw % d) * n) / d;
    assert(usd == usd_value(currency, raw as int));
    if usd > u64::MAX as u128 {
        u64::MAX
    } else {
        usd as u64
    }
}

proof fn lemma_count_below_sorted(ts: Seq<u64>, usd: int, i: int)
    requires
        0 <= i <= ts.len(),
        forall|j: int| 0 <= j < i ==> (ts[j] as int) < usd,
        i < ts.len() ==> usd <= ts[i] as int,
        forall|a: int, b: int| 0 <= a <= b < ts.len() ==> ts[a] <= ts[b],
    ensures
        count_below(ts, usd) == i,
    decreases ts.len(),
{
    if ts.len() > 0 {
        if i == ts.len() {
            lemma_count_below_sorted(ts.drop_last(), usd, i - 1);
        } else {
            assert(!((ts.last() as int) < usd));
            lemma_count_below_sorted(ts.drop_last(), usd, i);
        }
    }
}

/// Number of confirmations that a transfer of `value` in `currency` needs:
/// the level of the first dollar threshold that the transfer's dollar value
/// does not exceed, or the top level when it exceeds them all.
pub fn required_confirmations(currency: Currency, value: Amount) -> (r: u64)
    ensures
        r == confirmations_needed(currency, value.0 as int),
{
    let usd_value = to_usd_approx(currency, value);
    let (ts, ls): (Vec<u64>, Vec<u64>) = match currency {
        Currency::Btc => (vec![100u64, 500u64, 1000u64], vec![0u64, 1u64, 2u64, 3u64]),
        Currency::Eth => (
            vec![20u64, 50u64, 200u64, 500u64, 1000u64, 2000u64, 3000u64, 5000u64],
            vec![0u64, 1u64, 2u64, 3u64, 4u64, 5u64, 6u64, 8u64, 12u64],
        ),
        Currency::Stq => (
            vec![20u64, 50u64, 200u64, 500u64, 1000u64, 2000u64, 3000u64, 4000u64, 5000u64],
            vec![0u64, 1u64, 2u64, 3u64, 4u64, 5u64, 6u64, 7u64, 8u64, 9u64],
        ),
    };
    assert(ts@ =~= thresholds(currency));
    assert(ls@ =~= levels(currency));
    let mut i: usize = 0;
    while i < ts.len()
        invariant
            0 <= i <= ts.len(),
            ts@ == thresholds(currency),
            forall|j: int| 0 <= j < i ==> (ts@[j] as int) < usd_value,
        ensures
            0 <= i <= ts.len(),
            forall|j: int| 0 <= j < i ==> (ts@[j] as int) < usd_value,
            i < ts.len() ==> usd_value <= ts@[i as int],
        decreases ts.len() - i,
    {
        if ts[i] >= usd_value {
            break;
        }
        i = i + 1;
    }
    proof {
        lemma_count_below_sorted(ts@, usd_value as int, i as int);
    }
    ls[i]
}

proof fn lemma_count_below_monotone(ts: Seq<u64>, a: int, b: int)
    requires
        a <= b,
    ensures
        count_below(ts, a) <= count_below(ts, b),
        count_below(ts, b) <= ts.len(),
    decreases ts.len(),
{
    if ts.len() > 0 {
        lemma_count_below_monotone(ts.drop_last(), a, b);
    }
}

/// The dollar value never decreases when the amount grows.
pub proof fn lemma_usd_value_monotone(currency: Currency, x: int, y: int)
    requires
        0 <= x <= y,
    ensures
        usd_value_capped(currency, x) <= usd_value_capped(currency, y),
{
    lemma_mul_inequality(x, y, usd_rate_numerator(currency));
    lemma_div_is_ordered(x * usd_rate_numerator(currency), y * usd_rate_numerator(currency), usd_divisor(currency));
}

/// A transfer worth more never needs fewer confirmations than one worth less
/// in the same currency.
pub proof fn law_confirmations_monotone(currency: Currency, smaller: Amount, larger: Amount)
    requires
        smaller.0 <= larger.0,
    ensures
        confirmations_needed(currency, smaller.0 as int) <= confirmations_needed(currency, larger.0 as int),
{
    let a = usd_value_capped(currency, smaller.0 as int);
    let b = usd_value_capped(currency, larger.0 as int);
    lemma_usd_value_monotone(currency, smaller.0 as int, larger.0 as int);
    lemma_count_below_monotone(thresholds(currency), a, b);
    let ia = count_below(thresholds(currency), a) as int;
    let ib = count_below(thresholds(currency), b) as int;
    assert(levels(currency).len() == thresholds(currency).len() + 1);
    assert(forall|i: int, j: int|
        0 <= i <= j < levels(currency).len() ==> levels(currency)[i] <= levels(currency)[j]);
    assert(levels(currency)[ia] <= levels(currency)[ib]);
}

} // verus!
