use vstd::prelude::*;

use crate::error::PegError;

verus! {

/// Satoshis in one bitcoin.
pub const SATS_PER_BTC: u64 = 100_000_000;

/// Millisatoshis in one satoshi.
pub const MSATS_PER_SAT: u64 = 1000;

/// A native amount in satoshis.
pub type Sats = u64;

/// A native payment amount in millisatoshis.
pub type Msats = u64;

/// A fiat amount in cents; negative values appear only as differences.
pub type Cents = i128;

/// An exchange rate in cents per bitcoin; zero or below means "unknown".
pub type CentsPerBtc = i64;

/// The fiat value of `sats` at `rate`, rounded toward zero.
pub open spec fn fiat_of(sats: int, rate: int) -> int {
    sats * rate / (SATS_PER_BTC as int)
}

/// The native amount worth `cents` at `rate`, rounded toward zero
/// (meaningful for `cents >= 0` and `rate > 0`).
pub open spec fn sats_of(cents: int, rate: int) -> int {
    cents * (SATS_PER_BTC as int) / rate
}

/// The absolute value of an integer.
pub open spec fn abs(x: int) -> int {
    if x < 0 { -x } else { x }
}

/// The fiat value of a native amount.
pub fn to_fiat(native: Sats, rate: CentsPerBtc) -> (r: Result<Cents, PegError>)
    ensures
        rate <= 0 ==> r == Err::<Cents, PegError>(PegError::InvalidRate),
        rate > 0 ==> r == Ok::<Cents, PegError>(fiat_of(native as int, rate as int) as Cents),
        rate > 0 ==> 0 <= fiat_of(native as int, rate as int) <= i128::MAX,
{
    if rate <= 0 {
        return Err(PegError::InvalidRate);
    }
    let n = native as u128;
    let k = rate as u128;
    proof {
        lemma_product_fits(native as int, rate as int);
    }
    let product = n * k;
    let cents = product / (SATS_PER_BTC as u128);
    assert(cents <= product);
    Ok(cents as i128)
}

/// The native amount (in satoshis) that `fiat` buys at `rate`, rounded toward zero.
pub fn to_native_subunit(fiat: Cents, rate: CentsPerBtc) -> (r: Result<Sats, PegError>)
    ensures
        rate <= 0 ==> r == Err::<Sats, PegError>(PegError::InvalidRate),
        rate > 0 && (fiat < 0 || sats_of(fiat as int, rate as int) > u64::MAX) ==> r == Err::<
            Sats,
            PegError,
        >(PegError::AmountOutOfRange),
        rate > 0 && fiat >= 0 && sats_of(fiat as int, rate as int) <= u64::MAX ==> r == Ok::<
            Sats,
            PegError,
        >(sats_of(fiat as int, rate as int) as Sats),
{
    if rate <= 0 {
        return Err(PegError::InvalidRate);
    }
    if fiat < 0 {
        return Err(PegError::AmountOutOfRange);
    }
    let f = fiat as u128;
    let k = rate as u128;
    if f > u128::MAX / (SATS_PER_BTC as u128) {
        proof {
            lemma_huge_fiat_out_of_range(fiat as int, rate as int);
        }
        return Err(PegError::AmountOutOfRange);
    }
    proof {
        lemma_scaled_fits(fiat as int);
    }
    let scaled = f * (SATS_PER_BTC as u128);
    let sats = scaled / k;
    if sats > u64::MAX as u128 {
        return Err(PegError::AmountOutOfRange);
    }
    Ok(sats as u64)
}

/// A satoshi amount in millisatoshis; fails rather than wraps.
pub fn to_msat(native: Sats) -> (r: Result<Msats, PegError>)
    ensures
        native * MSATS_PER_SAT <= u64::MAX ==> r == Ok::<Msats, PegError>(
            (native * MSATS_PER_SAT) as Msats,
        ),
        native * MSATS_PER_SAT > u64::MAX ==> r == Err::<Msats, PegError>(
            PegError::AmountOutOfRange,
        ),
{
    if native > u64::MAX / MSATS_PER_SAT {
        return Err(PegError::AmountOutOfRange);
    }
    Ok(native * MSATS_PER_SAT)
}

/// A fiat amount as a payment amount: whole satoshis at `rate`, scaled
/// exactly to millisatoshis.
pub fn fiat_to_msat(fiat: Cents, rate: CentsPerBtc) -> (r: Result<Msats, PegError>)
    ensures
        rate <= 0 ==> r == Err::<Msats, PegError>(PegError::InvalidRate),
        rate > 0 && fiat >= 0 && sats_of(fiat as int, rate as int) * MSATS_PER_SAT <= u64::MAX
            ==> r == Ok::<Msats, PegError>(
            (sats_of(fiat as int, rate as int) * MSATS_PER_SAT) as Msats,
        ),
        rate > 0 && (fiat < 0 || sats_of(fiat as int, rate as int) * MSATS_PER_SAT > u64::MAX)
            ==> r == Err::<Msats, PegError>(PegError::AmountOutOfRange),
{
    match to_native_subunit(fiat, rate) {
        Ok(sats) => to_msat(sats),
        Err(e) => Err(e),
    }
}

/// Converting a native amount to fiat and back at the same positive rate
/// never gains value, and loses less than one cent's worth plus one satoshi,
/// the rounding of each step; where a cent is worth no more than a satoshi,
/// the loss is at most one satoshi.
pub proof fn lemma_conversion_round_trip(native: Sats, rate: CentsPerBtc)
    requires
        rate > 0,
    ensures
        ({
            let f = fiat_of(native as int, rate as int);
            let back = sats_of(f, rate as int);
            &&& 0 <= f <= i128::MAX
            &&& 0 <= back <= native
            &&& (native - back) * rate < SATS_PER_BTC + rate
            &&& rate >= SATS_PER_BTC ==> native - back <= 1
        }),
{
    lemma_product_fits(native as int, rate as int);
    let n = native as int;
    let r = rate as int;
    let s = SATS_PER_BTC as int;
    let f = fiat_of(n, r);
    let back = sats_of(f, r);
    assert(f * s <= n * r < f * s + s) by (nonlinear_arith)
        requires
            f == n * r / s,
            s > 0,
    ;
    assert(back * r <= f * s < back * r + r) by (nonlinear_arith)
        requires
            back == f * s / r,
            r > 0,
    ;
    assert(0 <= f * s) by (nonlinear_arith)
        requires
            0 <= f,
            s > 0,
    ;
    assert(0 <= back <= n) by (nonlinear_arith)
        requires
            back * r <= f * s,
            f * s <= n * r,
            0 <= f * s,
            back * r + r > f * s,
            r > 0,
    ;
    assert((n - back) * r < s + r) by (nonlinear_arith)
        requires
            f * s + s > n * r,
            back * r + r > f * s,
    ;
    if r >= s {
        assert(n - back <= 1) by (nonlinear_arith)
            requires
                (n - back) * r < s + r,
                r >= s,
                s > 0,
        ;
    }
}

/// A fiat value derived from a native amount at a positive rate is
/// non-negative and fits a `Cents`.
pub proof fn lemma_fiat_in_range(native: int, rate: int)
    requires
        0 <= native <= u64::MAX,
        0 < rate <= i64::MAX,
    ensures
        0 <= fiat_of(native, rate) <= i128::MAX,
{
    lemma_product_fits(native, rate);
}

proof fn lemma_product_fits(n: int, k: int)
    requires
        0 <= n <= u64::MAX,
        0 < k <= i64::MAX,
    ensures
        0 <= n * k <= u128::MAX,
        0 <= fiat_of(n, k) <= i128::MAX,
{
    assert(0 <= n * k <= (u64::MAX as int) * (i64::MAX as int)) by (nonlinear_arith)
        requires
            0 <= n <= u64::MAX,
            0 < k <= i64::MAX,
    ;
    assert((u64::MAX as int) * (i64::MAX as int) <= i128::MAX);
    assert(0 <= (n * k) / (SATS_PER_BTC as int) <= n * k) by (nonlinear_arith)
        requires
            0 <= n * k,
    ;
}

proof fn lemma_scaled_fits(f: int)
    requires
        0 <= f <= (u128::MAX as int) / (SATS_PER_BTC as int),
    ensures
        f * (SATS_PER_BTC as int) <= u128::MAX,
{
    assert(f * (SATS_PER_BTC as int) <= ((u128::MAX as int) / (SATS_PER_BTC as int)) * (
    SATS_PER_BTC as int)) by (nonlinear_arith)
        requires
            0 <= f <= (u128::MAX as int) / (SATS_PER_BTC as int),
    ;
}

proof fn lemma_huge_fiat_out_of_range(f: int, k: int)
    requires
        f > (u128::MAX as int) / (SATS_PER_BTC as int),
        0 < k <= i64::MAX,
    ensures
        sats_of(f, k) > u64::MAX,
{
    let s = SATS_PER_BTC as int;
    let bound = (u128::MAX as int) / s + 1;
    assert(bound * s > u128::MAX);
    assert(f * s >= bound * s) by (nonlinear_arith)
        requires
            f >= bound,
            s > 0,
    ;
    // f * s > 2^128 - 1 >= (u64::MAX + 1) * k, so the quotient exceeds u64::MAX
    assert(((u64::MAX as int) + 1) * (i64::MAX as int) <= u128::MAX);
    assert(((u64::MAX as int) + 1) * k <= ((u64::MAX as int) + 1) * (i64::MAX as int))
        by (nonlinear_arith)
        requires
            0 < k <= i64::MAX,
    ;
    let m = (u64::MAX as int) + 1;
    assert(f * s / k >= m) by (nonlinear_arith)
        requires
            f * s >= m * k,
            k > 0,
    ;
}

} // verus!
