use stable_channels::error::PegError;
use stable_channels::money::{fiat_to_msat, to_fiat, to_msat, to_native_subunit, SATS_PER_BTC};

#[test]
fn to_fiat_converts_at_rate() {
    // 25,000 sats at $50,000 per bitcoin are worth $12.50
    assert_eq!(to_fiat(25_000, 5_000_000), Ok(1250));
    assert_eq!(to_fiat(0, 5_000_000), Ok(0));
    assert_eq!(to_fiat(SATS_PER_BTC, 1), Ok(1));
}

#[test]
fn to_fiat_rounds_toward_zero() {
    // 1 sat at $50,000 is 0.05 cents
    assert_eq!(to_fiat(1, 5_000_000), Ok(0));
    assert_eq!(to_fiat(39, 5_000_000), Ok(1));
}

#[test]
fn to_fiat_refuses_rate_without_value() {
    assert_eq!(to_fiat(1000, 0), Err(PegError::InvalidRate));
    assert_eq!(to_fiat(1000, -5), Err(PegError::InvalidRate));
}

#[test]
fn to_fiat_largest_amounts_do_not_overflow() {
    let r = to_fiat(u64::MAX, i64::MAX).unwrap();
    assert_eq!(r, (u64::MAX as i128) * (i64::MAX as i128) / 100_000_000);
}

#[test]
fn to_native_subunit_converts_at_rate() {
    // $2.50 at $50,000 per bitcoin buys 5,000 sats
    assert_eq!(to_native_subunit(250, 5_000_000), Ok(5000));
    assert_eq!(to_native_subunit(0, 5_000_000), Ok(0));
}

#[test]
fn to_native_subunit_rounds_toward_zero() {
    assert_eq!(to_native_subunit(1, 3), Ok(33_333_333));
    assert_eq!(to_native_subunit(1, 200_000_000), Ok(0));
}

#[test]
fn to_native_subunit_errors() {
    assert_eq!(to_native_subunit(100, 0), Err(PegError::InvalidRate));
    assert_eq!(to_native_subunit(100, -1), Err(PegError::InvalidRate));
    assert_eq!(to_native_subunit(-1, 5_000_000), Err(PegError::AmountOutOfRange));
    assert_eq!(to_native_subunit(i128::MAX, 1), Err(PegError::AmountOutOfRange));
    // just past the largest native amount
    let limit = (u64::MAX as i128) + 1;
    assert_eq!(to_native_subunit(limit, SATS_PER_BTC as i64), Err(PegError::AmountOutOfRange));
    assert_eq!(to_native_subunit(limit - 1, SATS_PER_BTC as i64), Ok(u64::MAX));
}

#[test]
fn to_msat_multiplies_exactly() {
    assert_eq!(to_msat(5000), Ok(5_000_000));
    assert_eq!(to_msat(0), Ok(0));
    assert_eq!(to_msat(u64::MAX / 1000), Ok((u64::MAX / 1000) * 1000));
}

#[test]
fn to_msat_fails_rather_than_wraps() {
    assert_eq!(to_msat(u64::MAX / 1000 + 1), Err(PegError::AmountOutOfRange));
    assert_eq!(to_msat(u64::MAX), Err(PegError::AmountOutOfRange));
}

#[test]
fn conversion_round_trip_stays_within_rounding() {
    let n: u64 = 123_456_789;
    let r: i64 = 5_000_000;
    let f = to_fiat(n, r).unwrap();
    assert_eq!(f, 6_172_839);
    let back = to_native_subunit(f, r).unwrap();
    assert_eq!(back, 123_456_780);
    assert!(back <= n);
    assert!(((n - back) as i128) * (r as i128) < (SATS_PER_BTC as i128) + (r as i128));
}

#[test]
fn conversion_round_trip_within_one_sat_at_fine_rates() {
    let r: i64 = 200_000_000;
    for n in [0u64, 1, 2, 3, 999, 123_456_789, 2_100_000_000_000_000] {
        let back = to_native_subunit(to_fiat(n, r).unwrap(), r).unwrap();
        assert!(back <= n && n - back <= 1);
    }
}

#[test]
fn fiat_to_msat_goes_through_whole_sats() {
    // $8.00 at $50,000 per bitcoin: 16,000 sats
    assert_eq!(fiat_to_msat(800, 5_000_000), Ok(16_000_000));
    // 1 cent at $30,000 is 33.3 sats: the fraction is dropped before scaling
    assert_eq!(fiat_to_msat(1, 3_000_000), Ok(33_000));
    assert_eq!(fiat_to_msat(800, 0), Err(PegError::InvalidRate));
    assert_eq!(fiat_to_msat(-1, 5_000_000), Err(PegError::AmountOutOfRange));
    assert_eq!(fiat_to_msat(i128::MAX / 2, 1), Err(PegError::AmountOutOfRange));
}
