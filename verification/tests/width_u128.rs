use bigdecimal::num_bigint::BigInt;
use bigdecimal::BigDecimal;
use num_bigint::BigUint;
use sqlx_pg_uint::pg_u128::u128_from_be_bytes;
use sqlx_pg_uint::OptionPgUint;
use sqlx_pg_uint::{Error, PgU128};

#[test]
fn u128_test_to_u128() {
    let pg_u128 = PgU128::from(12678671u128);
    assert_eq!(pg_u128.to_uint(), 12678671u128);
    let pg_u128 = PgU128::from(0);
    assert_eq!(pg_u128.to_uint(), 0u128);
    let pg_u128 = PgU128::from(u128::MAX);
    assert_eq!(pg_u128.to_uint(), u128::MAX);
}

#[test]
fn u128_test_add() {
    let pg_u128 = PgU128::from(12678671u128);
    let pg_u1282 = PgU128::from(12678671u128);
    assert_eq!((pg_u128.add(pg_u1282)).to_uint(), 25357342u128);

    let pg_u128 = PgU128::from(0u128);
    let pg_u1282 = PgU128::from(0u128);
    assert_eq!((pg_u128.add(pg_u1282)).to_uint(), 0u128);
}

#[test]
fn u128_try_from_bigdecimal() {
    let pg_u128 = PgU128::try_from(BigDecimal::from(12678671u128)).unwrap();
    assert_eq!(pg_u128.to_uint(), 12678671u128);

    let pg_u128 = PgU128::try_from(BigDecimal::from(0)).unwrap();
    assert_eq!(pg_u128.to_uint(), 0u128);

    let pg_u128 = PgU128::try_from(BigDecimal::from(u128::MAX)).unwrap();
    assert_eq!(pg_u128.to_uint(), u128::MAX);

    let pg_u128 = PgU128::try_from(BigDecimal::from(-1));
    assert!(pg_u128.is_err());
    let err = pg_u128.unwrap_err();
    assert_eq!(err, Error::InvalidValue(BigDecimal::from(-1)));

    let fractional = BigDecimal::from(3) / BigDecimal::from(2);
    let pg_u128 = PgU128::try_from(fractional.clone());
    assert_eq!(pg_u128.unwrap_err(), Error::Fractional(fractional));

    let big_decimal = BigDecimal::from(BigInt::from(2).pow(128));
    let pg_u128 = PgU128::try_from(big_decimal.clone());
    assert_eq!(pg_u128.unwrap_err(), Error::InvalidValue(big_decimal));
}

#[test]
fn u128_test_option_conversion() {
    let somepguint = Some(PgU128::from(123u128));
    let someuint = somepguint.to_option_uint();
    assert_eq!(someuint, Some(123u128));

    let pguint = PgU128::from(123);
    let someuint = pguint.to_option_uint();
    assert_eq!(someuint, Some(123u128));

    let pguint: Option<PgU128> = None;
    let someuint = pguint.to_option_uint();
    assert_eq!(someuint, None::<u128>);
}

#[test]
fn u128_to_u128_matches_to_uint() {
    let pg_u128 = PgU128::new(987654321u128);
    assert_eq!(pg_u128.to_u128(), 987654321u128);
    assert_eq!(pg_u128.to_u128(), pg_u128.to_uint());
}

#[test]
fn u128_try_from_biguint_in_range() {
    let pg_u128 = PgU128::try_from_biguint(BigUint::from(300u32)).unwrap();
    assert_eq!(pg_u128.to_uint(), 300u128);

    let pg_u128 = PgU128::try_from_biguint(BigUint::from(0u32)).unwrap();
    assert_eq!(pg_u128.to_uint(), 0u128);

    let pg_u128 = PgU128::try_from_biguint(BigUint::from(u128::MAX)).unwrap();
    assert_eq!(pg_u128.to_uint(), u128::MAX);
}

#[test]
fn u128_try_from_biguint_overflow() {
    let too_wide = BigUint::from(2u32).pow(129);
    let pg_u128 = PgU128::try_from_biguint(too_wide);
    assert_eq!(pg_u128.unwrap_err(), Error::Overflow);

    let barely_too_wide = BigUint::from(u128::MAX) + BigUint::from(1u32);
    let pg_u128 = PgU128::try_from_biguint(barely_too_wide);
    assert_eq!(pg_u128.unwrap_err(), Error::Overflow);
}

#[test]
fn u128_from_be_bytes_reads_base_256() {
    assert_eq!(u128_from_be_bytes(&vec![0u8]), Some(0u128));
    assert_eq!(u128_from_be_bytes(&vec![1u8, 0u8]), Some(256u128));
    assert_eq!(u128_from_be_bytes(&vec![0xffu8; 16]), Some(u128::MAX));
    assert_eq!(u128_from_be_bytes(&vec![1u8; 17]), None);
}
