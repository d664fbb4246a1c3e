use bigdecimal::num_bigint::BigInt;
use bigdecimal::BigDecimal;
use sqlx_pg_uint::{Error, PgU16};

#[test]
fn test_to_u16() {
    let pg_u16 = PgU16::from(121u16);
    assert_eq!(pg_u16.to_uint(), 121u16);
    let pg_u16 = PgU16::from(0);
    assert_eq!(pg_u16.to_uint(), 0u16);
    let pg_u16 = PgU16::from(u16::MAX);
    assert_eq!(pg_u16.to_uint(), u16::MAX);
}

#[test]
fn u16_test_add() {
    let pg_u16 = PgU16::from(12u16);
    let pg_u162 = PgU16::from(12u16);
    assert_eq!((pg_u16.add(pg_u162)).to_uint(), 24u16);

    let pg_u16 = PgU16::from(0u16);
    let pg_u162 = PgU16::from(0u16);
    assert_eq!((pg_u16.add(pg_u162)).to_uint(), 0u16);
}

#[test]
fn u16_try_from_bigdecimal() {
    let pg_u16 = PgU16::try_from(BigDecimal::from(126u16)).unwrap();
    assert_eq!(pg_u16.to_uint(), 126u16);

    let pg_u16 = PgU16::try_from(BigDecimal::from(0)).unwrap();
    assert_eq!(pg_u16.to_uint(), 0u16);

    let pg_u16 = PgU16::try_from(BigDecimal::from(u16::MAX)).unwrap();
    assert_eq!(pg_u16.to_uint(), u16::MAX);

    let pg_u16 = PgU16::try_from(BigDecimal::from(-1));
    assert!(pg_u16.is_err());
    let err = pg_u16.unwrap_err();
    assert_eq!(err, Error::InvalidValue(BigDecimal::from(-1)));

    let fractional = BigDecimal::from(3) / BigDecimal::from(2);
    let pg_u16 = PgU16::try_from(fractional.clone());
    assert_eq!(pg_u16.unwrap_err(), Error::Fractional(fractional));

    let big_decimal = BigDecimal::from(BigInt::from(2).pow(128));
    let pg_u16 = PgU16::try_from(big_decimal.clone());
    assert_eq!(pg_u16.unwrap_err(), Error::InvalidValue(big_decimal));
}
