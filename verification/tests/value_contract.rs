use bigdecimal::BigDecimal;
use sqlx_pg_uint::{Error, ParseIntError, PgU32, PgU64, PgU8};
use std::collections::hash_map::DefaultHasher;
use std::hash::{Hash, Hasher};

#[test]
fn renders_plain_base_ten() {
    assert_eq!(PgU64::from(0u64).to_string(), "0");
    assert_eq!(PgU64::from(121u64).to_string(), "121");
    assert_eq!(PgU64::from(u64::MAX).to_string(), "18446744073709551615");
    assert_eq!(PgU8::from(7u8).to_string(), "7");
}

#[test]
fn string_round_trip() {
    for u in [0u64, 1, 9, 10, 121, 65535, u64::MAX] {
        let rendered = PgU64::from(u).to_string();
        assert_eq!(rendered, u.to_string());
        let back = PgU64::from_str(&rendered).unwrap();
        assert_eq!(back.to_uint(), u);
    }
}

#[test]
fn from_str_accepts_plus_and_rejects_junk() {
    assert_eq!(PgU32::from_str("+121").unwrap().to_uint(), 121u32);
    assert_eq!(
        PgU32::from_str("").unwrap_err(),
        Error::ParseInt(ParseIntError::Empty)
    );
    assert_eq!(
        PgU32::from_str("+").unwrap_err(),
        Error::ParseInt(ParseIntError::InvalidDigit)
    );
    assert_eq!(
        PgU32::from_str("12a").unwrap_err(),
        Error::ParseInt(ParseIntError::InvalidDigit)
    );
    assert_eq!(
        PgU32::from_str("-1").unwrap_err(),
        Error::ParseInt(ParseIntError::InvalidDigit)
    );
    assert_eq!(
        PgU32::from_str("4294967296").unwrap_err(),
        Error::ParseInt(ParseIntError::PosOverflow)
    );
    assert_eq!(PgU32::from_str("4294967295").unwrap().to_uint(), u32::MAX);
}

#[test]
fn from_str_matches_std_parse_behavior() {
    for s in ["121", "+121", "0", "007", "4294967295"] {
        assert_eq!(PgU32::from_str(s).unwrap().to_uint(), s.parse::<u32>().unwrap());
    }
    for s in ["", "+", "12a", "-1", " 1", "4294967296"] {
        assert!(PgU32::from_str(s).is_err());
        assert!(s.parse::<u32>().is_err());
    }
}

#[test]
fn default_is_zero() {
    assert_eq!(PgU64::default().to_uint(), 0u64);
    assert_eq!(PgU8::default().to_uint(), 0u8);
}

fn hash_of<T: Hash>(t: &T) -> u64 {
    let mut h = DefaultHasher::new();
    t.hash(&mut h);
    h.finish()
}

#[test]
fn equal_values_hash_equal() {
    let a = PgU64::from(121u64);
    let b = PgU64::new(121u64);
    let c = PgU64::from(122u64);
    assert_eq!(a, b);
    assert_eq!(hash_of(&a), hash_of(&b));
    assert_ne!(a, c);
    assert_eq!(a == b, a.to_uint() == b.to_uint());
    assert_eq!(a == c, a.to_uint() == c.to_uint());
}

#[test]
fn arithmetic_matches_primitive() {
    let a = 67u64;
    let b = 3u64;
    assert_eq!(PgU64::from(a).add(PgU64::from(b)).to_uint(), a + b);
    assert_eq!(PgU64::from(a).sub(PgU64::from(b)).to_uint(), a - b);
    assert_eq!(PgU64::from(a).mul(PgU64::from(b)).to_uint(), a * b);
    assert_eq!(PgU64::from(a).div(PgU64::from(b)).to_uint(), a / b);
    assert_eq!(PgU64::from(a).rem(PgU64::from(b)).to_uint(), a % b);
    assert_eq!(PgU64::from(0u64).rem(PgU64::from(5u64)).to_uint(), 0u64);
}

#[test]
fn assign_ops_match_primitive() {
    let mut v = PgU8::from(12u8);
    v.add_assign(PgU8::from(3u8));
    assert_eq!(v.to_uint(), 15u8);
    v.sub_assign(PgU8::from(5u8));
    assert_eq!(v.to_uint(), 10u8);
    v.mul_assign(PgU8::from(9u8));
    assert_eq!(v.to_uint(), 90u8);
    v.div_assign(PgU8::from(4u8));
    assert_eq!(v.to_uint(), 22u8);
}

#[test]
fn decimal_round_trip() {
    for u in [0u64, 1, 121, u64::MAX] {
        let d = PgU64::from(u).as_big_decimal();
        let back = PgU64::try_from(d).unwrap();
        assert_eq!(back, PgU64::from(u));
        assert_eq!(back.to_uint(), u);
    }
}

#[test]
fn decimal_round_trip_via_bigdecimal_from() {
    for u in [0u64, 121, u64::MAX] {
        let back = PgU64::try_from(BigDecimal::from(u)).unwrap();
        assert_eq!(back, PgU64::from(u));
    }
}

#[test]
fn try_from_accepts_integral_scaled_decimal() {
    // 1.00 denotes the integer 1, whatever its stored scale
    let scaled = BigDecimal::new(100.into(), 2);
    assert_eq!(scaled.to_string(), "1.00");
    let lifted = PgU8::try_from(scaled).unwrap();
    assert_eq!(lifted.to_uint(), 1u8);

    // 1e3 denotes the integer 1000
    let exponent = BigDecimal::new(1.into(), -3);
    let lifted = PgU32::try_from(exponent).unwrap();
    assert_eq!(lifted.to_uint(), 1000u32);
}

#[test]
fn try_from_boundary_values() {
    let top = BigDecimal::from(u8::MAX);
    assert_eq!(PgU8::try_from(top).unwrap().to_uint(), 255u8);

    let above = BigDecimal::from(256u16);
    assert_eq!(
        PgU8::try_from(above.clone()).unwrap_err(),
        Error::InvalidValue(above)
    );

    let below = BigDecimal::from(-1);
    assert_eq!(
        PgU8::try_from(below.clone()).unwrap_err(),
        Error::InvalidValue(below)
    );

    let half = BigDecimal::from(3) / BigDecimal::from(2);
    assert_eq!(
        PgU32::try_from(half.clone()).unwrap_err(),
        Error::Fractional(half)
    );
}

#[test]
fn try_from_tiny_fraction_rejected() {
    // 0.0000000001 is far below one but still fractional
    let tiny = BigDecimal::new(1.into(), 10);
    assert_eq!(
        PgU64::try_from(tiny.clone()).unwrap_err(),
        Error::Fractional(tiny)
    );

    // -1.5 is fractional before it is negative
    let negative_half = BigDecimal::from(-3) / BigDecimal::from(2);
    assert_eq!(
        PgU64::try_from(negative_half.clone()).unwrap_err(),
        Error::Fractional(negative_half)
    );
}
