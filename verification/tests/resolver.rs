use checksum_engine::resolver::{Crc16Polynomial, Crc32Polynomial, Crc64Polynomial};

#[test]
fn resolve16_named_standards() {
    assert_eq!(Crc16Polynomial::from_value("usb"), Ok(Crc16Polynomial::Usb));
    assert_eq!(Crc16Polynomial::from_value("x25"), Ok(Crc16Polynomial::X25));
}

#[test]
fn resolve32_named_standards() {
    assert_eq!(Crc32Polynomial::from_value("ieee"), Ok(Crc32Polynomial::Ieee));
    assert_eq!(
        Crc32Polynomial::from_value("castagnoli"),
        Ok(Crc32Polynomial::Castagnoli)
    );
    assert_eq!(
        Crc32Polynomial::from_value("koopman"),
        Ok(Crc32Polynomial::Koopman)
    );
}

#[test]
fn resolve64_named_standards() {
    assert_eq!(Crc64Polynomial::from_value("ecma"), Ok(Crc64Polynomial::Ecma));
    assert_eq!(Crc64Polynomial::from_value("iso"), Ok(Crc64Polynomial::Iso));
}

#[test]
fn resolve_names_are_case_sensitive() {
    assert!(Crc16Polynomial::from_value("USB").is_err());
    assert!(Crc32Polynomial::from_value("Ieee").is_err());
    assert!(Crc64Polynomial::from_value("ISO").is_err());
}

#[test]
fn resolve16_decimal_in_range() {
    assert_eq!(Crc16Polynomial::from_value("0"), Ok(Crc16Polynomial::Custom(0)));
    assert_eq!(Crc16Polynomial::from_value("32773"), Ok(Crc16Polynomial::Custom(0x8005)));
    assert_eq!(
        Crc16Polynomial::from_value("65535"),
        Ok(Crc16Polynomial::Custom(u16::MAX))
    );
    assert_eq!(
        Crc16Polynomial::from_value("0000065535"),
        Ok(Crc16Polynomial::Custom(u16::MAX))
    );
}

#[test]
fn resolve16_decimal_out_of_range() {
    assert!(Crc16Polynomial::from_value("65536").is_err());
    assert!(Crc16Polynomial::from_value("99999999").is_err());
}

#[test]
fn resolve16_invalid_tokens() {
    assert!(Crc16Polynomial::from_value("not-a-number").is_err());
    assert!(Crc16Polynomial::from_value("").is_err());
    assert!(Crc16Polynomial::from_value("+5").is_err());
    assert!(Crc16Polynomial::from_value("-5").is_err());
    assert!(Crc16Polynomial::from_value("12a").is_err());
    assert!(Crc16Polynomial::from_value(" 12").is_err());
    assert!(Crc16Polynomial::from_value("0x12").is_err());
}

#[test]
fn resolve32_decimal_bounds() {
    assert_eq!(
        Crc32Polynomial::from_value("4294967295"),
        Ok(Crc32Polynomial::Custom(u32::MAX))
    );
    assert!(Crc32Polynomial::from_value("4294967296").is_err());
    assert!(Crc32Polynomial::from_value("zzz").is_err());
}

#[test]
fn resolve64_decimal_bounds() {
    assert_eq!(
        Crc64Polynomial::from_value("18446744073709551615"),
        Ok(Crc64Polynomial::Custom(u64::MAX))
    );
    assert!(Crc64Polynomial::from_value("18446744073709551616").is_err());
    assert!(Crc64Polynomial::from_value("99999999999999999999999999").is_err());
}

#[test]
fn validation_error_message() {
    let e = Crc16Polynomial::from_value("not-a-number").unwrap_err();
    assert_eq!(e.message(), "unknown polynomial");
}
