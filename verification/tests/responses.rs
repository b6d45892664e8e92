use checksum_engine::engine::{
    crc16_response, crc16_service, crc32_response, crc32_service, crc64_response, crc64_service,
};
use checksum_engine::resolver::{Crc16Polynomial, Crc32Polynomial};

const CHECK_INPUT: &[u8] = b"123456789";

#[test]
fn response_is_decimal_with_crlf() {
    assert_eq!(crc16_response(CHECK_INPUT, None), "46280\r\n");
    assert_eq!(
        crc16_response(CHECK_INPUT, Some(Crc16Polynomial::Usb)),
        "46280\r\n"
    );
    assert_eq!(
        crc32_response(CHECK_INPUT, Some(Crc32Polynomial::Castagnoli)),
        "3808858755\r\n"
    );
}

#[test]
fn response_of_empty_payload() {
    assert_eq!(crc16_response(&[], None), "0\r\n");
    assert_eq!(crc32_response(&[], None), "0\r\n");
    assert_eq!(crc64_response(&[], None), "0\r\n");
}

#[test]
fn response_formats_as_standard_decimal() {
    assert_eq!(
        crc64_response(CHECK_INPUT, None),
        format!("{}\r\n", 0xb90956c775a41001u64)
    );
    assert_eq!(
        crc32_response(CHECK_INPUT, None),
        format!("{}\r\n", 0xcbf43926u32)
    );
}

#[test]
fn service_with_token() {
    assert_eq!(
        crc16_service(CHECK_INPUT, Some("usb")),
        Ok(String::from("46280\r\n"))
    );
    assert_eq!(
        crc32_service(CHECK_INPUT, Some("castagnoli")),
        Ok(String::from("3808858755\r\n"))
    );
    assert_eq!(
        crc64_service(CHECK_INPUT, Some("ecma")),
        Ok(format!("{}\r\n", 0x6c40df5f0b497347u64))
    );
}

#[test]
fn service_without_token_uses_default() {
    assert_eq!(
        crc16_service(CHECK_INPUT, None),
        crc16_service(CHECK_INPUT, Some("usb"))
    );
    assert_eq!(
        crc32_service(CHECK_INPUT, None),
        crc32_service(CHECK_INPUT, Some("ieee"))
    );
    assert_eq!(
        crc64_service(CHECK_INPUT, None),
        crc64_service(CHECK_INPUT, Some("iso"))
    );
}

#[test]
fn service_with_custom_token() {
    assert_eq!(
        crc16_service(CHECK_INPUT, Some("32773")),
        Ok(String::from("46280\r\n"))
    );
}

#[test]
fn service_refuses_bad_tokens() {
    let e = crc16_service(CHECK_INPUT, Some("not-a-number")).unwrap_err();
    assert_eq!(e.message(), "unknown polynomial");
    assert!(crc16_service(CHECK_INPUT, Some("99999999")).is_err());
    assert!(crc32_service(CHECK_INPUT, Some("ecma")).is_err());
    assert!(crc64_service(CHECK_INPUT, Some("ieee")).is_err());
}
