use checksum_engine::engine::{crc16_checksum, crc32_checksum, crc64_checksum};
use checksum_engine::resolver::{Crc16Polynomial, Crc32Polynomial, Crc64Polynomial};

const CHECK_INPUT: &[u8] = b"123456789";

#[test]
fn empty_payload_every_standard() {
    assert_eq!(crc16_checksum(&[], Some(Crc16Polynomial::Usb)), 0x0000);
    assert_eq!(crc16_checksum(&[], Some(Crc16Polynomial::X25)), 0x0000);
    assert_eq!(crc32_checksum(&[], Some(Crc32Polynomial::Ieee)), 0x00000000);
    assert_eq!(crc32_checksum(&[], Some(Crc32Polynomial::Castagnoli)), 0x00000000);
    assert_eq!(crc32_checksum(&[], Some(Crc32Polynomial::Koopman)), 0x00000000);
    assert_eq!(crc64_checksum(&[], Some(Crc64Polynomial::Ecma)), 0x0000000000000000);
    assert_eq!(crc64_checksum(&[], Some(Crc64Polynomial::Iso)), 0x0000000000000000);
}

#[test]
fn usb_check_value() {
    assert_eq!(crc16_checksum(CHECK_INPUT, Some(Crc16Polynomial::Usb)), 0xb4c8);
    let spelled_out: Vec<u8> = vec![0x31, 0x32, 0x33, 0x34, 0x35, 0x36, 0x37, 0x38, 0x39];
    assert_eq!(crc16_checksum(&spelled_out, None), 0xb4c8);
}

#[test]
fn x25_check_value() {
    assert_eq!(crc16_checksum(CHECK_INPUT, Some(Crc16Polynomial::X25)), 0x906e);
}

#[test]
fn ieee_check_value() {
    assert_eq!(crc32_checksum(CHECK_INPUT, Some(Crc32Polynomial::Ieee)), 0xcbf43926);
}

#[test]
fn castagnoli_check_value() {
    assert_eq!(
        crc32_checksum(CHECK_INPUT, Some(Crc32Polynomial::Castagnoli)),
        0xe3069283
    );
}

#[test]
fn koopman_check_value() {
    assert_eq!(
        crc32_checksum(CHECK_INPUT, Some(Crc32Polynomial::Koopman)),
        0x2d3dd0ae
    );
}

#[test]
fn ecma_check_value() {
    assert_eq!(
        crc64_checksum(CHECK_INPUT, Some(Crc64Polynomial::Ecma)),
        0x6c40df5f0b497347
    );
}

#[test]
fn iso_check_value() {
    assert_eq!(
        crc64_checksum(CHECK_INPUT, Some(Crc64Polynomial::Iso)),
        0xb90956c775a41001
    );
}

#[test]
fn omitted_choice_equals_default_standard() {
    let payload = b"checksum engine".as_slice();
    assert_eq!(
        crc16_checksum(payload, None),
        crc16_checksum(payload, Some(Crc16Polynomial::Usb))
    );
    assert_eq!(
        crc32_checksum(payload, None),
        crc32_checksum(payload, Some(Crc32Polynomial::Ieee))
    );
    assert_eq!(
        crc64_checksum(payload, None),
        crc64_checksum(payload, Some(Crc64Polynomial::Iso))
    );
}

#[test]
fn custom_polynomial_runs_default_parameters() {
    // A custom value equal to a default standard's generator polynomial must
    // reproduce that standard exactly, since custom polynomials reuse the
    // default standard's variant parameters.
    let payload = b"123456789".as_slice();
    assert_eq!(
        crc16_checksum(payload, Some(Crc16Polynomial::Custom(0x8005))),
        crc16_checksum(payload, Some(Crc16Polynomial::Usb))
    );
    assert_eq!(
        crc32_checksum(payload, Some(Crc32Polynomial::Custom(0x04c11db7))),
        crc32_checksum(payload, Some(Crc32Polynomial::Ieee))
    );
    assert_eq!(
        crc64_checksum(payload, Some(Crc64Polynomial::Custom(0x1b))),
        crc64_checksum(payload, Some(Crc64Polynomial::Iso))
    );
    // Koopman and X-25 share their width's default variant parameters, so a
    // custom value equal to their generator polynomial reproduces them too.
    assert_eq!(
        crc32_checksum(payload, Some(Crc32Polynomial::Custom(0x741b8cd7))),
        crc32_checksum(payload, Some(Crc32Polynomial::Koopman))
    );
    assert_eq!(
        crc16_checksum(payload, Some(Crc16Polynomial::Custom(0x1021))),
        0x906e
    );
}

#[test]
fn custom_polynomial_differs_from_default() {
    // The polynomial parameter must actually reach the computation.
    let payload = b"123456789".as_slice();
    assert_ne!(
        crc16_checksum(payload, Some(Crc16Polynomial::Custom(0x1021))),
        crc16_checksum(payload, Some(Crc16Polynomial::Usb))
    );
}

#[test]
fn repeated_computation_is_identical() {
    let payload = b"same payload, same polynomial".as_slice();
    assert_eq!(
        crc16_checksum(payload, Some(Crc16Polynomial::Custom(0x3d65))),
        crc16_checksum(payload, Some(Crc16Polynomial::Custom(0x3d65)))
    );
    assert_eq!(crc32_checksum(payload, None), crc32_checksum(payload, None));
    assert_eq!(
        crc64_checksum(payload, Some(Crc64Polynomial::Ecma)),
        crc64_checksum(payload, Some(Crc64Polynomial::Ecma))
    );
}

#[test]
fn all_byte_values_are_accepted() {
    let mut payload = Vec::new();
    for b in 0..=255u8 {
        payload.push(b);
    }
    let first = crc64_checksum(&payload, None);
    let second = crc64_checksum(&payload, None);
    assert_eq!(first, second);
    assert_ne!(first, crc64_checksum(&payload[1..], None));
}
