//! The digest computer: table-driven CRC over a byte payload, parameterized
//! by the generator polynomial and the variant parameters (initial value,
//! input and output reflection, final XOR) of the chosen standard. The
//! reduction itself is the `crc` crate's; each width's call stands behind one
//! trusted wrapper whose result is named by an uninterpreted spec function.

use vstd::prelude::*;
use crate::decimal::{response_chars, format_response};
use crate::resolver::{
    Crc16Polynomial, Crc32Polynomial, Crc64Polynomial, PolynomialValidationError, spec_resolve16,
    spec_resolve32, spec_resolve64,
};

verus! {

// Generator polynomials of the recognized standards, in their published
// normal (most significant bit first) representation.
pub const CRC16_USB_POLY: u16 = 0x8005;

pub const CRC16_X25_POLY: u16 = 0x1021;

pub const CRC32_IEEE_POLY: u32 = 0x04c11db7;

pub const CRC32_CASTAGNOLI_POLY: u32 = 0x1edc6f41;

pub const CRC32_KOOPMAN_POLY: u32 = 0x741b8cd7;

pub const CRC64_ECMA_POLY: u64 = 0x42f0e1eba9ea3693;

pub const CRC64_ISO_POLY: u64 = 0x000000000000001b;

/// What `crc::Crc::<u16>::checksum` returns for the given generator
/// polynomial, initial value, input and output reflection, final XOR, and
/// payload: a function of these arguments alone.
pub uninterp spec fn crc16_of(
    poly: u16,
    init: u16,
    refin: bool,
    refout: bool,
    xorout: u16,
    data: Seq<u8>,
) -> u16;

/// What `crc::Crc::<u32>::checksum` returns for the given generator
/// polynomial, initial value, input and output reflection, final XOR, and
/// payload: a function of these arguments alone.
pub uninterp spec fn crc32_of(
    poly: u32,
    init: u32,
    refin: bool,
    refout: bool,
    xorout: u32,
    data: Seq<u8>,
) -> u32;

/// What `crc::Crc::<u64>::checksum` returns for the given generator
/// polynomial, initial value, input and output reflection, final XOR, and
/// payload: a function of these arguments alone.
pub uninterp spec fn crc64_of(
    poly: u64,
    init: u64,
    refin: bool,
    refout: bool,
    xorout: u64,
    data: Seq<u8>,
) -> u64;

/// Relies on `crc::Crc::<u16>::new` and `crc::Crc::<u16>::checksum`: with
/// `width` equal to the full 16 bits, the checksum is computed from the
/// algorithm parameters and the bytes alone, with no other input and no
/// failure. The `check` and `residue` fields are catalog metadata that the
/// computation never reads; the small algorithm descriptor is leaked to meet
/// the constructor's `'static` bound.
#[verifier::external_body]
fn crc16_call(poly: u16, init: u16, refin: bool, refout: bool, xorout: u16, data: &[u8]) -> (r:
    u16)
    ensures
        r == crc16_of(poly, init, refin, refout, xorout, data@),
{
    let algorithm = Box::leak(
        Box::new(
            crc::Algorithm { width: 16, poly, init, refin, refout, xorout, check: 0, residue: 0 },
        ),
    );
    crc::Crc::<u16>::new(algorithm).checksum(data)
}

/// Relies on `crc::Crc::<u32>::new` and `crc::Crc::<u32>::checksum`: with
/// `width` equal to the full 32 bits, the checksum is computed from the
/// algorithm parameters and the bytes alone, with no other input and no
/// failure. The `check` and `residue` fields are catalog metadata that the
/// computation never reads; the small algorithm descriptor is leaked to meet
/// the constructor's `'static` bound.
#[verifier::external_body]
fn crc32_call(poly: u32, init: u32, refin: bool, refout: bool, xorout: u32, data: &[u8]) -> (r:
    u32)
    ensures
        r == crc32_of(poly, init, refin, refout, xorout, data@),
{
    let algorithm = Box::leak(
        Box::new(
            crc::Algorithm { width: 32, poly, init, refin, refout, xorout, check: 0, residue: 0 },
        ),
    );
    crc::Crc::<u32>::new(algorithm).checksum(data)
}

/// Relies on `crc::Crc::<u64>::new` and `crc::Crc::<u64>::checksum`: with
/// `width` equal to the full 64 bits, the checksum is computed from the
/// algorithm parameters and the bytes alone, with no other input and no
/// failure. The `check` and `residue` fields are catalog metadata that the
/// computation never reads; the small algorithm descriptor is leaked to meet
/// the constructor's `'static` bound.
#[verifier::external_body]
fn crc64_call(poly: u64, init: u64, refin: bool, refout: bool, xorout: u64, data: &[u8]) -> (r:
    u64)
    ensures
        r == crc64_of(poly, init, refin, refout, xorout, data@),
{
    let algorithm = Box::leak(
        Box::new(
            crc::Algorithm { width: 64, poly, init, refin, refout, xorout, check: 0, residue: 0 },
        ),
    );
    crc::Crc::<u64>::new(algorithm).checksum(data)
}

/// The checksum a width-16 request denotes. Each recognized standard carries
/// its published parameters; a custom polynomial runs under the default
/// standard's (USB's) parameters; omitting the choice means the default
/// standard.
pub open spec fn crc16_result(polynomial: Option<Crc16Polynomial>, data: Seq<u8>) -> u16 {
    match polynomial {
        Some(Crc16Polynomial::X25) => crc16_of(CRC16_X25_POLY, 0xffff, true, true, 0xffff, data),
        Some(Crc16Polynomial::Usb) => crc16_of(CRC16_USB_POLY, 0xffff, true, true, 0xffff, data),
        Some(Crc16Polynomial::Custom(v)) => crc16_of(v, 0xffff, true, true, 0xffff, data),
        None => crc16_of(CRC16_USB_POLY, 0xffff, true, true, 0xffff, data),
    }
}

/// The checksum a width-32 request denotes, as `crc16_result` for width 16.
pub open spec fn crc32_result(polynomial: Option<Crc32Polynomial>, data: Seq<u8>) -> u32 {
    match polynomial {
        Some(Crc32Polynomial::Ieee) => crc32_of(
            CRC32_IEEE_POLY,
            0xffffffff,
            true,
            true,
            0xffffffff,
            data,
        ),
        Some(Crc32Polynomial::Castagnoli) => crc32_of(
            CRC32_CASTAGNOLI_POLY,
            0xffffffff,
            true,
            true,
            0xffffffff,
            data,
        ),
        Some(Crc32Polynomial::Koopman) => crc32_of(
            CRC32_KOOPMAN_POLY,
            0xffffffff,
            true,
            true,
            0xffffffff,
            data,
        ),
        Some(Crc32Polynomial::Custom(v)) => crc32_of(v, 0xffffffff, true, true, 0xffffffff, data),
        None => crc32_of(CRC32_IEEE_POLY, 0xffffffff, true, true, 0xffffffff, data),
    }
}

/// The checksum a width-64 request denotes, as `crc16_result` for width 16.
/// ECMA-182 is the one recognized standard that is not bit-reflected and
/// starts from zero; the default standard is ISO.
pub open spec fn crc64_result(polynomial: Option<Crc64Polynomial>, data: Seq<u8>) -> u64 {
    match polynomial {
        Some(Crc64Polynomial::Ecma) => crc64_of(CRC64_ECMA_POLY, 0, false, false, 0, data),
        Some(Crc64Polynomial::Iso) => crc64_of(
            CRC64_ISO_POLY,
            0xffffffffffffffff,
            true,
            true,
            0xffffffffffffffff,
            data,
        ),
        Some(Crc64Polynomial::Custom(v)) => crc64_of(
            v,
            0xffffffffffffffff,
            true,
            true,
            0xffffffffffffffff,
            data,
        ),
        None => crc64_of(CRC64_ISO_POLY, 0xffffffffffffffff, true, true, 0xffffffffffffffff, data),
    }
}

/// Compute the 16-bit checksum of a payload under the chosen polynomial, or
/// under the default standard when no choice was supplied.
pub fn crc16_checksum(payload: &[u8], polynomial: Option<Crc16Polynomial>) -> (r: u16)
    ensures
        r == crc16_result(polynomial, payload@),
{
    match polynomial {
        Some(Crc16Polynomial::X25) => crc16_call(CRC16_X25_POLY, 0xffff, true, true, 0xffff, payload),
        Some(Crc16Polynomial::Usb) => crc16_call(CRC16_USB_POLY, 0xffff, true, true, 0xffff, payload),
        Some(Crc16Polynomial::Custom(v)) => crc16_call(v, 0xffff, true, true, 0xffff, payload),
        None => crc16_call(CRC16_USB_POLY, 0xffff, true, true, 0xffff, payload),
    }
}

/// Compute the 32-bit checksum of a payload under the chosen polynomial, or
/// under the default standard when no choice was supplied.
pub fn crc32_checksum(payload: &[u8], polynomial: Option<Crc32Polynomial>) -> (r: u32)
    ensures
        r == crc32_result(polynomial, payload@),
{
    match polynomial {
        Some(Crc32Polynomial::Ieee) => crc32_call(
            CRC32_IEEE_POLY,
            0xffffffff,
            true,
            true,
            0xffffffff,
            payload,
        ),
        Some(Crc32Polynomial::Castagnoli) => crc32_call(
            CRC32_CASTAGNOLI_POLY,
            0xffffffff,
            true,
            true,
            0xffffffff,
            payload,
        ),
        Some(Crc32Polynomial::Koopman) => crc32_call(
            CRC32_KOOPMAN_POLY,
            0xffffffff,
            true,
            true,
            0xffffffff,
            payload,
        ),
        Some(Crc32Polynomial::Custom(v)) => crc32_call(
            v,
            0xffffffff,
            true,
            true,
            0xffffffff,
            payload,
        ),
        None => crc32_call(CRC32_IEEE_POLY, 0xffffffff, true, true, 0xffffffff, payload),
    }
}

/// Compute the 64-bit checksum of a payload under the chosen polynomial, or
/// under the default standard when no choice was supplied.
pub fn crc64_checksum(payload: &[u8], polynomial: Option<Crc64Polynomial>) -> (r: u64)
    ensures
        r == crc64_result(polynomial, payload@),
{
    match polynomial {
        Some(Crc64Polynomial::Ecma) => crc64_call(CRC64_ECMA_POLY, 0, false, false, 0, payload),
        Some(Crc64Polynomial::Iso) => crc64_call(
            CRC64_ISO_POLY,
            0xffffffffffffffff,
            true,
            true,
            0xffffffffffffffff,
            payload,
        ),
        Some(Crc64Polynomial::Custom(v)) => crc64_call(
            v,
            0xffffffffffffffff,
            true,
            true,
            0xffffffffffffffff,
            payload,
        ),
        None => crc64_call(
            CRC64_ISO_POLY,
            0xffffffffffffffff,
            true,
            true,
            0xffffffffffffffff,
            payload,
        ),
    }
}

/// Compute the 16-bit checksum and format it as a decimal response line.
pub fn crc16_response(payload: &[u8], polynomial: Option<Crc16Polynomial>) -> (r: String)
    ensures
        r@ == response_chars(crc16_result(polynomial, payload@) as nat),
{
    let checksum = crc16_checksum(payload, polynomial);
    format_response(checksum as u64)
}

/// Compute the 32-bit checksum and format it as a decimal response line.
pub fn crc32_response(payload: &[u8], polynomial: Option<Crc32Polynomial>) -> (r: String)
    ensures
        r@ == response_chars(crc32_result(polynomial, payload@) as nat),
{
    let checksum = crc32_checksum(payload, polynomial);
    format_response(checksum as u64)
}

/// Compute the 64-bit checksum and format it as a decimal response line.
pub fn crc64_response(payload: &[u8], polynomial: Option<Crc64Polynomial>) -> (r: String)
    ensures
        r@ == response_chars(crc64_result(polynomial, payload@) as nat),
{
    let checksum = crc64_checksum(payload, polynomial);
    format_response(checksum)
}

/// The view of an optional token.
pub open spec fn token_view(token: Option<&str>) -> Option<Seq<char>> {
    match token {
        None => None,
        Some(t) => Some(t@),
    }
}

/// The response a width-16 request with a raw token earns, if any: `None`
/// exactly when a supplied token fails validation.
pub open spec fn spec_service16(payload: Seq<u8>, token: Option<Seq<char>>) -> Option<Seq<char>> {
    match token {
        None => Some(response_chars(crc16_result(None, payload) as nat)),
        Some(t) => match spec_resolve16(t) {
            Some(p) => Some(response_chars(crc16_result(Some(p), payload) as nat)),
            None => None,
        },
    }
}

/// The response a width-32 request with a raw token earns, if any.
pub open spec fn spec_service32(payload: Seq<u8>, token: Option<Seq<char>>) -> Option<Seq<char>> {
    match token {
        None => Some(response_chars(crc32_result(None, payload) as nat)),
        Some(t) => match spec_resolve32(t) {
            Some(p) => Some(response_chars(crc32_result(Some(p), payload) as nat)),
            None => None,
        },
    }
}

/// The response a width-64 request with a raw token earns, if any.
pub open spec fn spec_service64(payload: Seq<u8>, token: Option<Seq<char>>) -> Option<Seq<char>> {
    match token {
        None => Some(response_chars(crc64_result(None, payload) as nat)),
        Some(t) => match spec_resolve64(t) {
            Some(p) => Some(response_chars(crc64_result(Some(p), payload) as nat)),
            None => None,
        },
    }
}

/// The width-16 operation: resolve the optional token, compute the checksum,
/// format the response line; fail exactly on an unresolvable token.
pub fn crc16_service(payload: &[u8], token: Option<&str>) -> (r: Result<
    String,
    PolynomialValidationError,
>)
    ensures
        match r {
            Ok(s) => spec_service16(payload@, token_view(token)) == Some(s@),
            Err(_) => spec_service16(payload@, token_view(token)) is None,
        },
{
    match token {
        None => Ok(crc16_response(payload, None)),
        Some(t) => match Crc16Polynomial::from_value(t) {
            Ok(p) => Ok(crc16_response(payload, Some(p))),
            Err(e) => Err(e),
        },
    }
}

/// The width-32 operation, as `crc16_service` for width 16.
pub fn crc32_service(payload: &[u8], token: Option<&str>) -> (r: Result<
    String,
    PolynomialValidationError,
>)
    ensures
        match r {
            Ok(s) => spec_service32(payload@, token_view(token)) == Some(s@),
            Err(_) => spec_service32(payload@, token_view(token)) is None,
        },
{
    match token {
        None => Ok(crc32_response(payload, None)),
        Some(t) => match Crc32Polynomial::from_value(t) {
            Ok(p) => Ok(crc32_response(payload, Some(p))),
            Err(e) => Err(e),
        },
    }
}

/// The width-64 operation, as `crc16_service` for width 16.
pub fn crc64_service(payload: &[u8], token: Option<&str>) -> (r: Result<
    String,
    PolynomialValidationError,
>)
    ensures
        match r {
            Ok(s) => spec_service64(payload@, token_view(token)) == Some(s@),
            Err(_) => spec_service64(payload@, token_view(token)) is None,
        },
{
    match token {
        None => Ok(crc64_response(payload, None)),
        Some(t) => match Crc64Polynomial::from_value(t) {
            Ok(p) => Ok(crc64_response(payload, Some(p))),
            Err(e) => Err(e),
        },
    }
}

/// Omitting the width-16 polynomial choice gives the same checksum as naming
/// the default standard, USB.
pub proof fn lemma_crc16_default_is_usb(data: Seq<u8>)
    ensures
        crc16_result(None, data) == crc16_result(Some(Crc16Polynomial::Usb), data),
{
}

/// Omitting the width-32 polynomial choice gives the same checksum as naming
/// the default standard, IEEE.
pub proof fn lemma_crc32_default_is_ieee(data: Seq<u8>)
    ensures
        crc32_result(None, data) == crc32_result(Some(Crc32Polynomial::Ieee), data),
{
}

/// Omitting the width-64 polynomial choice gives the same checksum as naming
/// the default standard, ISO.
pub proof fn lemma_crc64_default_is_iso(data: Seq<u8>)
    ensures
        crc64_result(None, data) == crc64_result(Some(Crc64Polynomial::Iso), data),
{
}

/// The 16-bit checksum is a function of the polynomial choice and the payload
/// alone: any two results of the same request are equal.
pub proof fn lemma_crc16_deterministic(
    polynomial: Option<Crc16Polynomial>,
    data: Seq<u8>,
    r1: u16,
    r2: u16,
)
    requires
        r1 == crc16_result(polynomial, data),
        r2 == crc16_result(polynomial, data),
    ensures
        r1 == r2,
{
}

/// The 32-bit checksum is a function of the polynomial choice and the payload
/// alone: any two results of the same request are equal.
pub proof fn lemma_crc32_deterministic(
    polynomial: Option<Crc32Polynomial>,
    data: Seq<u8>,
    r1: u32,
    r2: u32,
)
    requires
        r1 == crc32_result(polynomial, data),
        r2 == crc32_result(polynomial, data),
    ensures
        r1 == r2,
{
}

/// The 64-bit checksum is a function of the polynomial choice and the payload
/// alone: any two results of the same request are equal.
pub proof fn lemma_crc64_deterministic(
    polynomial: Option<Crc64Polynomial>,
    data: Seq<u8>,
    r1: u64,
    r2: u64,
)
    requires
        r1 == crc64_result(polynomial, data),
        r2 == crc64_result(polynomial, data),
    ensures
        r1 == r2,
{
}

} // verus!
