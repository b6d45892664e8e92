//! Polynomial resolution: a token is matched case-sensitively against the
//! width's recognized standard names, else parsed as an unsigned decimal
//! polynomial value fitting the width, else refused.

use vstd::prelude::*;
use vstd::string::StrSliceExecFns;
use crate::decimal::{is_dec_string, dec_val, is_digit_char, parse_dec_u64};

verus! {

/// The one failure of the engine: a polynomial token that is neither a
/// recognized standard name nor a decimal value fitting the width.
#[derive(Clone, Copy, Debug, PartialEq, Eq, Structural)]
pub struct PolynomialValidationError;

impl PolynomialValidationError {
    /// The human-readable reason carried by every validation failure.
    pub fn message(&self) -> (r: &'static str)
        ensures
            r@ == "unknown polynomial"@,
    {
        "unknown polynomial"
    }
}

/// A width-16 polynomial choice: a recognized standard or a custom value.
#[derive(Clone, Copy, Debug, PartialEq, Eq, Structural)]
pub enum Crc16Polynomial {
    X25,
    Usb,
    Custom(u16),
}

/// A width-32 polynomial choice: a recognized standard or a custom value.
#[derive(Clone, Copy, Debug, PartialEq, Eq, Structural)]
pub enum Crc32Polynomial {
    Ieee,
    Castagnoli,
    Koopman,
    Custom(u32),
}

/// A width-64 polynomial choice: a recognized standard or a custom value.
#[derive(Clone, Copy, Debug, PartialEq, Eq, Structural)]
pub enum Crc64Polynomial {
    Ecma,
    Iso,
    Custom(u64),
}

/// What a width-16 token resolves to, if anything.
pub open spec fn spec_resolve16(s: Seq<char>) -> Option<Crc16Polynomial> {
    if s == "usb"@ {
        Some(Crc16Polynomial::Usb)
    } else if s == "x25"@ {
        Some(Crc16Polynomial::X25)
    } else if is_dec_string(s) && dec_val(s) <= 0xffff {
        Some(Crc16Polynomial::Custom(dec_val(s) as u16))
    } else {
        None
    }
}

/// What a width-32 token resolves to, if anything.
pub open spec fn spec_resolve32(s: Seq<char>) -> Option<Crc32Polynomial> {
    if s == "ieee"@ {
        Some(Crc32Polynomial::Ieee)
    } else if s == "castagnoli"@ {
        Some(Crc32Polynomial::Castagnoli)
    } else if s == "koopman"@ {
        Some(Crc32Polynomial::Koopman)
    } else if is_dec_string(s) && dec_val(s) <= 0xffffffff {
        Some(Crc32Polynomial::Custom(dec_val(s) as u32))
    } else {
        None
    }
}

/// What a width-64 token resolves to, if anything.
pub open spec fn spec_resolve64(s: Seq<char>) -> Option<Crc64Polynomial> {
    if s == "ecma"@ {
        Some(Crc64Polynomial::Ecma)
    } else if s == "iso"@ {
        Some(Crc64Polynomial::Iso)
    } else if is_dec_string(s) && dec_val(s) <= 0xffffffffffffffff {
        Some(Crc64Polynomial::Custom(dec_val(s) as u64))
    } else {
        None
    }
}

/// Case-sensitive equality of a token with a recognized name.
fn matches_name(token: &str, name: &str) -> (r: bool)
    ensures
        r == (token@ == name@),
{
    let tn = token.unicode_len();
    let nn = name.unicode_len();
    if tn != nn {
        return false;
    }
    let mut i: usize = 0;
    while i < tn
        invariant
            tn == token@.len(),
            tn == name@.len(),
            0 <= i <= tn,
            forall|j: int| 0 <= j < i ==> token@[j] == name@[j],
        decreases tn - i,
    {
        let a = token.get_char(i);
        let b = name.get_char(i);
        if a != b {
            assert(token@ != name@) by {
                if token@ == name@ {
                    assert(token@[i as int] == name@[i as int]);
                }
            }
            return false;
        }
        i = i + 1;
    }
    proof {
        assert(token@ =~= name@);
    }
    true
}

impl Crc16Polynomial {
    /// Resolve a width-16 polynomial token.
    pub fn from_value(token: &str) -> (r: Result<Crc16Polynomial, PolynomialValidationError>)
        ensures
            match r {
                Ok(p) => spec_resolve16(token@) == Some(p),
                Err(_) => spec_resolve16(token@) is None,
            },
    {
        if matches_name(token, "usb") {
            Ok(Crc16Polynomial::Usb)
        } else if matches_name(token, "x25") {
            Ok(Crc16Polynomial::X25)
        } else {
            match parse_dec_u64(token, 0xffff) {
                Some(v) => Ok(Crc16Polynomial::Custom(v as u16)),
                None => Err(PolynomialValidationError),
            }
        }
    }
}

impl Crc32Polynomial {
    /// Resolve a width-32 polynomial token.
    pub fn from_value(token: &str) -> (r: Result<Crc32Polynomial, PolynomialValidationError>)
        ensures
            match r {
                Ok(p) => spec_resolve32(token@) == Some(p),
                Err(_) => spec_resolve32(token@) is None,
            },
    {
        if matches_name(token, "ieee") {
            Ok(Crc32Polynomial::Ieee)
        } else if matches_name(token, "castagnoli") {
            Ok(Crc32Polynomial::Castagnoli)
        } else if matches_name(token, "koopman") {
            Ok(Crc32Polynomial::Koopman)
        } else {
            match parse_dec_u64(token, 0xffffffff) {
                Some(v) => Ok(Crc32Polynomial::Custom(v as u32)),
                None => Err(PolynomialValidationError),
            }
        }
    }
}

impl Crc64Polynomial {
    /// Resolve a width-64 polynomial token.
    pub fn from_value(token: &str) -> (r: Result<Crc64Polynomial, PolynomialValidationError>)
        ensures
            match r {
                Ok(p) => spec_resolve64(token@) == Some(p),
                Err(_) => spec_resolve64(token@) is None,
            },
    {
        if matches_name(token, "ecma") {
            Ok(Crc64Polynomial::Ecma)
        } else if matches_name(token, "iso") {
            Ok(Crc64Polynomial::Iso)
        } else {
            match parse_dec_u64(token, 0xffffffffffffffff) {
                Some(v) => Ok(Crc64Polynomial::Custom(v)),
                None => Err(PolynomialValidationError),
            }
        }
    }
}

/// Every recognized width-16 standard name resolves to its standard.
pub proof fn lemma_resolve16_names()
    ensures
        spec_resolve16("usb"@) == Some(Crc16Polynomial::Usb),
        spec_resolve16("x25"@) == Some(Crc16Polynomial::X25),
{
    reveal_strlit("usb");
    reveal_strlit("x25");
    assert("x25"@ != "usb"@) by {
        if "x25"@ == "usb"@ {
            assert("x25"@[0] == "usb"@[0]);
        }
    }
}

/// Every recognized width-32 standard name resolves to its standard.
pub proof fn lemma_resolve32_names()
    ensures
        spec_resolve32("ieee"@) == Some(Crc32Polynomial::Ieee),
        spec_resolve32("castagnoli"@) == Some(Crc32Polynomial::Castagnoli),
        spec_resolve32("koopman"@) == Some(Crc32Polynomial::Koopman),
{
    reveal_strlit("ieee");
    reveal_strlit("castagnoli");
    reveal_strlit("koopman");
    assert("castagnoli"@ != "ieee"@) by {
        if "castagnoli"@ == "ieee"@ {
            assert("castagnoli"@.len() == "ieee"@.len());
        }
    }
    assert("koopman"@ != "ieee"@) by {
        if "koopman"@ == "ieee"@ {
            assert("koopman"@.len() == "ieee"@.len());
        }
    }
    assert("koopman"@ != "castagnoli"@) by {
        if "koopman"@ == "castagnoli"@ {
            assert("koopman"@.len() == "castagnoli"@.len());
        }
    }
}

/// Every recognized width-64 standard name resolves to its standard.
pub proof fn lemma_resolve64_names()
    ensures
        spec_resolve64("ecma"@) == Some(Crc64Polynomial::Ecma),
        spec_resolve64("iso"@) == Some(Crc64Polynomial::Iso),
{
    reveal_strlit("ecma");
    reveal_strlit("iso");
    assert("iso"@ != "ecma"@) by {
        if "iso"@ == "ecma"@ {
            assert("iso"@.len() == "ecma"@.len());
        }
    }
}

/// A decimal token is never a recognized name: it resolves to the custom
/// polynomial it denotes exactly when its value fits the width.
pub proof fn lemma_resolve16_decimal(s: Seq<char>)
    requires
        is_dec_string(s),
    ensures
        spec_resolve16(s) == if dec_val(s) <= 0xffff {
            Some(Crc16Polynomial::Custom(dec_val(s) as u16))
        } else {
            None::<Crc16Polynomial>
        },
{
    reveal_strlit("usb");
    reveal_strlit("x25");
    lemma_dec_string_is_no_name(s, "usb");
    lemma_dec_string_is_no_name(s, "x25");
}

/// A decimal token is never a recognized name: it resolves to the custom
/// polynomial it denotes exactly when its value fits the width.
pub proof fn lemma_resolve32_decimal(s: Seq<char>)
    requires
        is_dec_string(s),
    ensures
        spec_resolve32(s) == if dec_val(s) <= 0xffffffff {
            Some(Crc32Polynomial::Custom(dec_val(s) as u32))
        } else {
            None::<Crc32Polynomial>
        },
{
    reveal_strlit("ieee");
    reveal_strlit("castagnoli");
    reveal_strlit("koopman");
    lemma_dec_string_is_no_name(s, "ieee");
    lemma_dec_string_is_no_name(s, "castagnoli");
    lemma_dec_string_is_no_name(s, "koopman");
}

/// A decimal token is never a recognized name: it resolves to the custom
/// polynomial it denotes exactly when its value fits the width.
pub proof fn lemma_resolve64_decimal(s: Seq<char>)
    requires
        is_dec_string(s),
    ensures
        spec_resolve64(s) == if dec_val(s) <= 0xffffffffffffffff {
            Some(Crc64Polynomial::Custom(dec_val(s) as u64))
        } else {
            None::<Crc64Polynomial>
        },
{
    reveal_strlit("ecma");
    reveal_strlit("iso");
    lemma_dec_string_is_no_name(s, "ecma");
    lemma_dec_string_is_no_name(s, "iso");
}

/// An all-digit string differs from every recognized name, whose first
/// character is a letter.
proof fn lemma_dec_string_is_no_name(s: Seq<char>, name: &str)
    requires
        is_dec_string(s),
        name@.len() > 0,
        !is_digit_char(name@[0]),
    ensures
        s != name@,
{
    if s == name@ {
        assert(s[0] == name@[0]);
        assert(is_digit_char(s[0]));
    }
}

} // verus!
