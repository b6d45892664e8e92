//! Unsigned decimal text: parsing polynomial tokens and formatting checksum
//! values, together with the spec-level model of decimal notation.

use vstd::prelude::*;
use vstd::string::StrSliceExecFns;
use vstd::string::StringExecFns;

verus! {

/// A decimal digit character, `'0'` through `'9'`.
pub open spec fn is_digit_char(c: char) -> bool {
    48 <= c as int <= 57
}

/// The numeric value of a digit character.
pub open spec fn digit_val(c: char) -> int {
    c as int - 48
}

/// A non-empty string made of decimal digits only.
pub open spec fn is_dec_string(s: Seq<char>) -> bool {
    s.len() > 0 && (forall|i: int| 0 <= i < s.len() ==> is_digit_char(s[i]))
}

/// The number that a digit string denotes, most significant digit first.
pub open spec fn dec_val(s: Seq<char>) -> nat
    decreases s.len(),
{
    if s.len() == 0 {
        0
    } else {
        (dec_val(s.drop_last()) * 10 + digit_val(s.last())) as nat
    }
}

/// The digit character for a value below ten.
pub open spec fn digit_char(d: int) -> char {
    if d == 0 {
        '0'
    } else if d == 1 {
        '1'
    } else if d == 2 {
        '2'
    } else if d == 3 {
        '3'
    } else if d == 4 {
        '4'
    } else if d == 5 {
        '5'
    } else if d == 6 {
        '6'
    } else if d == 7 {
        '7'
    } else if d == 8 {
        '8'
    } else {
        '9'
    }
}

/// The decimal representation of a number, most significant digit first.
pub open spec fn dec_chars(n: nat) -> Seq<char>
    decreases n,
{
    if n < 10 {
        seq![digit_char(n as int)]
    } else {
        dec_chars(n / 10).push(digit_char((n % 10) as int))
    }
}

/// Extending a digit string by one character multiplies its value by ten and
/// adds the new digit.
proof fn lemma_dec_val_take_succ(s: Seq<char>, i: int)
    requires
        0 <= i < s.len(),
        is_digit_char(s[i]),
    ensures
        dec_val(s.take(i + 1)) == dec_val(s.take(i)) * 10 + digit_val(s[i]),
{
    assert(s.take(i + 1).drop_last() =~= s.take(i));
    assert(s.take(i + 1).last() == s[i]);
}

/// On an all-digit string, the value of a prefix never exceeds the value of
/// the whole.
proof fn lemma_dec_val_take_le(s: Seq<char>, i: int)
    requires
        0 <= i <= s.len(),
        forall|j: int| 0 <= j < s.len() ==> is_digit_char(s[j]),
    ensures
        dec_val(s.take(i)) <= dec_val(s),
    decreases s.len() - i,
{
    if i == s.len() {
        assert(s.take(i) =~= s);
    } else {
        lemma_dec_val_take_succ(s, i);
        lemma_dec_val_take_le(s, i + 1);
    }
}

/// The digit characters carry the values they stand for.
proof fn lemma_digit_char_val(d: int)
    requires
        0 <= d <= 9,
    ensures
        is_digit_char(digit_char(d)),
        digit_val(digit_char(d)) == d,
{
    assert('0' as int == 48 && '1' as int == 49 && '2' as int == 50 && '3' as int == 51
        && '4' as int == 52 && '5' as int == 53 && '6' as int == 54 && '7' as int == 55
        && '8' as int == 56 && '9' as int == 57);
}

/// Printing a number and reading the digits back gives the number: the two
/// spec-level views of decimal notation agree.
pub proof fn lemma_dec_chars_round_trip(n: nat)
    ensures
        is_dec_string(dec_chars(n)),
        dec_val(dec_chars(n)) == n,
    decreases n,
{
    if n < 10 {
        lemma_digit_char_val(n as int);
        let s = dec_chars(n);
        assert(s =~= seq![digit_char(n as int)]);
        assert(s.drop_last() =~= Seq::<char>::empty());
        assert(s.last() == digit_char(n as int));
        assert(dec_val(s.drop_last()) == 0);
        assert(dec_val(s) == (0 * 10 + digit_val(digit_char(n as int))) as nat);
    } else {
        lemma_dec_chars_round_trip(n / 10);
        lemma_digit_char_val((n % 10) as int);
        let prefix = dec_chars(n / 10);
        let s = dec_chars(n);
        assert(s =~= prefix.push(digit_char((n % 10) as int)));
        assert(s.drop_last() =~= prefix);
        assert(s.last() == digit_char((n % 10) as int));
        assert(dec_val(s) == (dec_val(prefix) * 10 + digit_val(digit_char((n % 10) as int))) as nat);
        assert(forall|i: int| 0 <= i < s.len() ==> is_digit_char(s[i])) by {
            assert(forall|i: int| 0 <= i < prefix.len() ==> is_digit_char(prefix[i]));
        }
        vstd::arithmetic::div_mod::lemma_fundamental_div_mod(n as int, 10);
    }
}

/// Parse a non-empty all-digit token as an unsigned decimal number, refusing
/// any token whose value exceeds `max` and any token holding a non-digit.
pub fn parse_dec_u64(s: &str, max: u64) -> (r: Option<u64>)
    ensures
        match r {
            Some(v) => is_dec_string(s@) && dec_val(s@) <= max && v == dec_val(s@),
            None => !(is_dec_string(s@) && dec_val(s@) <= max),
        },
{
    let n = s.unicode_len();
    if n == 0 {
        return None;
    }
    let q = max / 10;
    let m = max % 10;
    let mut i: usize = 0;
    let mut val: u64 = 0;
    while i < n
        invariant
            0 < n,
            n == s@.len(),
            0 <= i <= n,
            q == max / 10,
            m == max % 10,
            forall|j: int| 0 <= j < i ==> is_digit_char(s@[j]),
            val == dec_val(s@.take(i as int)),
            val <= max,
        decreases n - i,
    {
        let c = s.get_char(i);
        let u = c as u32;
        if u < 48 || u > 57 {
            assert(!is_digit_char(s@[i as int]));
            return None;
        }
        assert(is_digit_char(s@[i as int]));
        let d = (u - 48) as u64;
        assert(d == digit_val(s@[i as int]));
        proof {
            vstd::arithmetic::div_mod::lemma_fundamental_div_mod(max as int, 10);
            lemma_dec_val_take_succ(s@, i as int);
        }
        if val > q || (val == q && d > m) {
            proof {
                if is_dec_string(s@) {
                    lemma_dec_val_take_le(s@, i as int + 1);
                }
            }
            return None;
        }
        assert(val * 10 + d <= max);
        val = val * 10 + d;
        i = i + 1;
    }
    proof {
        assert(s@.take(n as int) =~= s@);
    }
    Some(val)
}

/// Append one decimal digit character to a string.
fn push_digit(s: &mut String, d: u64)
    requires
        d < 10,
    ensures
        final(s)@ == old(s)@.push(digit_char(d as int)),
{
    if d == 0 {
        s.append("0");
        proof {
            reveal_strlit("0");
            assert(old(s)@ + "0"@ =~= old(s)@.push(digit_char(d as int)));
        }
    } else if d == 1 {
        s.append("1");
        proof {
            reveal_strlit("1");
            assert(old(s)@ + "1"@ =~= old(s)@.push(digit_char(d as int)));
        }
    } else if d == 2 {
        s.append("2");
        proof {
            reveal_strlit("2");
            assert(old(s)@ + "2"@ =~= old(s)@.push(digit_char(d as int)));
        }
    } else if d == 3 {
        s.append("3");
        proof {
            reveal_strlit("3");
            assert(old(s)@ + "3"@ =~= old(s)@.push(digit_char(d as int)));
        }
    } else if d == 4 {
        s.append("4");
        proof {
            reveal_strlit("4");
            assert(old(s)@ + "4"@ =~= old(s)@.push(digit_char(d as int)));
        }
    } else if d == 5 {
        s.append("5");
        proof {
            reveal_strlit("5");
            assert(old(s)@ + "5"@ =~= old(s)@.push(digit_char(d as int)));
        }
    } else if d == 6 {
        s.append("6");
        proof {
            reveal_strlit("6");
            assert(old(s)@ + "6"@ =~= old(s)@.push(digit_char(d as int)));
        }
    } else if d == 7 {
        s.append("7");
        proof {
            reveal_strlit("7");
            assert(old(s)@ + "7"@ =~= old(s)@.push(digit_char(d as int)));
        }
    } else if d == 8 {
        s.append("8");
        proof {
            reveal_strlit("8");
            assert(old(s)@ + "8"@ =~= old(s)@.push(digit_char(d as int)));
        }
    } else {
        s.append("9");
        proof {
            reveal_strlit("9");
            assert(old(s)@ + "9"@ =~= old(s)@.push(digit_char(d as int)));
        }
    }
}

/// Append the decimal representation of a number to a string.
fn push_dec_u64(s: &mut String, n: u64)
    ensures
        final(s)@ == old(s)@ + dec_chars(n as nat),
    decreases n,
{
    if n < 10 {
        push_digit(s, n);
        proof {
            assert(old(s)@.push(digit_char(n as int)) =~= old(s)@ + dec_chars(n as nat));
        }
    } else {
        push_dec_u64(s, n / 10);
        push_digit(s, n % 10);
        proof {
            assert((old(s)@ + dec_chars((n / 10) as nat)).push(digit_char((n % 10) as int))
                =~= old(s)@ + dec_chars(n as nat));
        }
    }
}

/// A checksum response: the value in decimal, terminated by a carriage
/// return and a line feed.
pub open spec fn response_chars(v: nat) -> Seq<char> {
    dec_chars(v) + seq!['\r', '\n']
}

/// Format a checksum value as its decimal response line.
pub fn format_response(v: u64) -> (r: String)
    ensures
        r@ == response_chars(v as nat),
{
    let mut s = String::new();
    push_dec_u64(&mut s, v);
    s.append("\r\n");
    proof {
        reveal_strlit("\r\n");
        assert(Seq::<char>::empty() + dec_chars(v as nat) + "\r\n"@ =~= response_chars(v as nat));
    }
    s
}

} // verus!
