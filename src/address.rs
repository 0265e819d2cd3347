//! Reading a 16-bit address typed in hexadecimal, as the debugger takes it.
use vstd::prelude::*;

verus! {

/// The text with leading and trailing white space removed.
pub uninterp spec fn trimmed(s: Seq<char>) -> Seq<char>;

/// Relies on `str::trim`: the result depends on the text alone.
#[verifier::external_body]
fn trim_white_space(s: &str) -> (r: &str)
    ensures
        r@ == trimmed(s@),
{
    s.trim()
}

/// The value of a hexadecimal digit of either case, or -1 for any other
/// character.
pub open spec fn hex_digit_value(c: char) -> int {
    if '0' <= c <= '9' {
        c as int - '0' as int
    } else if 'a' <= c <= 'f' {
        c as int - 'a' as int + 10
    } else if 'A' <= c <= 'F' {
        c as int - 'A' as int + 10
    } else {
        -1
    }
}

/// The number that a string of hexadecimal digits writes, most significant
/// digit first.
pub open spec fn hex_value(digits: Seq<char>) -> int
    decreases digits.len(),
{
    if digits.len() == 0 {
        0
    } else {
        hex_value(digits.drop_last()) * 16 + hex_digit_value(digits.last())
    }
}

/// Whether every character is a hexadecimal digit.
pub open spec fn all_hex_digits(digits: Seq<char>) -> bool {
    forall|k: int| 0 <= k < digits.len() ==> hex_digit_value(#[trigger] digits[k]) >= 0
}

/// The digits of an address: after an optional `0x` or `0X` prefix, an
/// optional `+` sign.
pub open spec fn address_digits(t: Seq<char>) -> Seq<char> {
    let body = if t.len() >= 2 && t[0] == '0' && (t[1] == 'x' || t[1] == 'X') {
        t.subrange(2, t.len() as int)
    } else {
        t
    };
    if body.len() > 0 && body[0] == '+' {
        body.drop_first()
    } else {
        body
    }
}

/// The address that `input` writes: white space around it is ignored, then
/// at least one hexadecimal digit must follow the optional prefix and sign,
/// and the value must fit in 16 bits.
pub open spec fn address_of(input: Seq<char>) -> Option<u16> {
    let digits = address_digits(trimmed(input));
    if digits.len() > 0 && all_hex_digits(digits) && hex_value(digits) <= 0xFFFF {
        Some(hex_value(digits) as u16)
    } else {
        None
    }
}

/// A string of digits is worth at least any of its prefixes.
proof fn lemma_hex_value_grows(digits: Seq<char>, k: int)
    requires
        0 <= k <= digits.len(),
        all_hex_digits(digits),
    ensures
        hex_value(digits) >= hex_value(digits.subrange(0, k)),
    decreases digits.len(),
{
    if k < digits.len() {
        let rest = digits.drop_last();
        assert(all_hex_digits(rest)) by {
            assert forall|j: int| 0 <= j < rest.len() implies hex_digit_value(#[trigger] rest[j])
                >= 0 by {
                assert(rest[j] == digits[j]);
            }
        }
        lemma_hex_value_grows(rest, k);
        assert(rest.subrange(0, k) =~= digits.subrange(0, k));
        assert(hex_digit_value(digits.last()) >= 0);
        assert(hex_value(rest) >= 0) by {
            lemma_hex_value_nonnegative(rest);
        }
    } else {
        assert(digits.subrange(0, k) =~= digits);
    }
}

proof fn lemma_hex_value_nonnegative(digits: Seq<char>)
    requires
        all_hex_digits(digits),
    ensures
        hex_value(digits) >= 0,
    decreases digits.len(),
{
    if digits.len() > 0 {
        let rest = digits.drop_last();
        assert(all_hex_digits(rest)) by {
            assert forall|j: int| 0 <= j < rest.len() implies hex_digit_value(#[trigger] rest[j])
                >= 0 by {
                assert(rest[j] == digits[j]);
            }
        }
        lemma_hex_value_nonnegative(rest);
        assert(hex_digit_value(digits.last()) >= 0);
    }
}

/// The value of a hexadecimal digit, if `c` is one.
fn hex_digit(c: char) -> (r: Option<u32>)
    ensures
        match r {
            Some(d) => d == hex_digit_value(c),
            None => hex_digit_value(c) < 0,
        },
{
    if '0' <= c && c <= '9' {
        Some(c as u32 - '0' as u32)
    } else if 'a' <= c && c <= 'f' {
        Some(c as u32 - 'a' as u32 + 10)
    } else if 'A' <= c && c <= 'F' {
        Some(c as u32 - 'A' as u32 + 10)
    } else {
        None
    }
}

/// Parses an address typed as hexadecimal, such as `0x0393`, `0393` or
/// `ff80`.
pub fn parse_hex_address(input: &str) -> (r: Option<u16>)
    ensures
        r == address_of(input@),
{
    let cleaned = trim_white_space(input);
    let t = Ghost(cleaned@);
    let n = cleaned.unicode_len();
    let mut i: usize = 0;
    if n >= 2 && cleaned.get_char(0) == '0' && (cleaned.get_char(1) == 'x' || cleaned.get_char(1)
        == 'X') {
        i = 2;
    }
    if i < n && cleaned.get_char(i) == '+' {
        i = i + 1;
    }
    let start = i;
    assert(address_digits(t@) =~= t@.subrange(start as int, n as int));
    if i == n {
        return None;
    }
    let mut value: u32 = 0;
    while i < n
        invariant
            start <= i <= n,
            n == t@.len(),
            cleaned@ == t@,
            t@ == trimmed(input@),
            address_digits(t@) == t@.subrange(start as int, n as int),
            value <= 0xFFFF,
            value == hex_value(t@.subrange(start as int, i as int)),
            all_hex_digits(t@.subrange(start as int, i as int)),
        decreases n - i,
    {
        let c = cleaned.get_char(i);
        let digits = Ghost(t@.subrange(start as int, n as int));
        match hex_digit(c) {
            None => {
                assert(digits@[i - start] == c);
                return None;
            },
            Some(d) => {
                assert(t@.subrange(start as int, i + 1).drop_last() =~= t@.subrange(
                    start as int,
                    i as int,
                ));
                value = value * 16 + d;
                assert(all_hex_digits(t@.subrange(start as int, i + 1))) by {
                    let p = t@.subrange(start as int, i + 1);
                    assert forall|k: int| 0 <= k < p.len() implies hex_digit_value(#[trigger] p[k])
                        >= 0 by {
                        if k < i - start {
                            assert(p[k] == t@.subrange(start as int, i as int)[k]);
                        }
                    }
                }
                if value > 0xFFFF {
                    proof {
                        if all_hex_digits(digits@) {
                            lemma_hex_value_grows(digits@, i + 1 - start);
                            assert(digits@.subrange(0, i + 1 - start) =~= t@.subrange(
                                start as int,
                                i + 1,
                            ));
                        }
                    }
                    return None;
                }
            },
        }
        i = i + 1;
    }
    assert(t@.subrange(start as int, n as int) =~= t@.subrange(start as int, i as int));
    Some(value as u16)
}

} // verus!
