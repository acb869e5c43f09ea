//! Decimal integers read from text, as `str::parse` reads them.
use vstd::prelude::*;

verus! {

/// An ASCII decimal digit.
pub open spec fn is_ascii_digit(c: char) -> bool {
    '0' <= c && c <= '9'
}

/// Every character is an ASCII decimal digit.
pub open spec fn all_digits(s: Seq<char>) -> bool {
    forall|i: int| 0 <= i < s.len() ==> is_ascii_digit(#[trigger] s[i])
}

/// The value of a string of decimal digits.
pub open spec fn digits_value(s: Seq<char>) -> nat
    decreases s.len(),
{
    if s.len() == 0 {
        0
    } else {
        digits_value(s.drop_last()) * 10 + ((s.last() as int - '0' as int) as nat)
    }
}

/// The sign and the digits of `s`: an optional leading `+`, or `-` where `signed`.
pub open spec fn sign_split(s: Seq<char>, signed: bool) -> (bool, Seq<char>) {
    if s.len() > 0 && s[0] == '+' {
        (false, s.drop_first())
    } else if signed && s.len() > 0 && s[0] == '-' {
        (true, s.drop_first())
    } else {
        (false, s)
    }
}

/// The sign and magnitude that `s` spells as a decimal integer: an optional sign, then at
/// least one digit and nothing else.
pub open spec fn decimal_reading(s: Seq<char>, signed: bool) -> Option<(bool, nat)> {
    let (negative, body) = sign_split(s, signed);
    if body.len() > 0 && all_digits(body) {
        Some((negative, digits_value(body)))
    } else {
        None
    }
}

/// What `str::parse::<u16>` gives for `s`.
pub open spec fn parsed_u16(s: Seq<char>) -> Option<u16> {
    match decimal_reading(s, false) {
        Some((_, value)) => if value <= u16::MAX {
            Some(value as u16)
        } else {
            None
        },
        None => None,
    }
}

/// What `str::parse::<i32>` gives for `s`.
pub open spec fn parsed_i32(s: Seq<char>) -> Option<i32> {
    match decimal_reading(s, true) {
        Some((negative, value)) => if negative {
            if value <= 0x8000_0000 {
                Some((-value) as i32)
            } else {
                None
            }
        } else if value <= i32::MAX {
            Some(value as i32)
        } else {
            None
        },
        None => None,
    }
}

/// Digits appended to a string of digits never lower its value.
proof fn lemma_digits_value_grows(s: Seq<char>, k: int)
    requires
        0 <= k <= s.len(),
        all_digits(s),
    ensures
        digits_value(s.take(k)) <= digits_value(s),
    decreases s.len() - k,
{
    if k < s.len() {
        assert(s.drop_last().take(k) =~= s.take(k));
        assert(all_digits(s.drop_last()));
        lemma_digits_value_grows(s.drop_last(), k);
    } else {
        assert(s.take(k) =~= s);
    }
}

/// Reads `text` as a decimal integer of magnitude at most `limit`: its sign and magnitude,
/// or None where it is not a decimal integer or its magnitude exceeds `limit`.
fn read_decimal(text: &str, signed: bool, limit: u64) -> (result: Option<(bool, u64)>)
    requires
        limit <= u32::MAX,
    ensures
        match result {
            Some((negative, value)) => decimal_reading(text@, signed) == Some((negative, value as nat))
                && value <= limit,
            None => match decimal_reading(text@, signed) {
                Some((_, value)) => value > limit,
                None => true,
            },
        },
{
    let n = text.unicode_len();
    let mut start: usize = 0;
    let mut negative = false;
    if n > 0 {
        let first = text.get_char(0);
        if first == '+' {
            start = 1;
        } else if signed && first == '-' {
            start = 1;
            negative = true;
        }
    }
    let ghost body = text@.subrange(start as int, n as int);
    assert(sign_split(text@, signed) == (negative, body)) by {
        if start == 1 {
            assert(text@.drop_first() =~= body);
        } else {
            assert(text@ =~= body);
        }
    }
    if start >= n {
        return None;
    }
    let mut value: u64 = 0;
    let mut i = start;
    while i < n
        invariant
            start <= i <= n,
            n == text@.len(),
            body == text@.subrange(start as int, n as int),
            sign_split(text@, signed) == (negative, body),
            limit <= u32::MAX,
            value <= limit,
            all_digits(text@.subrange(start as int, i as int)),
            value == digits_value(text@.subrange(start as int, i as int)),
        decreases n - i,
    {
        let c = text.get_char(i);
        assert(body.take(i - start) =~= text@.subrange(start as int, i as int));
        if c < '0' || c > '9' {
            assert(body[i - start] == c);
            return None;
        }
        let next = value * 10 + (c as u64 - '0' as u64);
        let ghost seen = text@.subrange(start as int, i + 1);
        assert(seen.drop_last() =~= text@.subrange(start as int, i as int));
        assert(seen.last() == c);
        if next > limit {
            proof {
                assert(body.take(i + 1 - start) =~= seen);
                if all_digits(body) {
                    lemma_digits_value_grows(body, i + 1 - start);
                }
            }
            return None;
        }
        value = next;
        i = i + 1;
    }
    Some((negative, value))
}

/// `text` read as a `u16`, as `str::parse::<u16>` reads it.
pub fn parse_u16(text: &str) -> (result: Option<u16>)
    ensures
        result == parsed_u16(text@),
{
    match read_decimal(text, false, 65535) {
        Some((_, value)) => Some(value as u16),
        None => None,
    }
}

/// `text` read as an `i32`, as `str::parse::<i32>` reads it.
pub fn parse_i32(text: &str) -> (result: Option<i32>)
    ensures
        result == parsed_i32(text@),
{
    match read_decimal(text, true, 0x8000_0000) {
        Some((negative, value)) => {
            if negative {
                if value == 0x8000_0000 {
                    Some(i32::MIN)
                } else {
                    Some(-(value as i32))
                }
            } else if value <= 0x7fff_ffff {
                Some(value as i32)
            } else {
                None
            }
        },
        None => None,
    }
}

/// `s` is a string of ASCII decimal digits whose value exceeds `u16::MAX`.
pub open spec fn is_decimal_above_u16(s: Seq<char>) -> bool {
    s.len() > 0 && all_digits(s) && digits_value(s) > u16::MAX
}

/// Whether `text` is a string of ASCII decimal digits whose value exceeds `u16::MAX`.
pub fn decimal_above_u16(text: &str) -> (above: bool)
    ensures
        above == is_decimal_above_u16(text@),
{
    let n = text.unicode_len();
    if n == 0 {
        return false;
    }
    let mut i: usize = 0;
    while i < n
        invariant
            i <= n,
            n == text@.len(),
            forall|j: int| 0 <= j < i ==> is_ascii_digit(#[trigger] text@[j]),
        decreases n - i,
    {
        let c = text.get_char(i);
        if c < '0' || c > '9' {
            assert(!is_ascii_digit(text@[i as int]));
            return false;
        }
        i = i + 1;
    }
    assert(all_digits(text@));
    assert(text@[0] != '+');
    assert(sign_split(text@, false) == (false, text@));
    parse_u16(text).is_none()
}

} // verus!
