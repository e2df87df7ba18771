//! The relay's one setting: the port it listens on.

use vstd::prelude::*;
use vstd::string::StrSliceExecFns;

verus! {

/// The port used where none is set, or where the setting is no port number.
pub const DEFAULT_PORT: u16 = 8000;

/// The value of a decimal digit.
pub open spec fn digit_value(c: char) -> Option<int> {
    if '0' <= c <= '9' {
        Some(c as int - '0' as int)
    } else {
        None
    }
}

/// The number that a string of decimal digits denotes; `None` where a
/// character is no digit.
pub open spec fn decimal(digits: Seq<char>) -> Option<int>
    decreases digits.len(),
{
    if digits.len() == 0 {
        Some(0)
    } else {
        match (decimal(digits.drop_last()), digit_value(digits.last())) {
            (Some(high), Some(low)) => Some(10 * high + low),
            _ => None,
        }
    }
}

/// The port number that a setting denotes: at least one decimal digit, with
/// `+` allowed in front and nothing else around, and a value that a port can have.
pub open spec fn port_of(text: Seq<char>) -> Option<u16> {
    let digits = if text.len() > 0 && text[0] == '+' {
        text.skip(1)
    } else {
        text
    };
    if digits.len() == 0 {
        None
    } else {
        in_port_range(decimal(digits))
    }
}

/// A number as a port, where it is one and a port can have it.
pub open spec fn in_port_range(number: Option<int>) -> Option<u16> {
    match number {
        Some(value) => if value <= u16::MAX {
            Some(value as u16)
        } else {
            None
        },
        None => None,
    }
}

/// A number only grows as digits are appended, and a string that starts
/// with something that is no number is no number.
proof fn lemma_decimal_prefix(digits: Seq<char>, n: int)
    requires
        0 <= n <= digits.len(),
    ensures
        decimal(digits.take(n)) is None ==> decimal(digits) is None,
        decimal(digits) matches Some(all) ==> decimal(digits.take(n)) matches Some(part) && 0
            <= part <= all,
    decreases digits.len() - n,
{
    if n == digits.len() {
        assert(digits.take(n) =~= digits);
        lemma_decimal_nonnegative(digits);
    } else {
        lemma_decimal_prefix(digits, n + 1);
        assert(digits.take(n + 1).drop_last() =~= digits.take(n));
        lemma_decimal_nonnegative(digits.take(n));
    }
}

/// A string of digits denotes no negative number.
proof fn lemma_decimal_nonnegative(digits: Seq<char>)
    ensures
        decimal(digits) matches Some(value) ==> value >= 0,
    decreases digits.len(),
{
    if digits.len() > 0 {
        lemma_decimal_nonnegative(digits.drop_last());
    }
}

/// Reads a port number.
pub fn parse_port(text: &str) -> (port: Option<u16>)
    ensures
        port == port_of(text@),
{
    let len = text.unicode_len();
    let start: usize = if len > 0 && text.get_char(0) == '+' {
        1
    } else {
        0
    };
    if start == len {
        return None;
    }
    let ghost digits = if start == 1 {
        text@.skip(1)
    } else {
        text@
    };
    let mut value: u32 = 0;
    let mut i: usize = start;
    while i < len
        invariant
            start <= i <= len,
            len == text@.len(),
            digits.len() == len - start,
            forall|k: int| 0 <= k < digits.len() ==> digits[k] == text@[k + start],
            port_of(text@) == in_port_range(decimal(digits)),
            decimal(digits.take(i - start)) == Some(value as int),
            value <= u16::MAX,
        decreases len - i,
    {
        let c = text.get_char(i);
        proof {
            let seen = digits.take(i - start + 1);
            assert(seen.drop_last() =~= digits.take(i - start));
            assert(seen.last() == c);
            lemma_decimal_prefix(digits, i - start + 1);
        }
        if c < '0' || c > '9' {
            return None;
        }
        let low: u32 = (c as u32) - ('0' as u32);
        value = 10 * value + low;
        if value > 65535 {
            return None;
        }
        i += 1;
    }
    assert(digits.take(len - start) =~= digits);
    Some(value as u16)
}

/// The port to listen on: the one that the setting names, or the default
/// where nothing is set or the setting is no port number.
pub fn listen_port(setting: Option<&str>) -> (port: u16)
    ensures
        port == match setting {
            Some(text) => match port_of(text@) {
                Some(port) => port,
                None => DEFAULT_PORT,
            },
            None => DEFAULT_PORT,
        },
{
    match setting {
        Some(text) => match parse_port(text) {
            Some(port) => port,
            None => DEFAULT_PORT,
        },
        None => DEFAULT_PORT,
    }
}

} // verus!
