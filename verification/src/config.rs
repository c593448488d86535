use vstd::prelude::*;
use crate::security::input::chars_of;

verus! {

/// The server configuration, loaded from the environment at start-up.
#[derive(Clone, Debug)]
pub struct Config {
    pub database_url: String,
    pub port: u16,
    pub jwt_secret: String,
    pub captcha_secret: String,
}

/// The HTTP port when `PORT` is not set.
pub const DEFAULT_PORT: u16 = 3000;

/// A decimal digit.
pub open spec fn is_decimal_digit(c: char) -> bool {
    '0' <= c && c <= '9'
}

/// The number a string of decimal digits spells.
pub open spec fn digits_value(s: Seq<char>) -> int
    decreases s.len(),
{
    if s.len() == 0 {
        0
    } else {
        digits_value(s.drop_last()) * 10 + (s.last() as int - '0' as int)
    }
}

/// The digits of an unsigned number as `str::parse` reads it: an optional
/// leading `+`, then the digits.
pub open spec fn unsigned_digits(s: Seq<char>) -> Seq<char> {
    if s.len() > 0 && s[0] == '+' {
        s.drop_first()
    } else {
        s
    }
}

/// What `str::parse::<u16>` gives for `s`: the number, when after an optional
/// `+` there is at least one character, every one a decimal digit, and the
/// number fits in a `u16`; `None` otherwise.
pub open spec fn spec_parse_u16(s: Seq<char>) -> Option<u16> {
    let d = unsigned_digits(s);
    if d.len() > 0 && (forall|i: int| 0 <= i < d.len() ==> is_decimal_digit(#[trigger] d[i])) && digits_value(d)
        <= u16::MAX {
        Some(digits_value(d) as u16)
    } else {
        None
    }
}

proof fn lemma_digits_value_nonneg(s: Seq<char>)
    requires
        forall|i: int| 0 <= i < s.len() ==> is_decimal_digit(#[trigger] s[i]),
    ensures
        digits_value(s) >= 0,
    decreases s.len(),
{
    if s.len() > 0 {
        lemma_digits_value_nonneg(s.drop_last());
        assert(is_decimal_digit(s[s.len() - 1]));
    }
}

/// Appending digits never makes the number smaller.
proof fn lemma_digits_prefix_le(s: Seq<char>, k: int)
    requires
        0 <= k <= s.len(),
        forall|i: int| 0 <= i < s.len() ==> is_decimal_digit(#[trigger] s[i]),
    ensures
        digits_value(s.take(k)) <= digits_value(s),
    decreases s.len(),
{
    if k == s.len() {
        assert(s.take(k) =~= s);
    } else {
        let init = s.drop_last();
        assert(init.take(k) =~= s.take(k));
        lemma_digits_prefix_le(init, k);
        lemma_digits_value_nonneg(init);
        assert(is_decimal_digit(s[s.len() - 1]));
    }
}

/// Parses a port number as `str::parse::<u16>` does: an optional `+`, then one
/// or more decimal digits whose value fits in a `u16`.
pub fn parse_u16(text: &str) -> (res: Option<u16>)
    ensures
        res == spec_parse_u16(text@),
{
    let chars = chars_of(text);
    let start: usize = if chars.len() > 0 && chars[0] == '+' {
        1
    } else {
        0
    };
    let ghost d = unsigned_digits(text@);
    assert(d =~= chars@.subrange(start as int, chars@.len() as int));
    if start == chars.len() {
        return None;
    }
    let mut i: usize = start;
    while i < chars.len()
        invariant
            chars@ == text@,
            start <= i <= chars.len(),
            d == chars@.subrange(start as int, chars@.len() as int),
            d == unsigned_digits(text@),
            forall|j: int| 0 <= j < i - start ==> is_decimal_digit(#[trigger] d[j]),
        decreases chars.len() - i,
    {
        if !('0' <= chars[i] && chars[i] <= '9') {
            assert(d[i - start] == chars@[i as int]);
            assert(!is_decimal_digit(d[i - start]));
            assert(spec_parse_u16(text@) is None);
            return None;
        }
        i = i + 1;
    }
    let mut value: u32 = 0;
    let mut k: usize = start;
    assert(d.take(0) =~= Seq::<char>::empty());
    while k < chars.len()
        invariant
            chars@ == text@,
            start <= k <= chars.len(),
            d == chars@.subrange(start as int, chars@.len() as int),
            d == unsigned_digits(text@),
            forall|j: int| 0 <= j < d.len() ==> is_decimal_digit(#[trigger] d[j]),
            value <= u16::MAX,
            value == digits_value(d.take(k - start)),
        decreases chars.len() - k,
    {
        let c = chars[k];
        assert(is_decimal_digit(d[k - start]));
        let digit: u32 = (c as u32) - ('0' as u32);
        let next: u32 = value * 10 + digit;
        proof {
            let t = d.take(k + 1 - start);
            assert(t.drop_last() =~= d.take(k - start));
            assert(t.last() == c);
            assert(next == digits_value(t));
        }
        if next > 65535 {
            proof {
                lemma_digits_prefix_le(d, k + 1 - start);
                assert(digits_value(d) > u16::MAX);
            }
            return None;
        }
        value = next;
        k = k + 1;
    }
    assert(d.take(d.len() as int) =~= d);
    Some(value as u16)
}

/// The HTTP port from the `PORT` setting (`None` when unset): the default when
/// unset, else the setting parsed as a port number, `None` when it is not one.
pub fn port_setting(value: &Option<String>) -> (res: Option<u16>)
    ensures
        res == match value {
            None => Some(DEFAULT_PORT),
            Some(v) => spec_parse_u16(v@),
        },
{
    match value {
        None => Some(DEFAULT_PORT),
        Some(v) => parse_u16(v.as_str()),
    }
}

} // verus!
