//! The keys of a stroke map as text: a key is written as a decimal number,
//! and a decimal number with an optional sign is read as a key.

use crate::text::chars_of;
use vstd::prelude::*;

verus! {

/// Whether `c` is one of the ten decimal digits.
pub open spec fn is_digit(c: char) -> bool {
    '0' <= c <= '9'
}

/// The digit that stands for `d`, for `d` from 0 to 9.
pub open spec fn digit_char(d: int) -> char {
    ('0' as int + d) as char
}

/// The number that the digit `c` stands for.
pub open spec fn digit_value(c: char) -> int {
    c as int - '0' as int
}

/// Whether `s` holds digits only.
pub open spec fn all_digits(s: Seq<char>) -> bool {
    forall|i: int| 0 <= i < s.len() ==> is_digit(#[trigger] s[i])
}

/// The digits of `n`, without leading zeros.
pub open spec fn digits_of(n: nat) -> Seq<char>
    decreases n,
{
    if n < 10 {
        seq![digit_char(n as int)]
    } else {
        digits_of(n / 10).push(digit_char((n % 10) as int))
    }
}

/// The number that the digits `s` stand for.
pub open spec fn number(s: Seq<char>) -> nat
    decreases s.len(),
{
    if s.len() == 0 {
        0
    } else {
        (number(s.drop_last()) * 10 + digit_value(s.last())) as nat
    }
}

/// The text of the key `k`: its digits, after a minus sign where `k` is
/// negative.
pub open spec fn decimal(k: int) -> Seq<char> {
    if k < 0 {
        seq!['-'] + digits_of((-k) as nat)
    } else {
        digits_of(k as nat)
    }
}

/// Whether `s` begins with a sign.
pub open spec fn signed(s: Seq<char>) -> bool {
    s.len() > 0 && (s[0] == '-' || s[0] == '+')
}

/// The key that the text `s` stands for: an optional sign, then at least one
/// digit and nothing else, with a value that a key can have.
pub open spec fn key_of(s: Seq<char>) -> Option<int> {
    let body = if signed(s) { s.skip(1) } else { s };
    let value = if signed(s) && s[0] == '-' { -number(body) } else { number(body) as int };
    if body.len() > 0 && all_digits(body) && i32::MIN <= value <= i32::MAX {
        Some(value)
    } else {
        None
    }
}

/// The digits of a number are digits, at least one, and stand for the number.
pub proof fn lemma_digits_of(n: nat)
    ensures
        digits_of(n).len() >= 1,
        all_digits(digits_of(n)),
        number(digits_of(n)) == n,
    decreases n,
{
    if n < 10 {
        assert(number(digits_of(n).drop_last()) == 0);
    } else {
        lemma_digits_of(n / 10);
        assert(digits_of(n).drop_last() == digits_of(n / 10));
    }
}

/// The number of a text of digits is at least the number of each of its
/// beginnings.
pub proof fn lemma_number_grows(s: Seq<char>, i: int)
    requires
        all_digits(s),
        0 <= i <= s.len(),
    ensures
        number(s.take(i)) <= number(s),
    decreases s.len(),
{
    if i < s.len() {
        let init = s.drop_last();
        assert(init.take(i) == s.take(i));
        lemma_number_grows(init, i);
    } else {
        assert(s.take(i) == s);
    }
}

/// The text of a key is read as that key.
pub proof fn lemma_key_of_decimal(k: int)
    requires
        i32::MIN <= k <= i32::MAX,
    ensures
        key_of(decimal(k)) == Some(k),
{
    if k < 0 {
        lemma_digits_of((-k) as nat);
        assert(decimal(k).skip(1) == digits_of((-k) as nat));
    } else {
        lemma_digits_of(k as nat);
    }
}

/// The text of a key holds digits and at most a minus sign in front: no white
/// space and no colon.
pub proof fn lemma_decimal_chars(k: int)
    ensures
        decimal(k).len() >= 1,
        forall|i: int| 0 <= i < decimal(k).len() ==> {
            let c = #[trigger] decimal(k)[i];
            is_digit(c) || c == '-'
        },
{
    if k < 0 {
        lemma_digits_of((-k) as nat);
    } else {
        lemma_digits_of(k as nat);
    }
}

/// Appends the digits of `n` to `out`.
fn push_digits(out: &mut String, n: u32)
    ensures
        final(out)@ == old(out)@ + digits_of(n as nat),
    decreases n,
{
    if n >= 10 {
        push_digits(out, n / 10);
    }
    let d: u8 = (n % 10) as u8;
    out.push((d + 48u8) as char);
}

/// Appends the text of `key` to `out`.
pub(crate) fn push_key(out: &mut String, key: i32)
    ensures
        final(out)@ == old(out)@ + decimal(key as int),
{
    if key < 0 {
        out.push('-');
        let magnitude: u32 = (-(key as i64)) as u32;
        push_digits(out, magnitude);
    } else {
        push_digits(out, key as u32);
    }
}

/// Reads `chars[from..to]` as a key.
pub(crate) fn read_key(chars: &Vec<char>, from: usize, to: usize) -> (key: Option<i32>)
    requires
        from <= to <= chars.len(),
    ensures
        key_of(chars@.subrange(from as int, to as int)) == match key {
            Some(k) => Some(k as int),
            None => None,
        },
{
    let ghost s = chars@.subrange(from as int, to as int);
    let mut start: usize = from;
    let mut negative = false;
    if from < to {
        let c = chars[from];
        if c == '-' {
            negative = true;
            start = from + 1;
        } else if c == '+' {
            start = from + 1;
        }
    }
    let ghost body = chars@.subrange(start as int, to as int);
    if start == to {
        return None;
    }
    let mut acc: i64 = 0;
    let mut i: usize = start;
    while i < to
        invariant
            from <= start <= i <= to <= chars.len(),
            s == chars@.subrange(from as int, to as int),
            body == chars@.subrange(start as int, to as int),
            body == if signed(s) { s.skip(1) } else { s },
            all_digits(body.take(i - start)),
            acc == number(body.take(i - start)),
            0 <= acc <= 2147483648,
        decreases to - i,
    {
        let c = chars[i];
        assert(c == body[i - start]);
        if !('0' <= c && c <= '9') {
            return None;
        }
        let d: i64 = ((c as u32) - 48) as i64;
        acc = acc * 10 + d;
        assert(body.take(i - start + 1).drop_last() == body.take(i - start));
        if acc > 2147483648 {
            proof {
                if all_digits(body) {
                    lemma_number_grows(body, i - start + 1);
                }
            }
            return None;
        }
        i += 1;
    }
    assert(body.take(i - start) == body);
    if negative {
        Some((-acc) as i32)
    } else if acc <= 2147483647 {
        Some(acc as i32)
    } else {
        None
    }
}

/// The text of `key`.
pub fn key_text(key: i32) -> (text: String)
    ensures
        text@ == decimal(key as int),
{
    let mut text = String::new();
    push_key(&mut text, key);
    text
}

/// The key that `text` stands for, if it stands for one.
pub fn parse_key(text: &str) -> (key: Option<i32>)
    ensures
        key_of(text@) == match key {
            Some(k) => Some(k as int),
            None => None,
        },
{
    let chars = chars_of(text);
    assert(chars@.subrange(0, chars@.len() as int) == chars@);
    read_key(&chars, 0, chars.len())
}

} // verus!
