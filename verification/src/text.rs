//! Text that people type and text that people read: trimming of answers, port
//! numbers in and out of decimal notation.

use vstd::prelude::*;
use vstd::string::*;

verus! {

/// The characters with the Unicode property `White_Space`.
pub open spec fn is_white_space(c: char) -> bool {
    let n = c as u32;
    ||| 0x9 <= n <= 0xd
    ||| n == 0x20
    ||| n == 0x85
    ||| n == 0xa0
    ||| n == 0x1680
    ||| 0x2000 <= n <= 0x200a
    ||| n == 0x2028
    ||| n == 0x2029
    ||| n == 0x202f
    ||| n == 0x205f
    ||| n == 0x3000
}

/// `s` without the white space at its two ends.
pub open spec fn trimmed(s: Seq<char>) -> Seq<char>
    decreases s.len(),
{
    if s.len() > 0 && is_white_space(s.first()) {
        trimmed(s.drop_first())
    } else if s.len() > 0 && is_white_space(s.last()) {
        trimmed(s.drop_last())
    } else {
        s
    }
}

/// `s` holds nothing but white space.
pub open spec fn is_blank(s: Seq<char>) -> bool {
    forall|i: int| 0 <= i < s.len() ==> is_white_space(#[trigger] s[i])
}

/// Whether `c` has the Unicode property `White_Space`.
pub fn white_space(c: char) -> (yes: bool)
    ensures
        yes == is_white_space(c),
{
    let n: u32 = c as u32;
    (0x9 <= n && n <= 0xd) || n == 0x20 || n == 0x85 || n == 0xa0 || n == 0x1680 || (0x2000 <= n && n
        <= 0x200a) || n == 0x2028 || n == 0x2029 || n == 0x202f || n == 0x205f || n == 0x3000
}

/// The characters of `s`, in order.
fn chars_of(s: &str) -> (chars: Vec<char>)
    ensures
        chars@ == s@,
{
    let mut chars: Vec<char> = Vec::new();
    for c in iter: s.chars()
        invariant
            iter.seq() == s@,
            chars@ == s@.take(iter.index() as int),
    {
        chars.push(c);
        assert(s@.take(iter.index() + 1) == s@.take(iter.index() as int).push(c));
    }
    assert(s@.take(s@.len() as int) == s@);
    chars
}

/// Trimming from the left takes off the first character while it is white space.
proof fn lemma_trim_left(s: Seq<char>, from: int)
    requires
        0 <= from <= s.len(),
        forall|i: int| 0 <= i < from ==> is_white_space(#[trigger] s[i]),
    ensures
        trimmed(s) == trimmed(s.subrange(from, s.len() as int)),
    decreases from,
{
    if from == 0 {
        assert(s.subrange(0, s.len() as int) == s);
    } else {
        let rest = s.drop_first();
        assert forall|i: int| 0 <= i < from - 1 implies is_white_space(#[trigger] rest[i]) by {
            assert(rest[i] == s[i + 1]);
        }
        lemma_trim_left(rest, from - 1);
        assert(rest.subrange(from - 1, rest.len() as int) == s.subrange(from, s.len() as int));
    }
}

/// Once the first character is not white space, trimming takes characters off the right.
proof fn lemma_trim_right(s: Seq<char>, to: int)
    requires
        0 < to <= s.len(),
        !is_white_space(s[0]),
        forall|i: int| to <= i < s.len() ==> is_white_space(#[trigger] s[i]),
    ensures
        trimmed(s) == trimmed(s.subrange(0, to)),
    decreases s.len() - to,
{
    if to == s.len() {
        assert(s.subrange(0, to) == s);
    } else {
        let rest = s.drop_last();
        lemma_trim_right(rest, to);
        assert(rest.subrange(0, to) == s.subrange(0, to));
    }
}

/// The text without the white space at its two ends.
pub fn trim(s: &str) -> (kept: String)
    ensures
        kept@ == trimmed(s@),
{
    let chars = chars_of(s);
    let mut from: usize = 0;
    while from < chars.len() && white_space(chars[from])
        invariant
            from <= chars@.len(),
            forall|i: int| 0 <= i < from ==> is_white_space(#[trigger] chars@[i]),
        decreases chars@.len() - from,
    {
        from = from + 1;
    }
    proof {
        lemma_trim_left(s@, from as int);
    }
    let ghost right = s@.subrange(from as int, s@.len() as int);
    let mut to: usize = chars.len();
    while from < to && white_space(chars[to - 1])
        invariant
            from <= to <= chars@.len(),
            from < chars@.len() ==> !is_white_space(chars@[from as int]) && from < to,
            forall|i: int| to <= i < chars@.len() ==> is_white_space(#[trigger] chars@[i]),
        decreases to,
    {
        to = to - 1;
    }
    proof {
        if from < to {
            assert forall|i: int| to - from <= i < right.len() implies is_white_space(
                #[trigger] right[i],
            ) by {
                assert(right[i] == chars@[from + i]);
            }
            lemma_trim_right(right, to - from);
            assert(right.subrange(0, to - from) == s@.subrange(from as int, to as int));
        } else {
            assert(right == s@.subrange(from as int, to as int));
        }
    }
    s.substring_char(from, to).to_owned()
}

/// The character of the decimal digit `d`.
pub open spec fn digit(d: nat) -> char
    recommends
        d < 10,
{
    (48 + d) as char
}

/// `n` in decimal notation, without leading zeros.
pub open spec fn decimal(n: nat) -> Seq<char>
    decreases n,
{
    if n < 10 {
        seq![digit(n)]
    } else {
        decimal(n / 10).push(digit(n % 10))
    }
}

/// `c` is one of `0` to `9`.
pub open spec fn is_digit(c: char) -> bool {
    '0' <= c <= '9'
}

/// `s` holds nothing but decimal digits.
pub open spec fn all_digits(s: Seq<char>) -> bool {
    forall|i: int| 0 <= i < s.len() ==> is_digit(#[trigger] s[i])
}

/// The number that the digits of `s` write in decimal notation.
pub open spec fn digits_value(s: Seq<char>) -> int
    decreases s.len(),
{
    if s.len() == 0 {
        0
    } else {
        digits_value(s.drop_last()) * 10 + (s.last() as int - 48)
    }
}

/// `s` without one leading plus sign.
pub open spec fn unsigned_part(s: Seq<char>) -> Seq<char> {
    if s.len() > 0 && s[0] == '+' {
        s.drop_first()
    } else {
        s
    }
}

/// The port that `s` writes: at least one digit, a plus sign in front at most, and
/// a number below 65536.
pub open spec fn port_of(s: Seq<char>) -> Option<u16> {
    let digits = unsigned_part(s);
    if digits.len() > 0 && all_digits(digits) && digits_value(digits) <= u16::MAX {
        Some(digits_value(digits) as u16)
    } else {
        None
    }
}

proof fn lemma_digits_value_grows(s: Seq<char>, k: int)
    requires
        all_digits(s),
        0 <= k <= s.len(),
    ensures
        0 <= digits_value(s.take(k)) <= digits_value(s),
    decreases s.len(),
{
    if s.len() == 0 {
        assert(s.take(k) == s);
    } else if k == s.len() {
        let rest = s.drop_last();
        assert(s.take(k) == s);
        assert forall|i: int| 0 <= i < rest.len() implies is_digit(#[trigger] rest[i]) by {
            assert(rest[i] == s[i]);
        }
        lemma_digits_value_grows(rest, rest.len() as int);
        assert(rest.take(rest.len() as int) == rest);
        assert(is_digit(s[s.len() - 1]));
    } else {
        let rest = s.drop_last();
        assert forall|i: int| 0 <= i < rest.len() implies is_digit(#[trigger] rest[i]) by {
            assert(rest[i] == s[i]);
        }
        lemma_digits_value_grows(rest, k);
        assert(rest.take(k) == s.take(k));
        assert(is_digit(s[s.len() - 1]));
    }
}

/// Reads a port number in decimal notation.
pub fn parse_port(s: &str) -> (port: Option<u16>)
    ensures
        port == port_of(s@),
{
    let chars = chars_of(s);
    let start: usize = if chars.len() > 0 && chars[0] == '+' {
        1
    } else {
        0
    };
    let ghost digits = unsigned_part(s@);
    assert(digits == s@.subrange(start as int, s@.len() as int));
    if start == chars.len() {
        return None;
    }
    let mut value: u32 = 0;
    let mut at: usize = start;
    while at < chars.len()
        invariant
            start <= at <= chars@.len(),
            chars@ == s@,
            digits == s@.subrange(start as int, s@.len() as int),
            digits == unsigned_part(s@),
            value <= u16::MAX,
            value == digits_value(digits.take(at - start)),
            forall|i: int| 0 <= i < at - start ==> is_digit(#[trigger] digits[i]),
        decreases chars@.len() - at,
    {
        let c = chars[at];
        assert(c == digits[at - start]);
        if c < '0' || c > '9' {
            assert(!is_digit(digits[at - start]));
            return None;
        }
        let ghost before = digits.take(at - start);
        value = value * 10 + (c as u32 - 48);
        at = at + 1;
        assert(digits.take(at - start).drop_last() == before);
        if value > 65535 {
            proof {
                if all_digits(digits) {
                    lemma_digits_value_grows(digits, at - start);
                }
            }
            return None;
        }
    }
    assert(digits.take(at - start) == digits);
    Some(value as u16)
}

/// One decimal digit as text.
fn digit_text(d: u16) -> (text: &'static str)
    requires
        d < 10,
    ensures
        text@ == seq![digit(d as nat)],
{
    proof {
        reveal_strlit("0");
        reveal_strlit("1");
        reveal_strlit("2");
        reveal_strlit("3");
        reveal_strlit("4");
        reveal_strlit("5");
        reveal_strlit("6");
        reveal_strlit("7");
        reveal_strlit("8");
        reveal_strlit("9");
    }
    match d {
        0 => "0",
        1 => "1",
        2 => "2",
        3 => "3",
        4 => "4",
        5 => "5",
        6 => "6",
        7 => "7",
        8 => "8",
        _ => "9",
    }
}

/// A port number in decimal notation.
pub fn decimal_text(n: u16) -> (text: String)
    ensures
        text@ == decimal(n as nat),
    decreases n,
{
    if n < 10 {
        digit_text(n).to_owned()
    } else {
        let mut text = decimal_text(n / 10);
        text.append(digit_text(n % 10));
        assert(text@ == decimal(n as nat / 10).push(digit(n as nat % 10)));
        text
    }
}

} // verus!
