//! Small helpers on text: comparison, decimal and hexadecimal digits.

use vstd::prelude::*;

verus! {

/// `str`'s `==` from std: two string slices are equal exactly when they hold
/// the same characters.
pub assume_specification[ <str as PartialEq>::eq ](a: &str, b: &str) -> (same: bool)
    ensures
        same == (a@ == b@),
;

/// Whether two pieces of text hold the same characters.
pub fn same_text(a: &str, b: &str) -> (same: bool)
    ensures
        same == (a@ == b@),
{
    a.eq(b)
}

/// The value of one hexadecimal digit, in either case.
pub open spec fn hex_digit(c: char) -> Option<nat> {
    let code = c as u32;
    if 48 <= code <= 57 {
        Some((code - 48) as nat)
    } else if 97 <= code <= 102 {
        Some((code - 87) as nat)
    } else if 65 <= code <= 70 {
        Some((code - 55) as nat)
    } else {
        None
    }
}

/// The first position at or after `from` at which `s` does not go on with `0x`.
pub open spec fn after_hex_prefixes(s: Seq<char>, from: int) -> int
    decreases s.len() - from,
{
    if 0 <= from && from + 2 <= s.len() && s[from] == '0' && s[from + 1] == 'x' {
        after_hex_prefixes(s, from + 2)
    } else {
        from
    }
}

/// The number that the digits of `s` from `from` on spell when appended to
/// `acc`, or `None` where one of them is no hexadecimal digit.
pub open spec fn hex_digits_from(s: Seq<char>, acc: nat, from: int) -> Option<nat>
    decreases s.len() - from,
{
    if from < 0 || from >= s.len() {
        Some(acc)
    } else {
        match hex_digit(s[from]) {
            Some(d) => hex_digits_from(s, acc * 16 + d, from + 1),
            None => None,
        }
    }
}

/// The number that `s` spells in hexadecimal: any run of leading `0x` is
/// skipped, one `+` may follow, then at least one digit must, and nothing
/// else; the number must fit 64 bits.
pub open spec fn hex_value(s: Seq<char>) -> Option<u64> {
    let start = after_hex_prefixes(s, 0);
    let first = if start < s.len() && s[start] == '+' {
        start + 1
    } else {
        start
    };
    if first >= s.len() {
        None
    } else {
        fits_u64(hex_digits_from(s, 0, first))
    }
}

/// `n` as a 64-bit number, where it is one.
pub open spec fn fits_u64(n: Option<nat>) -> Option<u64> {
    match n {
        Some(v) => if v <= u64::MAX {
            Some(v as u64)
        } else {
            None
        },
        None => None,
    }
}

proof fn hex_digits_grow(s: Seq<char>, acc: nat, from: int)
    ensures
        hex_digits_from(s, acc, from) matches Some(v) ==> v >= acc,
    decreases s.len() - from,
{
    if 0 <= from < s.len() {
        if let Some(d) = hex_digit(s[from]) {
            hex_digits_grow(s, acc * 16 + d, from + 1);
        }
    }
}

fn hex_digit_value(c: char) -> (digit: Option<u64>)
    ensures
        match digit {
            Some(d) => hex_digit(c) == Some(d as nat) && d < 16,
            None => hex_digit(c) is None,
        },
{
    let code: u32 = c as u32;
    if 48 <= code && code <= 57 {
        Some((code - 48) as u64)
    } else if 97 <= code && code <= 102 {
        Some((code - 87) as u64)
    } else if 65 <= code && code <= 70 {
        Some((code - 55) as u64)
    } else {
        None
    }
}

/// Reads a hexadecimal number such as `0x1f4`.
pub fn parse_hex(text: &str) -> (value: Option<u64>)
    ensures
        value == hex_value(text@),
{
    let len: usize = text.unicode_len();
    let mut start: usize = 0;
    while start < len && len - start >= 2 && text.get_char(start) == '0' && text.get_char(start + 1) == 'x'
        invariant
            start <= len,
            len == text@.len(),
            after_hex_prefixes(text@, 0) == after_hex_prefixes(text@, start as int),
        decreases len - start,
    {
        start = start + 2;
    }
    let mut i: usize = start;
    if i < len && text.get_char(i) == '+' {
        i = i + 1;
    }
    if i >= len {
        return None;
    }
    let ghost first = i as int;
    let mut acc: u64 = 0;
    while i < len
        invariant
            first <= i <= len,
            len == text@.len(),
            hex_value(text@) == fits_u64(hex_digits_from(text@, acc as nat, i as int)),
        decreases len - i,
    {
        match hex_digit_value(text.get_char(i)) {
            Some(d) => {
                if acc > (u64::MAX - d) / 16 {
                    proof {
                        hex_digits_grow(text@, (acc * 16 + d) as nat, i + 1);
                    }
                    return None;
                }
                acc = acc * 16 + d;
            },
            None => {
                return None;
            },
        }
        i = i + 1;
    }
    Some(acc)
}

/// The character for the digit `d`, up to fifteen.
pub open spec fn digit_char(d: nat) -> char {
    if d == 0 {
        '0'
    }     else if d == 1 {
        '1'
    }     else if d == 2 {
        '2'
    }     else if d == 3 {
        '3'
    }     else if d == 4 {
        '4'
    }     else if d == 5 {
        '5'
    }     else if d == 6 {
        '6'
    }     else if d == 7 {
        '7'
    }     else if d == 8 {
        '8'
    }     else if d == 9 {
        '9'
    }     else if d == 10 {
        'a'
    }     else if d == 11 {
        'b'
    }     else if d == 12 {
        'c'
    }     else if d == 13 {
        'd'
    }     else if d == 14 {
        'e'
    } else {
        'f'
    }
}

fn digit_text(d: u64) -> (text: &'static str)
    requires
        d < 16,
    ensures
        text@ == seq![digit_char(d as nat)],
{
    proof {
        reveal_strlit("0");
        reveal_strlit("1");
        reveal_strlit("2");
        reveal_strlit("3");
        reveal_strlit("4");
        reveal_strlit("5");
        reveal_strlit("6");
        reveal_strlit("7");
        reveal_strlit("8");
        reveal_strlit("9");
        reveal_strlit("a");
        reveal_strlit("b");
        reveal_strlit("c");
        reveal_strlit("d");
        reveal_strlit("e");
        reveal_strlit("f");
    }
    let text: &'static str = if d == 0 {
        "0"
    } else if d == 1 {
        "1"
    } else if d == 2 {
        "2"
    } else if d == 3 {
        "3"
    } else if d == 4 {
        "4"
    } else if d == 5 {
        "5"
    } else if d == 6 {
        "6"
    } else if d == 7 {
        "7"
    } else if d == 8 {
        "8"
    } else if d == 9 {
        "9"
    } else if d == 10 {
        "a"
    } else if d == 11 {
        "b"
    } else if d == 12 {
        "c"
    } else if d == 13 {
        "d"
    } else if d == 14 {
        "e"
    } else {
        "f"
    };
    assert(text@ =~= seq![digit_char(d as nat)]);
    text
}

/// `n` written in the base `base`, most significant digit first.
pub open spec fn digits(n: nat, base: nat) -> Seq<char>
    decreases n,
    via digits_end
{
    if base < 2 || n < base {
        seq![digit_char(n)]
    } else {
        digits(n / base, base).push(digit_char(n % base))
    }
}

#[via_fn]
proof fn digits_end(n: nat, base: nat) {
    if !(base < 2 || n < base) {
        assert(n / base < n) by (nonlinear_arith)
            requires
                2 <= base <= n,
        ;
    }
}

/// `text` with `fill` put in front of it until it is `width` characters long.
pub open spec fn padded(text: Seq<char>, width: nat, fill: char) -> Seq<char>
    decreases width - text.len(),
{
    if text.len() >= width {
        text
    } else {
        padded(seq![fill] + text, width, fill)
    }
}

/// Writes `n` in the base `base`, with the digits `0` to `9` and `a` to `f`.
pub fn number_text(n: u64, base: u64) -> (text: String)
    requires
        2 <= base <= 16,
    ensures
        text@ == digits(n as nat, base as nat),
    decreases n,
{
    if n < base {
        String::from_str(digit_text(n))
    } else {
        assert(n / base < n) by (nonlinear_arith)
            requires
                2 <= base <= n,
        ;
        let mut text = number_text(n / base, base);
        let ghost head = text@;
        text.append(digit_text(n % base));
        assert(text@ =~= head.push(digit_char((n % base) as nat)));
        text
    }
}

/// Puts `fill`, one character, in front of `text` until it is `width` characters long.
pub fn pad_left(text: String, width: usize, fill: &str) -> (result: String)
    requires
        fill@.len() == 1,
    ensures
        result@ == padded(text@, width as nat, fill@[0]),
{
    let mut result = text;
    let mut len: usize = result.as_str().unicode_len();
    while len < width
        invariant
            len == result@.len(),
            fill@.len() == 1,
            padded(text@, width as nat, fill@[0]) == padded(result@, width as nat, fill@[0]),
        decreases width - len,
    {
        let ghost before = result@;
        result = String::from_str(fill).concat(result.as_str());
        assert(result@ =~= seq![fill@[0]] + before);
        len = len + 1;
    }
    result
}

} // verus!
