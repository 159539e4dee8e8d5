//! Decimal numbers as they appear in the parameter fields of a control
//! sequence, and as they are written into diagnostics.

use vstd::prelude::*;
use vstd::string::*;

verus! {

/// Whether `c` is one of the ASCII digits `0` to `9`.
pub open spec fn is_digit(c: char) -> bool {
    '0' <= c <= '9'
}

/// The value of an ASCII digit.
pub open spec fn digit_value(c: char) -> nat {
    (c as u32 - 0x30) as nat
}

/// The number that a string of digits denotes in base ten.
pub open spec fn decimal_value(digits: Seq<char>) -> nat
    decreases digits.len(),
{
    if digits.len() == 0 {
        0
    } else {
        decimal_value(digits.drop_last()) * 10 + digit_value(digits.last())
    }
}

/// Whether every character is an ASCII digit.
pub open spec fn all_digits(s: Seq<char>) -> bool {
    forall|i: int| 0 <= i < s.len() ==> is_digit(#[trigger] s[i])
}

/// A field without the one plus sign that may lead it.
pub open spec fn unsigned_part(field: Seq<char>) -> Seq<char> {
    if field.len() > 0 && field[0] == '+' {
        field.skip(1)
    } else {
        field
    }
}

/// The number a parameter field denotes: an optional `+`, then one or more
/// decimal digits whose value fits a `usize`. Every other field, the empty
/// one included, denotes none.
pub open spec fn parse_number(field: Seq<char>) -> Option<nat> {
    let digits = unsigned_part(field);
    if digits.len() > 0 && all_digits(digits) && decimal_value(digits) <= usize::MAX {
        Some(decimal_value(digits))
    } else {
        None
    }
}

/// The value of a field, or `fallback` where the field denotes no number.
pub open spec fn number_or(field: Seq<char>, fallback: nat) -> nat {
    match parse_number(field) {
        Some(n) => n,
        None => fallback,
    }
}

/// The digit character of a value below ten.
pub open spec fn digit_char(d: nat) -> char {
    if d == 0 {
        '0'
    } else if d == 1 {
        '1'
    } else if d == 2 {
        '2'
    } else if d == 3 {
        '3'
    } else if d == 4 {
        '4'
    } else if d == 5 {
        '5'
    } else if d == 6 {
        '6'
    } else if d == 7 {
        '7'
    } else if d == 8 {
        '8'
    } else {
        '9'
    }
}

/// The digits of `n` in base ten, without leading zeros.
pub open spec fn decimal_digits(n: nat) -> Seq<char>
    decreases n,
{
    if n < 10 {
        seq![digit_char(n)]
    } else {
        decimal_digits(n / 10).push(digit_char(n % 10))
    }
}

/// A prefix of a digit string never denotes more than the whole string.
pub proof fn lemma_decimal_value_prefix(digits: Seq<char>, k: int)
    requires
        0 <= k <= digits.len(),
    ensures
        decimal_value(digits.take(k)) <= decimal_value(digits),
    decreases digits.len() - k,
{
    if k == digits.len() {
        assert(digits.take(k) =~= digits);
    } else {
        lemma_decimal_value_prefix(digits, k + 1);
        assert(digits.take(k + 1).drop_last() =~= digits.take(k));
    }
}

/// Reads the number of the field that `text` holds after its first `skip`
/// characters.
pub(crate) fn parse_number_after(text: &str, skip: usize) -> (r: Option<usize>)
    requires
        skip <= 1,
        skip <= text@.len(),
        skip == 1 ==> '\0' <= text@[0] <= '\u{7f}',
    ensures
        r matches Some(n) ==> parse_number(text@.skip(skip as int)) == Some(n as nat),
        r is None ==> parse_number(text@.skip(skip as int)) is None,
{
    broadcast use vstd::string::is_ascii_spec_bytes;

    let ghost field = text@.skip(skip as int);
    if !text.is_ascii() {
        proof {
            let i = choose|i: int| 0 <= i < text@.len() && !('\0' <= #[trigger] text@[i] <= '\u{7f}');
            assert(i >= skip);
            assert(field[i - skip] == text@[i]);
            if field[0] == '+' {
                assert(i - skip >= 1);
                assert(unsigned_part(field)[i - skip - 1] == text@[i]);
            } else {
                assert(unsigned_part(field)[i - skip] == text@[i]);
            }
        }
        return None;
    }
    let bytes = text.as_bytes();
    assert(bytes@.len() == text@.len());
    let mut i: usize = skip;
    if i < bytes.len() && bytes[i] == 0x2b {
        i = i + 1;
    }
    let start: usize = i;
    let ghost digits = unsigned_part(field);
    assert(digits =~= text@.skip(start as int));
    if i == bytes.len() {
        return None;
    }
    let mut value: usize = 0;
    while i < bytes.len()
        invariant
            start <= i <= bytes.len(),
            bytes@.len() == text@.len(),
            bytes@ == Seq::new(text@.len(), |k: int| text@[k] as u8),
            vstd::utf8::is_ascii_chars(text@),
            digits == text@.skip(start as int),
            digits == unsigned_part(text@.skip(skip as int)),
            all_digits(digits.take(i - start)),
            value == decimal_value(digits.take(i - start)),
        decreases bytes.len() - i,
    {
        let b = bytes[i];
        let ghost c = text@[i as int];
        assert(c == digits[i - start]);
        assert(b == c as u8);
        assert(c <= '\u{7f}');
        if b < 0x30 || b > 0x39 {
            assert(!is_digit(c));
            return None;
        }
        let d: usize = (b - 0x30) as usize;
        proof {
            assert(digits.take(i + 1 - start).drop_last() =~= digits.take(i - start));
            assert(digits.take(i + 1 - start).last() == c);
            assert(d == digit_value(c));
            lemma_decimal_value_prefix(digits, i + 1 - start);
        }
        if value > (usize::MAX - d) / 10 {
            return None;
        }
        value = value * 10 + d;
        i = i + 1;
        assert forall|k: int| 0 <= k < digits.take(i - start).len() implies is_digit(
            #[trigger] digits.take(i - start)[k],
        ) by {
            if k < i - 1 - start {
                assert(digits.take(i - 1 - start)[k] == digits[k]);
            }
        }
    }
    assert(digits.take(i - start) =~= digits);
    Some(value)
}

/// Reads the number a parameter field denotes.
pub fn parse_field(field: &str) -> (r: Option<usize>)
    ensures
        r matches Some(n) ==> parse_number(field@) == Some(n as nat),
        r is None ==> parse_number(field@) is None,
{
    assert(field@.skip(0) =~= field@);
    parse_number_after(field, 0)
}

fn digit_text(d: usize) -> (s: &'static str)
    requires
        d < 10,
    ensures
        s@ == seq![digit_char(d as nat)],
{
    proof {
        reveal_strlit("0");
        reveal_strlit("1");
        reveal_strlit("2");
        reveal_strlit("3");
        reveal_strlit("4");
        reveal_strlit("5");
        reveal_strlit("6");
        reveal_strlit("7");
        reveal_strlit("8");
        reveal_strlit("9");
    }
    let s = if d == 0 {
        "0"
    } else if d == 1 {
        "1"
    } else if d == 2 {
        "2"
    } else if d == 3 {
        "3"
    } else if d == 4 {
        "4"
    } else if d == 5 {
        "5"
    } else if d == 6 {
        "6"
    } else if d == 7 {
        "7"
    } else if d == 8 {
        "8"
    } else {
        "9"
    };
    assert(s@ =~= seq![digit_char(d as nat)]);
    s
}

/// Writes `n` in base ten.
pub fn decimal_text(n: usize) -> (text: String)
    ensures
        text@ == decimal_digits(n as nat),
{
    let mut text = String::from_str(digit_text(n % 10));
    let mut rest: usize = n / 10;
    proof {
        if n >= 10 {
            assert(decimal_digits(n as nat) =~= decimal_digits(rest as nat) + text@);
        }
    }
    while rest > 0
        invariant
            rest == 0 ==> text@ == decimal_digits(n as nat),
            rest > 0 ==> decimal_digits(rest as nat) + text@ == decimal_digits(n as nat),
        decreases rest,
    {
        let ghost before = text@;
        let ghost whole = rest;
        text = String::from_str(digit_text(rest % 10)).concat(text.as_str());
        rest = rest / 10;
        proof {
            if whole >= 10 {
                assert(decimal_digits(whole as nat) =~= decimal_digits(rest as nat).push(
                    digit_char((whole % 10) as nat),
                ));
                assert(decimal_digits(rest as nat) + text@ =~= decimal_digits(whole as nat)
                    + before);
            } else {
                assert(text@ =~= decimal_digits(whole as nat) + before);
            }
        }
    }
    text
}

} // verus!
