//! Numbers as assembly text writes them.
//!
//! A number is an optional sign, `+` or `-`, and after it one digit or
//! more, with nothing before, between or behind. The letters `a` to `z`, in
//! either case, are the digits from ten on.

use vstd::prelude::*;

use crate::error::{BytecodeError, BytecodeErrorKind};
use crate::text::to_chars;
use crate::{Pointer, Value};

verus! {

/// What a character is worth as a digit, if it is a digit or a letter.
pub open spec fn digit(c: char) -> Option<int> {
    if '0' <= c <= '9' {
        Some(c as int - '0' as int)
    } else if 'a' <= c <= 'z' {
        Some(c as int - 'a' as int + 10)
    } else if 'A' <= c <= 'Z' {
        Some(c as int - 'A' as int + 10)
    } else {
        None
    }
}

/// Whether a character is a digit of the base `radix`.
pub open spec fn is_digit(c: char, radix: int) -> bool {
    digit(c) matches Some(worth) && worth < radix
}

/// Whether a text is made of digits of the base `radix`, and of one at
/// least.
pub open spec fn is_natural(text: Seq<char>, radix: int) -> bool {
    text.len() > 0 && forall|i: int| 0 <= i < text.len() ==> is_digit(#[trigger] text[i], radix)
}

/// The number that digits spell in the base `radix`, highest first.
pub open spec fn natural(text: Seq<char>, radix: int) -> int
    decreases text.len(),
{
    if text.len() == 0 {
        0
    } else {
        natural(text.drop_last(), radix) * radix + digit(text.last()).unwrap()
    }
}

/// Whether a text starts with a sign.
pub open spec fn is_signed(text: Seq<char>) -> bool {
    text.len() > 0 && (text[0] == '-' || text[0] == '+')
}

/// The number that a text spells in the base `radix`, if it spells one: a
/// sign, if any, then digits.
pub open spec fn number(text: Seq<char>, radix: int) -> Option<int> {
    let digits = if is_signed(text) {
        text.skip(1)
    } else {
        text
    };
    if !is_natural(digits, radix) {
        None
    } else if is_signed(text) && text[0] == '-' {
        Some(-natural(digits, radix))
    } else {
        Some(natural(digits, radix))
    }
}

/// The value that a text spells in the base `radix`, if it spells a number
/// that is one.
pub open spec fn value(text: Seq<char>, radix: int) -> Option<Value> {
    match number(text, radix) {
        Some(n) if Value::MIN <= n <= Value::MAX => Some(n as Value),
        _ => None,
    }
}

/// The pointer that a text spells in the base `radix`, if it spells a
/// number that is one. A pointer takes no `-`, not even before a zero.
pub open spec fn pointer(text: Seq<char>, radix: int) -> Option<Pointer> {
    match number(text, radix) {
        Some(n) if 0 <= n <= Pointer::MAX && text[0] != '-' => Some(n as Pointer),
        _ => None,
    }
}

/// What a character is worth as a digit of the base `radix`, if it is one.
fn digit_value(c: char, radix: u64) -> (worth: Option<u64>)
    requires
        2 <= radix <= 36,
    ensures
        worth == if is_digit(c, radix as int) {
            Some(digit(c).unwrap() as u64)
        } else {
            None
        },
{
    let worth: u64 = if '0' <= c && c <= '9' {
        (c as u64) - ('0' as u64)
    } else if 'a' <= c && c <= 'z' {
        (c as u64) - ('a' as u64) + 10
    } else if 'A' <= c && c <= 'Z' {
        (c as u64) - ('A' as u64) + 10
    } else {
        return None;
    };
    if worth < radix {
        Some(worth)
    } else {
        None
    }
}

/// Digits spell no less than the digits before the last of them.
proof fn lemma_natural_grows(text: Seq<char>, upto: int, radix: int)
    requires
        2 <= radix,
        0 <= upto <= text.len(),
        forall|i: int| 0 <= i < text.len() ==> is_digit(#[trigger] text[i], radix),
    ensures
        0 <= natural(text.take(upto), radix) <= natural(text, radix),
    decreases text.len() - upto,
{
    lemma_natural_positive(text.take(upto), radix);
    if upto < text.len() {
        let longer = text.take(upto + 1);
        assert(longer.drop_last() =~= text.take(upto));
        assert(longer.last() == text[upto]);
        assert(is_digit(text[upto], radix));
        assert(natural(text.take(upto), radix) * radix >= natural(text.take(upto), radix))
            by (nonlinear_arith)
            requires
                natural(text.take(upto), radix) >= 0,
                radix >= 2,
        ;
        lemma_natural_grows(text, upto + 1, radix);
    } else {
        assert(text.take(upto) =~= text);
    }
}

/// Digits spell a number that is not negative.
proof fn lemma_natural_positive(text: Seq<char>, radix: int)
    requires
        2 <= radix,
        forall|i: int| 0 <= i < text.len() ==> is_digit(#[trigger] text[i], radix),
    ensures
        0 <= natural(text, radix),
    decreases text.len(),
{
    if text.len() > 0 {
        lemma_natural_positive(text.drop_last(), radix);
        assert(is_digit(text.last(), radix));
        assert(natural(text.drop_last(), radix) * radix >= 0) by (nonlinear_arith)
            requires
                natural(text.drop_last(), radix) >= 0,
                radix >= 2,
        ;
    }
}

/// Reads `chars[from..to]` as digits of the base `radix`: the number they
/// spell, where they are digits, one at least, and spell a number below
/// 2^64.
pub fn parse_natural(chars: &[char], from: usize, to: usize, radix: u64) -> (read: Option<u64>)
    requires
        from <= to <= chars@.len(),
        2 <= radix <= 36,
    ensures
        read == if is_natural(chars@.subrange(from as int, to as int), radix as int) && natural(
            chars@.subrange(from as int, to as int),
            radix as int,
        ) <= u64::MAX {
            Some(natural(chars@.subrange(from as int, to as int), radix as int) as u64)
        } else {
            None
        },
{
    let ghost text = chars@.subrange(from as int, to as int);
    if from == to {
        return None;
    }
    let mut read: u64 = 0;
    let mut i: usize = from;
    assert(text.take(0) =~= Seq::<char>::empty());
    while i < to
        invariant
            from <= i <= to <= chars@.len(),
            2 <= radix <= 36,
            text == chars@.subrange(from as int, to as int),
            forall|j: int| 0 <= j < i - from ==> is_digit(#[trigger] text[j], radix as int),
            read == natural(text.take(i - from), radix as int),
        decreases to - i,
    {
        assert(text[i - from] == chars@[i as int]);
        let ghost before = text.take(i - from);
        let ghost longer = text.take(i - from + 1);
        proof {
            assert(longer.drop_last() =~= before);
            assert(longer.last() == text[i - from]);
        }
        let worth = match digit_value(chars[i], radix) {
            Some(worth) => worth,
            None => {
                return None;
            },
        };
        let next = match read.checked_mul(radix) {
            Some(raised) => raised.checked_add(worth),
            None => None,
        };
        match next {
            Some(next) => {
                read = next;
            },
            None => {
                proof {
                    assert(natural(longer, radix as int) > u64::MAX);
                    if is_natural(text, radix as int) {
                        lemma_natural_grows(text, i - from + 1, radix as int);
                    }
                }
                return None;
            },
        }
        i += 1;
    }
    assert(text.take(to - from) =~= text);
    Some(read)
}

/// Reads `chars[from..to]` as a value written in the base `radix`
/// ([`value`]).
pub fn parse_value(chars: &[char], from: usize, to: usize, radix: u64) -> (read: Option<Value>)
    requires
        from <= to <= chars@.len(),
        2 <= radix <= 36,
    ensures
        read == value(chars@.subrange(from as int, to as int), radix as int),
{
    let ghost text = chars@.subrange(from as int, to as int);
    if from == to {
        return None;
    }
    assert(text[0] == chars@[from as int]);
    let sign = chars[from];
    let start = if sign == '-' || sign == '+' {
        from + 1
    } else {
        from
    };
    assert(chars@.subrange(start as int, to as int) =~= if is_signed(text) {
        text.skip(1)
    } else {
        text
    });
    proof {
        if is_natural(chars@.subrange(start as int, to as int), radix as int) {
            lemma_natural_positive(chars@.subrange(start as int, to as int), radix as int);
        }
    }
    match parse_natural(chars, start, to, radix) {
        None => None,
        Some(size) => {
            if sign == '-' {
                if size > 0x8000_0000_0000_0000 {
                    None
                } else if size == 0x8000_0000_0000_0000 {
                    Some(i64::MIN)
                } else {
                    Some(-(size as i64))
                }
            } else if size > 0x7FFF_FFFF_FFFF_FFFF {
                None
            } else {
                Some(size as i64)
            }
        },
    }
}

/// Reads `chars[from..to]` as a pointer written in the base `radix`
/// ([`pointer`]).
pub fn parse_pointer(chars: &[char], from: usize, to: usize, radix: u64) -> (read: Option<Pointer>)
    requires
        from <= to <= chars@.len(),
        2 <= radix <= 36,
    ensures
        read == pointer(chars@.subrange(from as int, to as int), radix as int),
{
    let ghost text = chars@.subrange(from as int, to as int);
    if from == to {
        return None;
    }
    assert(text[0] == chars@[from as int]);
    let sign = chars[from];
    if sign == '-' {
        return None;
    }
    let start = if sign == '+' {
        from + 1
    } else {
        from
    };
    assert(chars@.subrange(start as int, to as int) =~= if is_signed(text) {
        text.skip(1)
    } else {
        text
    });
    proof {
        if is_natural(chars@.subrange(start as int, to as int), radix as int) {
            lemma_natural_positive(chars@.subrange(start as int, to as int), radix as int);
        }
    }
    parse_natural(chars, start, to, radix)
}

/// Reads a value written in hexadecimal, with no prefix: `ff`, `-1A`.
/// A text that spells no such value is handed back inside the fault.
pub fn str_to_isize(s: &str) -> (result: Result<Value, BytecodeError>)
    ensures
        match value(s@, 16) {
            Some(read) => result == Ok::<Value, BytecodeError>(read),
            None => result matches Err((BytecodeErrorKind::InvalidOperand(text), None)) && text@
                == s@,
        },
{
    let chars = to_chars(s);
    assert(chars@.subrange(0, chars@.len() as int) =~= s@);
    match parse_value(chars.as_slice(), 0, chars.len(), 16) {
        Some(read) => Ok(read),
        None => Err((BytecodeErrorKind::InvalidOperand(String::from_str(s)), None)),
    }
}

/// Reads a pointer written in hexadecimal, with no prefix: `ff`, `+1A`.
/// A text that spells no such pointer is handed back inside the fault.
pub fn str_to_usize(s: &str) -> (result: Result<Pointer, BytecodeError>)
    ensures
        match pointer(s@, 16) {
            Some(read) => result == Ok::<Pointer, BytecodeError>(read),
            None => result matches Err((BytecodeErrorKind::InvalidOperand(text), None)) && text@
                == s@,
        },
{
    let chars = to_chars(s);
    assert(chars@.subrange(0, chars@.len() as int) =~= s@);
    match parse_pointer(chars.as_slice(), 0, chars.len(), 16) {
        Some(read) => Ok(read),
        None => Err((BytecodeErrorKind::InvalidOperand(String::from_str(s)), None)),
    }
}

} // verus!
