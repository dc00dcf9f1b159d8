//! Constants: numbers, and names that stand for numbers.

use vstd::prelude::*;
use vstd::string::StrSliceExecFns;
use vstd::utf8::is_ascii_chars;

verus! {

/// A value in a definition: a number, or the name of a constant.
#[derive(Debug, PartialEq)]
pub enum Value {
    Numeric { val: i64 },
    Named { name: String },
}

/// A value, as contracts speak of it.
pub ghost enum ValueModel {
    Numeric { val: i64 },
    Named { name: Seq<char> },
}

impl View for Value {
    type V = ValueModel;

    open spec fn view(&self) -> ValueModel {
        match self {
            Value::Numeric { val } => ValueModel::Numeric { val: *val },
            Value::Named { name } => ValueModel::Named { name: name@ },
        }
    }
}

impl Clone for Value {
    fn clone(&self) -> (copy: Self)
        ensures
            copy@ == self@,
    {
        match self {
            Value::Numeric { val } => Value::Numeric { val: *val },
            Value::Named { name } => Value::Named { name: name.clone() },
        }
    }
}

/// The definition of a constant.
#[derive(Debug, PartialEq)]
pub struct ConstantDeclaration {
    pub name: String,
    pub value: Value,
}

/// The definition of a constant, as contracts speak of it.
pub ghost struct ConstantModel {
    pub name: Seq<char>,
    pub value: ValueModel,
}

impl View for ConstantDeclaration {
    type V = ConstantModel;

    open spec fn view(&self) -> ConstantModel {
        ConstantModel { name: self.name@, value: self.value@ }
    }
}

impl Clone for ConstantDeclaration {
    fn clone(&self) -> (copy: Self)
        ensures
            copy@ == self@,
    {
        ConstantDeclaration { name: self.name.clone(), value: self.value.clone() }
    }
}

/// The digit that `c` stands for in a number of base `radix`, or `None`
/// where it stands for none. Letters count from ten, in either case.
pub open spec fn radix_digit(c: char, radix: nat) -> Option<nat> {
    let d = if '0' <= c <= '9' {
        c as u32 - 48
    } else if 'a' <= c <= 'z' {
        c as u32 - 87
    } else if 'A' <= c <= 'Z' {
        c as u32 - 55
    } else {
        radix as int
    };
    if d < radix {
        Some(d as nat)
    } else {
        None
    }
}

/// Whether `t` holds digits of base `radix` only.
pub open spec fn all_radix_digits(t: Seq<char>, radix: nat) -> bool {
    forall|i: int| 0 <= i < t.len() ==> radix_digit(#[trigger] t[i], radix) is Some
}

/// The number that the digits `t` spell in base `radix`.
pub open spec fn radix_value(t: Seq<char>, radix: nat) -> nat
    decreases t.len(),
{
    if t.len() == 0 {
        0
    } else {
        radix_value(t.drop_last(), radix) * radix + match radix_digit(t.last(), radix) {
            Some(d) => d,
            None => 0,
        }
    }
}

/// The 64-bit number that `t` spells in base `radix`: an optional sign, then
/// at least one digit. `None` where `t` spells no such number.
pub open spec fn parse_signed(t: Seq<char>, radix: nat) -> Option<i64> {
    let negative = t.len() > 0 && t[0] == '-';
    let digits = if t.len() > 0 && (t[0] == '+' || t[0] == '-') {
        t.skip(1)
    } else {
        t
    };
    let value = if negative {
        -(radix_value(digits, radix) as int)
    } else {
        radix_value(digits, radix) as int
    };
    if digits.len() == 0 || !all_radix_digits(digits, radix) || value < i64::MIN || value
        > i64::MAX {
        None
    } else {
        Some(value as i64)
    }
}

/// The number that a constant in a `.x` file spells: hexadecimal behind
/// `0x`, octal behind a leading `0`, decimal otherwise. `None` where the text
/// spells no 64-bit number.
pub open spec fn parse_number(t: Seq<char>) -> Option<i64> {
    if !is_ascii_chars(t) {
        None
    } else if t.len() >= 3 && t[0] == '0' && t[1] == 'x' {
        parse_signed(t.skip(2), 16)
    } else if t.len() >= 2 && t[0] == '0' {
        parse_signed(t.skip(1), 8)
    } else {
        parse_signed(t, 10)
    }
}

/// What the byte of an ASCII character says about the character.
proof fn lemma_ascii_digit(c: char, radix: nat)
    requires
        '\0' <= c <= '\u{7f}',
        2 <= radix <= 36,
    ensures
        (c as u8 == 43u8) == (c == '+'),
        (c as u8 == 45u8) == (c == '-'),
        (c as u8 == 48u8) == (c == '0'),
        (c as u8 == 120u8) == (c == 'x'),
        radix_digit(c, radix) == {
            let b = c as u8;
            let d: int = if 48 <= b <= 57 {
                b - 48
            } else if 97 <= b <= 122 {
                b - 87
            } else if 65 <= b <= 90 {
                b - 55
            } else {
                radix as int
            };
            if d < radix {
                Some(d as nat)
            } else {
                None
            }
        },
{
}

/// The number that digits spell is at least the number that their first
/// `n` spell.
proof fn lemma_radix_value_grows(t: Seq<char>, radix: nat, n: int)
    requires
        0 <= n <= t.len(),
        radix >= 1,
    ensures
        radix_value(t.take(n), radix) <= radix_value(t, radix),
    decreases t.len(),
{
    if n < t.len() {
        assert(t.drop_last().take(n) =~= t.take(n));
        lemma_radix_value_grows(t.drop_last(), radix, n);
        let front = radix_value(t.drop_last(), radix);
        assert(front <= front * radix) by (nonlinear_arith)
            requires
                radix >= 1,
                front >= 0,
        ;
    } else {
        assert(t.take(n) =~= t);
    }
}

/// Reads the characters of `text` from `from` on as a number in base
/// `radix`, with or without a sign.
fn read_signed(text: &str, from: usize, radix: u8) -> (r: Option<i64>)
    requires
        text.is_ascii(),
        from <= text@.len(),
        2 <= radix <= 36,
    ensures
        r == parse_signed(text@.skip(from as int), radix as nat),
{
    let len = text.unicode_len();
    let ghost part = text@.skip(from as int);
    let mut i: usize = from;
    let mut negative = false;
    if from < len {
        proof {
            lemma_ascii_digit(text@[from as int], radix as nat);
            assert(part[0] == text@[from as int]);
        }
        let sign = text.get_ascii(from);
        if sign == 43 {
            i = from + 1;
        } else if sign == 45 {
            i = from + 1;
            negative = true;
        }
    }
    let ghost digits = text@.skip(i as int);
    proof {
        if i == from + 1 {
            assert(part.skip(1) =~= digits);
        }
    }
    if i == len {
        return None;
    }
    let start = i;
    let mut value: u128 = 0;
    while i < len
        invariant
            start <= i <= len == text@.len(),
            text.is_ascii(),
            2 <= radix <= 36,
            digits == text@.skip(start as int),
            parse_signed(text@.skip(from as int), radix as nat) == {
                let value = if negative {
                    -(radix_value(digits, radix as nat) as int)
                } else {
                    radix_value(digits, radix as nat) as int
                };
                if !all_radix_digits(digits, radix as nat) || value < i64::MIN || value > i64::MAX {
                    None
                } else {
                    Some(value as i64)
                }
            },
            all_radix_digits(text@.subrange(start as int, i as int), radix as nat),
            value == radix_value(text@.subrange(start as int, i as int), radix as nat),
            value <= 0x8000_0000_0000_0000,
        decreases len - i,
    {
        let b = text.get_ascii(i);
        let ghost before = text@.subrange(start as int, i as int);
        let ghost after = text@.subrange(start as int, i + 1);
        proof {
            assert(after.drop_last() =~= before);
            assert(after.last() == text@[i as int]);
            assert(digits[i - start] == text@[i as int]);
            lemma_ascii_digit(text@[i as int], radix as nat);
        }
        let digit: u8 = if 48 <= b && b <= 57 {
            b - 48
        } else if 97 <= b && b <= 122 {
            b - 87
        } else if 65 <= b && b <= 90 {
            b - 55
        } else {
            radix
        };
        if digit >= radix {
            return None;
        }
        assert(value * (radix as u128) <= 0x8000_0000_0000_0000 * 36) by (nonlinear_arith)
            requires
                value <= 0x8000_0000_0000_0000,
                radix <= 36,
        ;
        value = value * (radix as u128) + digit as u128;
        if value > 0x8000_0000_0000_0000 {
            proof {
                lemma_radix_value_grows(digits, radix as nat, (i + 1 - start) as int);
                assert(digits.take(i + 1 - start) =~= after);
            }
            return None;
        }
        i += 1;
    }
    proof {
        assert(text@.subrange(start as int, i as int) =~= digits);
    }
    if negative {
        if value == 0x8000_0000_0000_0000 {
            Some(i64::MIN)
        } else {
            Some(-(value as i64))
        }
    } else if value == 0x8000_0000_0000_0000 {
        None
    } else {
        Some(value as i64)
    }
}

/// Reads a constant as it is written in a `.x` file: hexadecimal behind
/// `0x`, octal behind a leading `0`, decimal otherwise.
pub fn parse_num(text: &str) -> (r: Option<i64>)
    ensures
        r == parse_number(text@),
{
    if !text.is_ascii() {
        return None;
    }
    let len = text.unicode_len();
    proof {
        if len >= 1 {
            lemma_ascii_digit(text@[0], 10);
        }
        if len >= 2 {
            lemma_ascii_digit(text@[1], 10);
        }
        assert(text@.skip(0) =~= text@);
    }
    if len >= 3 && text.get_ascii(0) == 48 && text.get_ascii(1) == 120 {
        read_signed(text, 2, 16)
    } else if len >= 2 && text.get_ascii(0) == 48 {
        read_signed(text, 1, 8)
    } else {
        read_signed(text, 0, 10)
    }
}

} // verus!
