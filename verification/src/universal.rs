//! Universal addresses: an IP address and a port written as one text,
//! `<ip>.<port_hi>.<port_lo>`.
//!
//! The address part is carried as text. What it means as an IP address is for
//! the caller who opens the connection to say.

use crate::error::ClientError;
use vstd::prelude::*;
use vstd::string::{StrSliceExecFns, StringExecFns};
use vstd::utf8::is_ascii_chars;

verus! {

/// The character that stands for the digit `d`.
pub open spec fn digit_char(d: nat) -> char
    recommends
        d < 10,
{
    (d + 48) as char
}

/// Whether `c` is one of `0` to `9`.
pub open spec fn is_digit(c: char) -> bool {
    '0' <= c <= '9'
}

/// The digit that `c` stands for.
pub open spec fn digit_value(c: char) -> nat
    recommends
        is_digit(c),
{
    (c as u32 - 48) as nat
}

/// `n` in decimal, without leading zeros.
pub open spec fn decimal(n: nat) -> Seq<char>
    decreases n,
{
    if n < 10 {
        seq![digit_char(n)]
    } else {
        decimal(n / 10).push(digit_char(n % 10))
    }
}

/// Whether `t` holds digits only.
pub open spec fn all_digits(t: Seq<char>) -> bool {
    forall|i: int| 0 <= i < t.len() ==> is_digit(#[trigger] t[i])
}

/// The number that the digits `t` spell in decimal.
pub open spec fn digits_value(t: Seq<char>) -> nat
    decreases t.len(),
{
    if t.len() == 0 {
        0
    } else {
        digits_value(t.drop_last()) * 10 + digit_value(t.last())
    }
}

/// The number below 256 that `t` spells: digits, in any number and with or
/// without a plus sign in front. `None` where `t` spells no such number.
pub open spec fn parse_octet(t: Seq<char>) -> Option<u8> {
    let digits = if t.len() > 0 && t[0] == '+' {
        t.skip(1)
    } else {
        t
    };
    if digits.len() == 0 || !all_digits(digits) || digits_value(digits) > 255 {
        None
    } else {
        Some(digits_value(digits) as u8)
    }
}

/// The place of the last dot in `t`, or -1 where `t` has none.
pub open spec fn last_dot(t: Seq<char>) -> int
    decreases t.len(),
{
    if t.len() == 0 {
        -1
    } else if t.last() == '.' {
        t.len() - 1
    } else {
        last_dot(t.drop_last())
    }
}

/// The universal address of `host` and `port`.
pub open spec fn universal_text(host: Seq<char>, port: u16) -> Seq<char> {
    host + seq!['.'] + decimal((port / 256) as nat) + seq!['.'] + decimal((port % 256) as nat)
}

/// The host and the port that the universal address `text` names: the text
/// is cut at its last two dots, and the two parts behind them are the halves
/// of the port. `None` where `text` is no universal address.
pub open spec fn parse_universal(text: Seq<char>) -> Option<(Seq<char>, u16)> {
    let low_dot = last_dot(text);
    let high_dot = last_dot(text.take(low_dot));
    if !is_ascii_chars(text) || low_dot < 0 || high_dot < 0 {
        None
    } else {
        let high = parse_octet(text.subrange(high_dot + 1, low_dot));
        let low = parse_octet(text.subrange(low_dot + 1, text.len() as int));
        if high is None || low is None {
            None
        } else {
            Some((text.take(high_dot), (high.unwrap() * 256 + low.unwrap()) as u16))
        }
    }
}

/// An address and a port.
#[derive(Debug, PartialEq, Eq)]
pub struct UniversalAddr {
    host: String,
    port: u16,
}

/// The text of one digit.
fn digit_str(d: u8) -> (text: &'static str)
    requires
        d < 10,
    ensures
        text@ == seq![digit_char(d as nat)],
{
    proof {
        reveal_strlit("0");
        reveal_strlit("1");
        reveal_strlit("2");
        reveal_strlit("3");
        reveal_strlit("4");
        reveal_strlit("5");
        reveal_strlit("6");
        reveal_strlit("7");
        reveal_strlit("8");
        reveal_strlit("9");
    }
    let text = if d == 0 {
        "0"
    } else if d == 1 {
        "1"
    } else if d == 2 {
        "2"
    } else if d == 3 {
        "3"
    } else if d == 4 {
        "4"
    } else if d == 5 {
        "5"
    } else if d == 6 {
        "6"
    } else if d == 7 {
        "7"
    } else if d == 8 {
        "8"
    } else {
        "9"
    };
    assert(text@ =~= seq![digit_char(d as nat)]);
    text
}

/// Appends `n` in decimal to `out`.
pub fn push_decimal(out: &mut String, n: u8)
    ensures
        final(out)@ == old(out)@ + decimal(n as nat),
{
    if n >= 100 {
        out.append(digit_str(n / 100));
        out.append(digit_str(n / 10 % 10));
        out.append(digit_str(n % 10));
        proof {
            let h = (n / 100) as nat;
            let t = (n / 10 % 10) as nat;
            assert(decimal(h) =~= seq![digit_char(h)]);
            assert(decimal((n / 10) as nat) =~= seq![digit_char(h), digit_char(t)]);
            assert(out@ =~= old(out)@ + decimal(n as nat));
        }
    } else if n >= 10 {
        out.append(digit_str(n / 10));
        out.append(digit_str(n % 10));
        proof {
            assert(decimal((n / 10) as nat) =~= seq![digit_char((n / 10) as nat)]);
            assert(out@ =~= old(out)@ + decimal(n as nat));
        }
    } else {
        out.append(digit_str(n));
    }
}

/// Finds the last dot among the first `end` characters of `text`.
fn find_last_dot(text: &str, end: usize) -> (at: Option<usize>)
    requires
        text.is_ascii(),
        end <= text@.len(),
    ensures
        match at {
            Some(i) => i == last_dot(text@.take(end as int)) && i < end,
            None => last_dot(text@.take(end as int)) == -1,
        },
{
    let mut i: usize = end;
    while i > 0
        invariant
            i <= end <= text@.len(),
            text.is_ascii(),
            last_dot(text@.take(end as int)) == last_dot(text@.take(i as int)),
        decreases i,
    {
        let b = text.get_ascii(i - 1);
        proof {
            let t = text@.take(i as int);
            assert(t.last() == text@[i - 1]);
            assert(t.drop_last() =~= text@.take(i - 1));
            lemma_ascii_byte(text@[i - 1]);
        }
        if b == 46 {
            return Some(i - 1);
        }
        i -= 1;
    }
    None
}

/// What the byte of an ASCII character says about the character.
proof fn lemma_ascii_byte(c: char)
    requires
        '\0' <= c <= '\u{7f}',
    ensures
        (c as u8 == 46u8) == (c == '.'),
        (c as u8 == 43u8) == (c == '+'),
        (48u8 <= c as u8 <= 57u8) == is_digit(c),
        is_digit(c) ==> digit_value(c) == c as u8 - 48,
{
}

/// Reads the characters of `text` from `from` to `to` as a number below 256.
fn read_octet(text: &str, from: usize, to: usize) -> (r: Option<u8>)
    requires
        text.is_ascii(),
        from <= to <= text@.len(),
    ensures
        r == parse_octet(text@.subrange(from as int, to as int)),
{
    let ghost part = text@.subrange(from as int, to as int);
    let mut i: usize = from;
    if from < to {
        proof {
            lemma_ascii_byte(text@[from as int]);
        }
        if text.get_ascii(from) == 43 {
            i = from + 1;
        }
    }
    let ghost digits = text@.subrange(i as int, to as int);
    proof {
        if from < to {
            assert(part[0] == text@[from as int]);
        }
        if i == from + 1 {
            assert(part.skip(1) =~= digits);
        } else {
            assert(part =~= digits);
        }
    }
    if i == to {
        return None;
    }
    let start = i;
    let mut value: u32 = 0;
    while i < to
        invariant
            start <= i <= to <= text@.len(),
            text.is_ascii(),
            digits == text@.subrange(start as int, to as int),
            parse_octet(text@.subrange(from as int, to as int)) == if !all_digits(digits)
                || digits_value(digits) > 255 {
                None
            } else {
                Some(digits_value(digits) as u8)
            },
            all_digits(text@.subrange(start as int, i as int)),
            value == digits_value(text@.subrange(start as int, i as int)),
            value <= 255,
        decreases to - i,
    {
        let b = text.get_ascii(i);
        let ghost before = text@.subrange(start as int, i as int);
        let ghost after = text@.subrange(start as int, i + 1);
        proof {
            assert(after.drop_last() =~= before);
            assert(after.last() == text@[i as int]);
            assert(digits[i - start] == text@[i as int]);
            lemma_ascii_byte(text@[i as int]);
        }
        if b < 48 || b > 57 {
            return None;
        }
        value = value * 10 + (b - 48) as u32;
        if value > 255 {
            proof {
                lemma_digits_value_grows(digits, (i + 1 - start) as int);
                assert(digits.take(i + 1 - start) =~= after);
            }
            return None;
        }
        i += 1;
    }
    proof {
        assert(text@.subrange(start as int, i as int) =~= digits);
    }
    Some(value as u8)
}

/// The number that digits spell is at least the number that their first
/// `n` spell.
proof fn lemma_digits_value_grows(t: Seq<char>, n: int)
    requires
        0 <= n <= t.len(),
    ensures
        digits_value(t.take(n)) <= digits_value(t),
    decreases t.len(),
{
    if n < t.len() {
        assert(t.drop_last().take(n) =~= t.take(n));
        lemma_digits_value_grows(t.drop_last(), n);
    } else {
        assert(t.take(n) =~= t);
    }
}

impl UniversalAddr {
    /// The address part, as text.
    pub closed spec fn spec_host(&self) -> Seq<char> {
        self.host@
    }

    /// The port.
    pub closed spec fn spec_port(&self) -> u16 {
        self.port
    }

    /// The universal address of `host` and `port`.
    pub fn new(host: String, port: u16) -> (addr: Self)
        ensures
            addr.spec_host() == host@,
            addr.spec_port() == port,
    {
        UniversalAddr { host, port }
    }

    /// The address part, as text.
    pub fn host(&self) -> (host: &str)
        ensures
            host@ == self.spec_host(),
    {
        self.host.as_str()
    }

    /// The port.
    pub fn port(&self) -> (port: u16)
        ensures
            port == self.spec_port(),
    {
        self.port
    }

    /// Writes the address as `<ip>.<port_hi>.<port_lo>`.
    pub fn to_string(&self) -> (text: String)
        ensures
            text@ == universal_text(self.spec_host(), self.spec_port()),
    {
        let mut text = self.host.clone();
        proof {
            reveal_strlit(".");
        }
        assert("."@ =~= seq!['.']);
        text.append(".");
        push_decimal(&mut text, (self.port / 256) as u8);
        text.append(".");
        push_decimal(&mut text, (self.port % 256) as u8);
        text
    }

    /// Reads an address written as `<ip>.<port_hi>.<port_lo>`.
    pub fn from_str(text: &str) -> (r: Result<Self, ClientError>)
        ensures
            match r {
                Ok(addr) => parse_universal(text@) == Some((addr.spec_host(), addr.spec_port())),
                Err(e) => e == ClientError::InvalidAddress && parse_universal(text@) is None,
            },
    {
        if !text.is_ascii() {
            return Err(ClientError::InvalidAddress);
        }
        let len = text.unicode_len();
        proof {
            assert(text@.take(len as int) =~= text@);
        }
        let low_dot = match find_last_dot(text, len) {
            Some(at) => at,
            None => {
                return Err(ClientError::InvalidAddress);
            },
        };
        let high_dot = match find_last_dot(text, low_dot) {
            Some(at) => at,
            None => {
                return Err(ClientError::InvalidAddress);
            },
        };
        proof {
            lemma_last_dot_bound(text@.take(low_dot as int));
        }
        let high = match read_octet(text, high_dot + 1, low_dot) {
            Some(value) => value,
            None => {
                return Err(ClientError::InvalidAddress);
            },
        };
        let low = match read_octet(text, low_dot + 1, len) {
            Some(value) => value,
            None => {
                return Err(ClientError::InvalidAddress);
            },
        };
        let host = String::from_str(text.substring_ascii(0, high_dot));
        proof {
            assert(text@.subrange(0, high_dot as int) =~= text@.take(high_dot as int));
        }
        Ok(UniversalAddr { host, port: (high as u16) * 256 + low as u16 })
    }
}

/// The last dot lies inside the text.
pub proof fn lemma_last_dot_bound(t: Seq<char>)
    ensures
        -1 <= last_dot(t) < t.len(),
        last_dot(t) >= 0 ==> t[last_dot(t)] == '.',
    decreases t.len(),
{
    if t.len() > 0 && t.last() != '.' {
        lemma_last_dot_bound(t.drop_last());
    }
}

/// The decimal text of a number holds digits only and spells that number.
pub proof fn lemma_decimal(n: nat)
    ensures
        decimal(n).len() > 0,
        all_digits(decimal(n)),
        digits_value(decimal(n)) == n,
    decreases n,
{
    if n < 10 {
        let t = decimal(n);
        assert(t.drop_last() =~= Seq::<char>::empty());
        assert(digits_value(t.drop_last()) == 0);
    } else {
        lemma_decimal(n / 10);
        let t = decimal(n);
        assert(t.drop_last() =~= decimal(n / 10));
        assert(t.last() == digit_char(n % 10));
    }
}

/// Digits behind a text do not move its last dot.
pub proof fn lemma_last_dot_before_digits(t: Seq<char>, digits: Seq<char>)
    requires
        all_digits(digits),
    ensures
        last_dot(t + digits) == last_dot(t),
    decreases digits.len(),
{
    if digits.len() == 0 {
        assert(t + digits =~= t);
    } else {
        let all = t + digits;
        assert(all.last() == digits.last());
        assert(is_digit(digits[digits.len() - 1]));
        assert(all.drop_last() =~= t + digits.drop_last());
        lemma_last_dot_before_digits(t, digits.drop_last());
    }
}

/// Reading a universal address that was written for an ASCII host and a port
/// gives the host and the port back.
pub proof fn lemma_universal_round_trip(host: Seq<char>, port: u16)
    requires
        is_ascii_chars(host),
    ensures
        parse_universal(universal_text(host, port)) == Some((host, port)),
{
    let dot = seq!['.'];
    let high = decimal((port / 256) as nat);
    let low = decimal((port % 256) as nat);
    let text = universal_text(host, port);
    let front = host + dot + high;
    lemma_decimal((port / 256) as nat);
    lemma_decimal((port % 256) as nat);
    lemma_last_dot_before_digits(front + dot, low);
    assert((front + dot).last() == '.');
    assert(last_dot(text) == front.len());
    assert(text.take(front.len() as int) =~= front);
    lemma_last_dot_before_digits(host + dot, high);
    assert((host + dot).last() == '.');
    assert(last_dot(front) == host.len());
    assert(text.subrange(host.len() + 1 as int, front.len() as int) =~= high);
    assert(text.subrange(front.len() + 1 as int, text.len() as int) =~= low);
    assert(text.take(host.len() as int) =~= host);
    assert(is_digit(high[0]) && is_digit(low[0]));
    assert(is_ascii_chars(text)) by {
        assert forall|i: int| 0 <= i < text.len() implies '\0' <= #[trigger] text[i] <= '\u{7f}' by {
            if i < host.len() {
                assert(text[i] == host[i]);
            } else if i == host.len() {
            } else if i < front.len() {
                assert(text[i] == high[i - host.len() - 1]);
                assert(is_digit(high[i - host.len() - 1]));
            } else if i == front.len() {
            } else {
                assert(text[i] == low[i - front.len() - 1]);
                assert(is_digit(low[i - front.len() - 1]));
            }
        }
    }
}

} // verus!
