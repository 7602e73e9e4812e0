//! Decimal text: how counts are written out and read back.
//!
//! Counts are written without sign, separators or leading zeros. Reading
//! takes a little more than writing gives: a leading `+` and leading zeros
//! are accepted; anything else besides the ten digits is an error.

use vstd::prelude::*;

verus! {

/// Why a text is not a count that fits in 64 bits.
#[derive(Clone, Copy, Debug, PartialEq, Eq, Structural)]
pub enum LengthError {
    /// The text has no characters at all.
    Empty,
    /// A character that is no decimal digit comes before any overflow, or the
    /// text is a lone sign.
    InvalidDigit,
    /// The digits read so far already denote more than `u64::MAX`.
    Overflow,
}

/// The character that stands for the digit `d`, for `d` below ten.
pub open spec fn digit_char(d: nat) -> char {
    seq!['0', '1', '2', '3', '4', '5', '6', '7', '8', '9'][d as int]
}

/// The digit that `c` stands for, if it is one of `0` to `9`.
pub open spec fn digit_value(c: char) -> Option<nat> {
    if '0' <= c && c <= '9' {
        Some((c as nat - '0' as nat) as nat)
    } else {
        None
    }
}

/// The decimal notation of `n`, without sign or leading zeros.
pub open spec fn decimal(n: nat) -> Seq<char>
    decreases n,
{
    if n < 10 {
        seq![digit_char(n)]
    } else {
        decimal(n / 10).push(digit_char(n % 10))
    }
}

/// Reads `digits` from the left onto the value `acc` read so far. The first
/// character that is no digit, or that carries the value past `u64::MAX`,
/// decides the error.
pub open spec fn scan_digits(digits: Seq<char>, acc: nat) -> Result<u64, LengthError>
    decreases digits.len(),
{
    if digits.len() == 0 {
        Ok(acc as u64)
    } else {
        match digit_value(digits[0]) {
            None => Err(LengthError::InvalidDigit),
            Some(d) => if acc * 10 + d > u64::MAX {
                Err(LengthError::Overflow)
            } else {
                scan_digits(digits.drop_first(), acc * 10 + d)
            },
        }
    }
}

/// The count that `text` denotes: an optional `+`, then one or more decimal
/// digits whose value fits in 64 bits.
pub open spec fn length_of_text(text: Seq<char>) -> Result<u64, LengthError> {
    if text.len() == 0 {
        Err(LengthError::Empty)
    } else {
        let digits = if text[0] == '+' {
            text.drop_first()
        } else {
            text
        };
        if digits.len() == 0 {
            Err(LengthError::InvalidDigit)
        } else {
            scan_digits(digits, 0)
        }
    }
}

/// The characters of `s`, in order.
pub fn to_chars(s: &str) -> (v: Vec<char>)
    ensures
        v@ == s@,
{
    let mut v: Vec<char> = Vec::new();
    for c in it: s.chars()
        invariant
            v@ == it.seq().take(it.index()),
            it.seq() == s@,
    {
        v.push(c);
    }
    v
}

/// Reads a count from `text`.
pub fn parse_length(text: &str) -> (r: Result<u64, LengthError>)
    ensures
        r == length_of_text(text@),
{
    let chars = to_chars(text);
    let n = chars.len();
    if n == 0 {
        return Err(LengthError::Empty);
    }
    let start: usize = if chars[0] == '+' {
        1
    } else {
        0
    };
    if start == n {
        return Err(LengthError::InvalidDigit);
    }
    assert(chars@.skip(start as int) == if text@[0] == '+' {
        text@.drop_first()
    } else {
        text@
    });
    let mut acc: u64 = 0;
    let mut i: usize = start;
    while i < n
        invariant
            i <= n,
            n == chars@.len(),
            length_of_text(text@) == scan_digits(chars@.skip(i as int), acc as nat),
        decreases n - i,
    {
        let c = chars[i];
        let ghost rest = chars@.skip(i as int);
        assert(rest[0] == c);
        assert(rest.drop_first() == chars@.skip(i + 1));
        if c < '0' || c > '9' {
            return Err(LengthError::InvalidDigit);
        }
        let d: u64 = (c as u64) - ('0' as u64);
        if acc > (u64::MAX - d) / 10 {
            return Err(LengthError::Overflow);
        }
        acc = acc * 10 + d;
        i = i + 1;
    }
    assert(chars@.skip(n as int).len() == 0);
    Ok(acc)
}

/// The one-character text of the digit `d`.
fn digit_text(d: u64) -> (t: &'static str)
    requires
        d < 10,
    ensures
        t@ == seq![digit_char(d as nat)],
{
    proof {
        reveal_strlit("0");
        reveal_strlit("1");
        reveal_strlit("2");
        reveal_strlit("3");
        reveal_strlit("4");
        reveal_strlit("5");
        reveal_strlit("6");
        reveal_strlit("7");
        reveal_strlit("8");
        reveal_strlit("9");
    }
    let t = if d == 0 {
        "0"
    } else if d == 1 {
        "1"
    } else if d == 2 {
        "2"
    } else if d == 3 {
        "3"
    } else if d == 4 {
        "4"
    } else if d == 5 {
        "5"
    } else if d == 6 {
        "6"
    } else if d == 7 {
        "7"
    } else if d == 8 {
        "8"
    } else {
        "9"
    };
    assert(t@ =~= seq![digit_char(d as nat)]);
    t
}

/// Writes `n` in decimal at the end of `out`.
pub fn push_decimal(out: &mut String, n: u64)
    ensures
        final(out)@ == old(out)@ + decimal(n as nat),
    decreases n,
{
    if n >= 10 {
        push_decimal(out, n / 10);
    }
    out.append(digit_text(n % 10));
    assert(out@ =~= old(out)@ + decimal(n as nat));
}

} // verus!
