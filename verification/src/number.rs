//! Whole numbers as text, written and read.

use crate::text::chars_of;
use vstd::prelude::*;

verus! {

/// Why a text is not a number.
#[derive(Clone, Copy, Debug, PartialEq, Eq, Structural)]
pub enum NumberError {
    Empty,
    InvalidDigit,
    TooLarge,
}

impl NumberError {
    /// The reason in words.
    pub open spec fn text(self) -> Seq<char> {
        match self {
            NumberError::Empty => "cannot parse integer from empty string"@,
            NumberError::InvalidDigit => "invalid digit found in string"@,
            NumberError::TooLarge => "number too large to fit in target type"@,
        }
    }

    /// The reason in words.
    pub fn message(&self) -> (r: String)
        ensures
            r@ == self.text(),
    {
        match self {
            NumberError::Empty => "cannot parse integer from empty string".to_string(),
            NumberError::InvalidDigit => "invalid digit found in string".to_string(),
            NumberError::TooLarge => "number too large to fit in target type".to_string(),
        }
    }
}

// Writing

/// The digit for a value below sixteen: `0` to `9`, then `A` to `F`.
pub open spec fn digit_char(d: nat) -> char {
    if d < 10 {
        ((48 + d) as u32) as char
    } else {
        ((55 + d) as u32) as char
    }
}

/// The digits of `n` to the base `radix`, without leading zeros.
pub open spec fn digits(n: nat, radix: nat) -> Seq<char>
    decreases n,
{
    if radix < 2 || n < radix {
        seq![digit_char(n)]
    } else {
        proof {
            assert(n / radix < n) by (nonlinear_arith)
                requires
                    n >= radix >= 2,
            ;
        }
        digits(n / radix, radix).push(digit_char(n % radix))
    }
}

/// A number in decimal.
pub open spec fn decimal_text(n: nat) -> Seq<char> {
    digits(n, 10)
}

/// A number in hexadecimal, with zeros in front up to four digits.
pub open spec fn hex_text(n: nat) -> Seq<char> {
    let d = digits(n, 16);
    zeros((4 - d.len()) as int) + d
}

/// So many zeros; none for a negative number.
pub open spec fn zeros(n: int) -> Seq<char> {
    Seq::new(if n > 0 { n as nat } else { 0 }, |i: int| '0')
}

fn digit(d: u64) -> (c: char)
    requires
        d < 16,
    ensures
        c == digit_char(d as nat),
{
    if d < 10 {
        (48u8 + d as u8) as char
    } else {
        (55u8 + d as u8) as char
    }
}

fn push_digits(s: &mut String, n: u64, radix: u64)
    requires
        2 <= radix <= 16,
    ensures
        final(s)@ == old(s)@ + digits(n as nat, radix as nat),
    decreases n,
{
    if n < radix {
        s.push(digit(n));
        assert(s@ =~= old(s)@ + digits(n as nat, radix as nat));
    } else {
        assert(n / radix < n) by (nonlinear_arith)
            requires
                n >= radix >= 2,
        ;
        push_digits(s, n / radix, radix);
        let d: u64 = n % radix;
        s.push(digit(d));
        assert(s@ =~= old(s)@ + digits(n as nat, radix as nat));
    }
}

/// Writes a number in decimal.
pub fn decimal(n: u64) -> (r: String)
    ensures
        r@ == decimal_text(n as nat),
{
    let mut r: String = String::new();
    push_digits(&mut r, n, 10);
    assert(r@ =~= decimal_text(n as nat));
    r
}

/// Writes a number in hexadecimal with at least four digits.
pub fn hex(n: u32) -> (r: String)
    ensures
        r@ == hex_text(n as nat),
{
    let mut d: String = String::new();
    push_digits(&mut d, n as u64, 16);
    assert(d@ =~= digits(n as nat, 16));
    let len: usize = chars_of(d.as_str()).len();
    let mut r: String = String::new();
    let mut i: usize = len;
    assert(r@ =~= zeros(i - len));
    while i < 4
        invariant
            len <= i,
            i <= 4 || i == len,
            r@ == zeros(i - len),
        decreases 4 - i,
    {
        r.push('0');
        i += 1;
        assert(r@ =~= zeros(i - len));
    }
    assert(r@ =~= zeros(4 - len));
    r.append(d.as_str());
    r
}

// Reading

/// What a character is worth as a digit to the base `radix`.
pub open spec fn digit_value(c: char, radix: nat) -> Option<nat> {
    let n = c as nat;
    let v: int = if 48 <= n <= 57 {
        n - 48
    } else if 65 <= n <= 90 {
        n - 55
    } else if 97 <= n <= 122 {
        n - 87
    } else {
        radix as int
    };
    if v < radix {
        Some(v as nat)
    } else {
        None
    }
}

/// Reads digits from left to right on top of `acc`, up to the first that is no digit or makes the
/// number larger than `max`.
pub open spec fn read_digits(s: Seq<char>, radix: nat, max: nat, acc: nat) -> Result<
    nat,
    NumberError,
>
    decreases s.len(),
{
    if s.len() == 0 {
        Ok(acc)
    } else {
        match digit_value(s.first(), radix) {
            None => Err(NumberError::InvalidDigit),
            Some(d) => if acc * radix + d > max {
                Err(NumberError::TooLarge)
            } else {
                read_digits(s.drop_first(), radix, max, acc * radix + d)
            },
        }
    }
}

/// The number that a text stands for: digits to the base `radix`, behind one `+` if there is one.
pub open spec fn number_of(s: Seq<char>, radix: nat, max: nat) -> Result<nat, NumberError> {
    if s.len() == 0 {
        Err(NumberError::Empty)
    } else if s.first() == '+' {
        if s.len() == 1 {
            Err(NumberError::InvalidDigit)
        } else {
            read_digits(s.drop_first(), radix, max, 0)
        }
    } else {
        read_digits(s, radix, max, 0)
    }
}

fn value_of_digit(c: char, radix: u64) -> (r: Option<u64>)
    requires
        2 <= radix <= 36,
    ensures
        r is Some <==> digit_value(c, radix as nat) is Some,
        r matches Some(v) ==> digit_value(c, radix as nat) == Some(v as nat) && v < radix,
{
    let n: u32 = c as u32;
    let v: u64 = if 48 <= n && n <= 57 {
        (n - 48) as u64
    } else if 65 <= n && n <= 90 {
        (n - 55) as u64
    } else if 97 <= n && n <= 122 {
        (n - 87) as u64
    } else {
        radix
    };
    if v < radix {
        Some(v)
    } else {
        None
    }
}

/// Reads a number to the base `radix` that is no larger than `max`.
pub fn parse_number(s: &str, radix: u64, max: u64) -> (r: Result<u64, NumberError>)
    requires
        2 <= radix <= 36,
    ensures
        match r {
            Ok(n) => number_of(s@, radix as nat, max as nat) == Ok::<nat, NumberError>(n as nat) && n <= max,
            Err(e) => number_of(s@, radix as nat, max as nat) == Err::<nat, NumberError>(e),
        },
{
    let v = chars_of(s);
    if v.len() == 0 {
        return Err(NumberError::Empty);
    }
    let mut i: usize = 0;
    if v[0] == '+' {
        if v.len() == 1 {
            return Err(NumberError::InvalidDigit);
        }
        i = 1;
    }
    let mut acc: u64 = 0;
    assert(v@.skip(0) =~= v@);
    assert(v@.skip(1) =~= v@.drop_first());
    while i < v.len()
        invariant
            2 <= radix <= 36,
            0 <= i <= v.len(),
            acc <= max,
            number_of(s@, radix as nat, max as nat) == read_digits(
                v@.skip(i as int),
                radix as nat,
                max as nat,
                acc as nat,
            ),
        decreases v.len() - i,
    {
        assert(v@.skip(i as int).drop_first() =~= v@.skip(i + 1));
        match value_of_digit(v[i], radix) {
            None => {
                return Err(NumberError::InvalidDigit);
            },
            Some(d) => {
                assert(0 <= acc * radix <= 36 * 0xFFFF_FFFF_FFFF_FFFF) by (nonlinear_arith)
                    requires
                        0 <= acc <= 0xFFFF_FFFF_FFFF_FFFF,
                        radix <= 36,
                ;
                let next: u128 = acc as u128 * radix as u128 + d as u128;
                if next > max as u128 {
                    return Err(NumberError::TooLarge);
                }
                acc = next as u64;
            },
        }
        i += 1;
    }
    Ok(acc)
}

// What is written can be read

proof fn lemma_digit_value(d: nat, radix: nat)
    requires
        d < radix <= 16,
    ensures
        digit_value(digit_char(d), radix) == Some(d),
{
}

/// Digits are read one after the other: what stands behind is read on top of what stands in front.
pub proof fn lemma_read_appended(a: Seq<char>, b: Seq<char>, radix: nat, max: nat, acc: nat)
    ensures
        read_digits(a + b, radix, max, acc) == match read_digits(a, radix, max, acc) {
            Ok(n) => read_digits(b, radix, max, n),
            Err(e) => Err(e),
        },
    decreases a.len(),
{
    if a.len() == 0 {
        assert(a + b =~= b);
    } else {
        assert((a + b).drop_first() =~= a.drop_first() + b);
        match digit_value(a.first(), radix) {
            None => {},
            Some(d) => {
                lemma_read_appended(a.drop_first(), b, radix, max, acc * radix + d);
            },
        }
    }
}

proof fn lemma_read_digits(n: nat, radix: nat, max: nat)
    requires
        2 <= radix <= 16,
        n <= max,
    ensures
        read_digits(digits(n, radix), radix, max, 0) == Ok::<nat, NumberError>(n),
        digits(n, radix).len() > 0,
        digits(n, radix).first() != '+',
        forall|i: int| 0 <= i < digits(n, radix).len() ==> is_digit(#[trigger] digits(n, radix)[i]),
    decreases n,
{
    reveal_with_fuel(read_digits, 2);
    if n < radix {
        lemma_digit_value(n, radix);
        assert(0 * radix == 0) by (nonlinear_arith);
        assert(seq![digit_char(n)].drop_first() =~= seq![]);
    } else {
        let q = n / radix;
        let d = n % radix;
        assert(q < n && q * radix + d == n) by (nonlinear_arith)
            requires
                n >= radix >= 2,
                q == n / radix,
                d == n % radix,
        ;
        lemma_read_digits(q, radix, max);
        lemma_digit_value(d, radix);
        let last = seq![digit_char(d)];
        lemma_read_appended(digits(q, radix), last, radix, max, 0);
        assert(digits(n, radix) =~= digits(q, radix) + last);
        assert(last.drop_first() =~= seq![]);
    }
}

/// A decimal digit or a letter from `A` to `F`.
pub open spec fn is_digit(c: char) -> bool {
    '0' <= c <= '9' || 'A' <= c <= 'F'
}

/// A number that has been written in decimal is read back as it was, and what was written is a row
/// of digits.
pub proof fn decimal_reads_back(n: nat, max: nat)
    requires
        n <= max,
    ensures
        number_of(decimal_text(n), 10, max) == Ok::<nat, NumberError>(n),
        decimal_text(n).len() > 0,
        forall|i: int| 0 <= i < decimal_text(n).len() ==> is_digit(#[trigger] decimal_text(n)[i]),
{
    lemma_read_digits(n, 10, max);
}

// Bytes

/// The lowest `n` bytes of a value, the least significant first.
pub open spec fn low_bytes(v: nat, n: nat) -> Seq<u8>
    decreases n,
{
    if n == 0 {
        seq![]
    } else {
        seq![(v % 256) as u8] + low_bytes(v / 256, (n - 1) as nat)
    }
}

} // verus!
