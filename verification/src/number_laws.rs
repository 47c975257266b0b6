//! What numbers are worth, as they are written and as they are read.

use crate::number;
use crate::number::NumberError;
use crate::trusted;
use crate::utils;
use vstd::prelude::*;

verus! {

/// The hexadecimal digits, in the order of what they are worth.
pub open spec fn hex_digits() -> Seq<char> {
    "0123456789ABCDEF"@
}

/// Whether a character is the hexadecimal digit that is worth `d`, in either case.
pub open spec fn is_hex_digit(c: char, d: nat) -> bool {
    ||| d < 16 && c == hex_digits()[d as int]
    ||| 10 <= d < 16 && c == "abcdef"@[d - 10]
}

/// Whether a text of hexadecimal digits, in either case, stands for `n`.
pub open spec fn is_hex(s: Seq<char>, n: nat) -> bool
    decreases s.len(),
{
    if s.len() == 0 {
        n == 0
    } else {
        is_hex_digit(s.last(), n % 16) && is_hex(s.drop_last(), n / 16)
    }
}

proof fn lemma_digit_char(d: nat)
    requires
        d < 16,
    ensures
        is_hex_digit(number::digit_char(d), d),
        d < 10 ==> '0' <= number::digit_char(d) <= '9' && number::digit_char(d) as nat == 48 + d,
        d > 0 ==> number::digit_char(d) != '0',
{
    reveal_strlit("0123456789ABCDEF");
    if d < 10 {
        assert(hex_digits()[d as int] as nat == 48 + d);
    } else {
        assert(hex_digits()[d as int] as nat == 55 + d);
    }
}

proof fn lemma_decimal_digits(n: nat)
    ensures
        trusted::all_digits(number::digits(n, 10)),
        trusted::digits_value(number::digits(n, 10)) == n,
        number::digits(n, 10).len() > 0,
        n > 0 ==> number::digits(n, 10)[0] != '0',
        n < 10 ==> number::digits(n, 10).len() == 1,
    decreases n,
{
    let s = number::digits(n, 10);
    lemma_digit_char(n % 10);
    reveal_with_fuel(trusted::digits_value, 2);
    if n >= 10 {
        lemma_decimal_digits(n / 10);
        assert(s.drop_last() =~= number::digits(n / 10, 10));
        assert(s[0] == number::digits(n / 10, 10)[0]);
    } else {
        lemma_digit_char(n);
        assert(s.drop_last() =~= seq![]);
    }
}

/// A number is written in decimal: the digits stand for it, and there is no zero in front.
pub proof fn decimal_stands_for_the_number(n: nat)
    ensures
        trusted::all_digits(number::decimal_text(n)),
        trusted::digits_value(number::decimal_text(n)) == n,
        number::decimal_text(n).len() > 0,
        n > 0 ==> number::decimal_text(n)[0] != '0',
        n == 0 ==> number::decimal_text(n).len() == 1,
{
    lemma_decimal_digits(n);
}

proof fn lemma_hex_digits(n: nat)
    ensures
        is_hex(number::digits(n, 16), n),
        number::digits(n, 16).len() > 0,
        n > 0 ==> number::digits(n, 16)[0] != '0',
        n == 0 ==> number::digits(n, 16).len() == 1,
    decreases n,
{
    let s = number::digits(n, 16);
    lemma_digit_char(n % 16);
    if n >= 16 {
        lemma_hex_digits(n / 16);
        assert(s.drop_last() =~= number::digits(n / 16, 16));
        assert(s[0] == number::digits(n / 16, 16)[0]);
    } else {
        lemma_digit_char(n);
        reveal_with_fuel(is_hex, 2);
        assert(s.drop_last() =~= seq![]);
    }
}

proof fn lemma_zeros_in_front(s: Seq<char>, n: nat, k: int)
    requires
        is_hex(s, n),
        k >= 0,
    ensures
        is_hex(number::zeros(k) + s, n),
    decreases s.len() + k,
{
    let t = number::zeros(k) + s;
    if s.len() > 0 {
        assert(t.drop_last() =~= number::zeros(k) + s.drop_last());
        assert(t.last() == s.last());
        lemma_zeros_in_front(s.drop_last(), n / 16, k);
    } else if k > 0 {
        reveal_strlit("0123456789ABCDEF");
        assert(t.drop_last() =~= number::zeros(k - 1) + s);
        assert(t.last() == '0');
        lemma_zeros_in_front(s, 0, k - 1);
    } else {
        assert(t =~= s);
    }
}

/// A number is written in hexadecimal with four digits at least, and with no zero in front where
/// there are more: the digits stand for it.
pub proof fn hex_stands_for_the_number(n: nat)
    ensures
        is_hex(number::hex_text(n), n),
        number::hex_text(n).len() >= 4,
        number::hex_text(n).len() > 4 ==> number::hex_text(n)[0] != '0',
{
    let d = number::digits(n, 16);
    lemma_hex_digits(n);
    if d.len() < 4 {
        lemma_zeros_in_front(d, n, 4 - d.len());
    } else {
        assert(number::zeros((4 - d.len()) as int) =~= seq![]);
        assert(number::hex_text(n) =~= d);
    }
}

proof fn lemma_read_decimal(s: Seq<char>, max: nat)
    requires
        trusted::all_digits(s),
    ensures
        number::read_digits(s, 10, max, 0) == if trusted::digits_value(s) <= max {
            Ok::<nat, NumberError>(trusted::digits_value(s))
        } else {
            Err(NumberError::TooLarge)
        },
    decreases s.len(),
{
    if s.len() > 0 {
        let front = s.drop_last();
        let last = seq![s.last()];
        assert('0' <= s[s.len() - 1] <= '9');
        assert forall|i: int| 0 <= i < front.len() implies '0' <= #[trigger] front[i] <= '9' by {
            assert(front[i] == s[i]);
        }
        lemma_read_decimal(front, max);
        assert(s =~= front + last);
        number::lemma_read_appended(front, last, 10, max, 0);
        reveal_with_fuel(number::read_digits, 2);
        assert(last.drop_first() =~= seq![]);
    }
}

/// A text of decimal digits is read as the number that it stands for, up to the largest number that
/// is allowed; a plus sign in front does not matter.
pub proof fn decimal_digits_are_read(s: Seq<char>, max: nat)
    requires
        s.len() > 0,
        trusted::all_digits(s),
    ensures
        ({
            let v = trusted::digits_value(s);
            let r = number::number_of(s, 10, max);
            &&& v <= max ==> r == Ok::<nat, NumberError>(v)
            &&& v > max ==> r == Err::<nat, NumberError>(NumberError::TooLarge)
            &&& number::number_of(seq!['+'] + s, 10, max) == r
        }),
{
    lemma_read_decimal(s, max);
    assert('0' <= s[0] <= '9');
    assert((seq!['+'] + s).drop_first() =~= s);
}

/// What is read as a number in decimal is a text of digits, perhaps behind a plus sign.
pub proof fn only_decimal_digits_are_read(s: Seq<char>, max: nat)
    ensures
        number::number_of(s, 10, max) is Ok ==> s.len() > 0 && (trusted::all_digits(s) || (s[0]
            == '+' && s.len() > 1 && trusted::all_digits(s.drop_first()))),
        s.len() == 0 ==> number::number_of(s, 10, max) == Err::<nat, NumberError>(
            NumberError::Empty,
        ),
{
    if s.len() > 0 {
        if s[0] == '+' {
            lemma_read_only_digits(s.drop_first(), max, 0);
        } else {
            lemma_read_only_digits(s, max, 0);
        }
    }
}

proof fn lemma_decimal_digit(c: char)
    ensures
        number::digit_value(c, 10) is Some ==> '0' <= c <= '9',
{
}

proof fn lemma_read_only_digits(s: Seq<char>, max: nat, acc: nat)
    ensures
        number::read_digits(s, 10, max, acc) is Ok ==> trusted::all_digits(s),
    decreases s.len(),
{
    if s.len() > 0 {
        match number::digit_value(s.first(), 10) {
            Some(d) => {
                let rest = s.drop_first();
                lemma_read_only_digits(rest, max, acc * 10 + d);
                if number::read_digits(s, 10, max, acc) is Ok {
                    assert(trusted::all_digits(rest));
                    lemma_decimal_digit(s[0]);
                    assert forall|i: int| 0 <= i < s.len() implies '0' <= #[trigger] s[i] <= '9' by {
                        if i > 0 {
                            assert(rest[i - 1] == s[i]);
                        }
                    }
                }
            },
            None => {},
        }
    }
}

proof fn lemma_hex_digit(c: char, d: nat)
    requires
        is_hex_digit(c, d),
    ensures
        d < 16,
        number::digit_value(c, 16) == Some(d),
        c != '+',
{
    reveal_strlit("0123456789ABCDEF");
    reveal_strlit("abcdef");
    if c == hex_digits()[d as int] {
        if d < 10 {
            assert(hex_digits()[d as int] as nat == 48 + d);
        } else {
            assert(hex_digits()[d as int] as nat == 55 + d);
        }
    } else {
        assert("abcdef"@[d - 10] as nat == 87 + d);
    }
}

proof fn lemma_read_hex(s: Seq<char>, n: nat, max: nat)
    requires
        is_hex(s, n),
        n <= max,
    ensures
        number::read_digits(s, 16, max, 0) == Ok::<nat, NumberError>(n),
    decreases s.len(),
{
    if s.len() > 0 {
        let front = s.drop_last();
        let last = seq![s.last()];
        lemma_hex_digit(s.last(), n % 16);
        lemma_read_hex(front, n / 16, max);
        assert(s =~= front + last);
        number::lemma_read_appended(front, last, 16, max, 0);
        reveal_with_fuel(number::read_digits, 2);
        assert(last.drop_first() =~= seq![]);
    }
}

proof fn lemma_first_of_hex(s: Seq<char>, n: nat)
    requires
        is_hex(s, n),
        s.len() > 0,
    ensures
        s.first() != '+',
    decreases s.len(),
{
    if s.len() == 1 {
        lemma_hex_digit(s.last(), n % 16);
    } else {
        lemma_first_of_hex(s.drop_last(), n / 16);
        assert(s.drop_last().first() == s.first());
    }
}

/// The id of a device type is read from decimal digits, and from hexadecimal digits of either case
/// behind `0x`.
pub proof fn device_type_ids_are_read(s: Seq<char>, n: nat)
    requires
        s.len() > 0,
        n <= 0xFFFF_FFFF,
    ensures
        trusted::all_digits(s) && trusted::digits_value(s) == n ==> utils::device_type_id(s) == Some(
            n,
        ),
        is_hex(s, n) ==> utils::device_type_id("0x"@ + s) == Some(n),
{
    reveal_strlit("0x");
    let t = "0x"@ + s;
    assert(t.subrange(0, 2) =~= "0x"@);
    assert(t.skip(2) =~= s);
    if trusted::all_digits(s) && trusted::digits_value(s) == n {
        decimal_digits_are_read(s, 0xFFFF_FFFF);
        if crate::text::begins_with(s, "0x"@) {
            assert(s.subrange(0, 2)[1] == s[1]);
        }
    }
    if is_hex(s, n) {
        lemma_read_hex(s, n, 0xFFFF_FFFF);
        lemma_first_of_hex(s, n);
    }
}

/// A device type without a name is shown by its id, and the id can be read from what is shown.
pub proof fn shown_device_type_reads_back(id: u32)
    ensures
        utils::device_type_id(utils::device_type_text(id, None)) == Some(id as nat),
{
    hex_stands_for_the_number(id as nat);
    device_type_ids_are_read(number::hex_text(id as nat), id as nat);
}

proof fn lemma_read_fits(s: Seq<char>, radix: nat, max: nat, acc: nat)
    requires
        acc <= max,
    ensures
        number::read_digits(s, radix, max, acc) matches Ok(n) ==> n <= max,
    decreases s.len(),
{
    if s.len() > 0 {
        if let Some(d) = number::digit_value(s.first(), radix) {
            if acc * radix + d <= max {
                lemma_read_fits(s.drop_first(), radix, max, acc * radix + d);
            }
        }
    }
}

/// A number that has been read is not above the limit.
pub proof fn read_numbers_fit(s: Seq<char>, radix: nat, max: nat)
    ensures
        number::number_of(s, radix, max) matches Ok(n) ==> n <= max,
{
    lemma_read_fits(s, radix, max, 0);
    if s.len() > 0 {
        lemma_read_fits(s.drop_first(), radix, max, 0);
    }
}

} // verus!
