//! Setup codes: the passcode of a device, as digits, as a manual pairing code or as the payload of
//! a QR code.

use crate::number;
use crate::text;
use crate::text::{chars_of, find, index_of, stands_at, string_of, substring, trim};
use crate::trusted;
use crate::trusted::decode_manual_pairing_code;
use vstd::arithmetic::power2;
use vstd::prelude::*;

verus! {

/// Why a text holds no passcode.
#[derive(Clone, Copy, Debug, PartialEq, Eq, Structural)]
pub enum SetupCodeError {
    Empty,
    UnsupportedFormat,
    InvalidManualPairingCode,
    MissingPrefix,
    PayloadTooShort,
    InvalidLength,
    InvalidCharacter(char),
}

impl SetupCodeError {
    /// The reason in words.
    pub open spec fn text(self) -> Seq<char> {
        match self {
            SetupCodeError::Empty => "setup code is empty"@,
            SetupCodeError::UnsupportedFormat =>
                "unsupported setup code format; use an 8-digit passcode, manual pairing code, or MT: QR payload"@,
            SetupCodeError::InvalidManualPairingCode => "invalid manual pairing code"@,
            SetupCodeError::MissingPrefix => "QR payload must start with MT:"@,
            SetupCodeError::PayloadTooShort => "QR payload is too short"@,
            SetupCodeError::InvalidLength => "invalid base38 payload length"@,
            SetupCodeError::InvalidCharacter(c) => "invalid base38 character: "@ + seq![c],
        }
    }

    /// The reason in words.
    pub fn message(&self) -> (r: String)
        ensures
            r@ == self.text(),
    {
        match self {
            SetupCodeError::Empty => "setup code is empty".to_string(),
            SetupCodeError::UnsupportedFormat =>
                "unsupported setup code format; use an 8-digit passcode, manual pairing code, or MT: QR payload".to_string(),
            SetupCodeError::InvalidManualPairingCode => "invalid manual pairing code".to_string(),
            SetupCodeError::MissingPrefix => "QR payload must start with MT:".to_string(),
            SetupCodeError::PayloadTooShort => "QR payload is too short".to_string(),
            SetupCodeError::InvalidLength => "invalid base38 payload length".to_string(),
            SetupCodeError::InvalidCharacter(c) => {
                let mut r: String = "invalid base38 character: ".to_string();
                r.push(*c);
                assert(r@ =~= self.text());
                r
            },
        }
    }
}

// Base 38

/// What a byte is worth as a digit to the base 38: `0` to `9`, `A` to `Z`, `-` and `.`.
pub open spec fn base38_digit(b: u8) -> Option<nat> {
    if 48 <= b <= 57 {
        Some((b - 48) as nat)
    } else if 65 <= b <= 90 {
        Some((b - 55) as nat)
    } else if b == 45 {
        Some(36)
    } else if b == 46 {
        Some(37)
    } else {
        None
    }
}

/// The value of a group of digits, the least significant first; or the first byte that is no digit.
pub open spec fn base38_value(group: Seq<u8>) -> Result<nat, u8>
    decreases group.len(),
{
    if group.len() == 0 {
        Ok(0)
    } else {
        match base38_digit(group.first()) {
            None => Err(group.first()),
            Some(d) => match base38_value(group.drop_first()) {
                Ok(v) => Ok(d + 38 * v),
                Err(b) => Err(b),
            },
        }
    }
}

/// How many digits of the `n` that are left make the next group, and how many bytes they stand for.
pub open spec fn base38_group(n: nat) -> Option<(nat, nat)> {
    if n >= 5 {
        Some((5, 3))
    } else if n == 4 {
        Some((4, 2))
    } else if n == 2 {
        Some((2, 1))
    } else {
        None
    }
}

/// The bytes that a row of digits stands for.
pub open spec fn base38_bytes(s: Seq<u8>) -> Result<Seq<u8>, SetupCodeError>
    decreases s.len(),
{
    if s.len() == 0 {
        Ok(seq![])
    } else {
        match base38_group(s.len()) {
            None => Err(SetupCodeError::InvalidLength),
            Some((digits, bytes)) => match base38_value(s.take(digits as int)) {
                Err(b) => Err(SetupCodeError::InvalidCharacter(b as char)),
                Ok(v) => match base38_bytes(s.skip(digits as int)) {
                    Ok(rest) => Ok(number::low_bytes(v, bytes) + rest),
                    Err(e) => Err(e),
                },
            },
        }
    }
}

fn digit_of(b: u8) -> (r: Option<u32>)
    ensures
        r is Some <==> base38_digit(b) is Some,
        r matches Some(d) ==> base38_digit(b) == Some(d as nat) && d < 38,
{
    if 48 <= b && b <= 57 {
        Some((b - 48) as u32)
    } else if 65 <= b && b <= 90 {
        Some((b - 55) as u32)
    } else if b == 45 {
        Some(36)
    } else if b == 46 {
        Some(37)
    } else {
        None
    }
}

spec fn pow38(n: nat) -> nat
    decreases n,
{
    if n == 0 {
        1
    } else {
        38 * pow38((n - 1) as nat)
    }
}

proof fn lemma_bad_digit(s: Seq<u8>, i: int)
    requires
        0 <= i < s.len(),
        base38_digit(s[i]) is None,
        forall|j: int| 0 <= j < i ==> base38_digit(#[trigger] s[j]) is Some,
    ensures
        base38_value(s) == Err::<nat, u8>(s[i]),
    decreases i,
{
    if i > 0 {
        assert(base38_digit(s[0]) is Some);
        let rest = s.drop_first();
        assert forall|j: int| 0 <= j < i - 1 implies base38_digit(#[trigger] rest[j]) is Some by {
            assert(rest[j] == s[j + 1]);
        }
        lemma_bad_digit(rest, i - 1);
    }
}

/// The value of a group of at most five digits.
fn group_value(s: &[u8], from: usize, digits: usize) -> (r: Result<u32, u8>)
    requires
        digits <= 5,
        from + digits <= s@.len(),
    ensures
        match r {
            Ok(v) => base38_value(s@.subrange(from as int, from + digits)) == Ok::<nat, u8>(v as nat),
            Err(b) => base38_value(s@.subrange(from as int, from + digits)) == Err::<nat, u8>(b),
        },
{
    let ghost group = s@.subrange(from as int, from + digits);
    let mut j: usize = 0;
    while j < digits
        invariant
            digits <= 5,
            from + digits <= s.len(),
            group == s@.subrange(from as int, from + digits),
            0 <= j <= digits,
            forall|k: int| 0 <= k < j ==> base38_digit(#[trigger] group[k]) is Some,
        decreases digits - j,
    {
        if digit_of(s[from + j]).is_none() {
            proof {
                lemma_bad_digit(group, j as int);
            }
            return Err(s[from + j]);
        }
        j += 1;
    }
    let mut i: usize = digits;
    let mut value: u32 = 0;
    assert(group.skip(digits as int) =~= seq![]);
    proof {
        reveal_with_fuel(pow38, 6);
    }
    while i > 0
        invariant
            digits <= 5,
            from + digits <= s.len(),
            group == s@.subrange(from as int, from + digits),
            0 <= i <= digits,
            forall|k: int| 0 <= k < digits ==> base38_digit(#[trigger] group[k]) is Some,
            base38_value(group.skip(i as int)) == Ok::<nat, u8>(value as nat),
            value < pow38((digits - i) as nat),
            pow38(0) == 1,
            pow38(1) == 38,
            pow38(2) == 1444,
            pow38(3) == 54872,
            pow38(4) == 2085136,
            pow38(5) == 79235168,
        decreases i,
    {
        i -= 1;
        assert(group.skip(i as int).drop_first() =~= group.skip(i + 1));
        assert(group[i as int] == s@[from + i]);
        match digit_of(s[from + i]) {
            Some(d) => {
                assert(pow38((digits - i) as nat) == 38 * pow38((digits - i - 1) as nat));
                value = d + 38 * value;
            },
            None => {},
        }
    }
    assert(group.skip(0) =~= group);
    Ok(value)
}

/// Decodes a text to the base 38.
pub fn base38_decode(input: &str) -> (r: Result<Vec<u8>, SetupCodeError>)
    ensures
        match r {
            Ok(bytes) => base38_bytes(vstd::utf8::encode_utf8(input@)) == Ok::<Seq<u8>, SetupCodeError>(bytes@),
            Err(e) => base38_bytes(vstd::utf8::encode_utf8(input@)) == Err::<Seq<u8>, SetupCodeError>(e),
        },
{
    let s = input.as_bytes();
    let mut out: Vec<u8> = Vec::new();
    let mut from: usize = 0;
    assert(s@.skip(0) =~= s@);
    while from < s.len()
        invariant
            s@ == vstd::utf8::encode_utf8(input@),
            from <= s@.len(),
            base38_bytes(s@) == match base38_bytes(s@.skip(from as int)) {
                Ok(rest) => Ok(out@ + rest),
                Err(e) => Err(e),
            },
        decreases s.len() - from,
    {
        let remaining: usize = s.len() - from;
        let ghost rest = s@.skip(from as int);
        let (digits, bytes): (usize, usize) = if remaining >= 5 {
            (5, 3)
        } else if remaining == 4 {
            (4, 2)
        } else if remaining == 2 {
            (2, 1)
        } else {
            return Err(SetupCodeError::InvalidLength);
        };
        assert(rest.take(digits as int) =~= s@.subrange(from as int, from + digits));
        assert(rest.skip(digits as int) =~= s@.skip(from + digits));
        let ghost before = out@;
        match group_value(s, from, digits) {
            Err(b) => {
                return Err(SetupCodeError::InvalidCharacter(b as char));
            },
            Ok(v) => {
                let ghost low = number::low_bytes(v as nat, bytes as nat);
                let mut value: u32 = v;
                let mut k: usize = 0;
                assert(out@ + low =~= before + low);
                while k < bytes
                    invariant
                        0 <= k <= bytes,
                        before + low == out@ + number::low_bytes(value as nat, (bytes - k) as nat),
                    decreases bytes - k,
                {
                    let ghost so_far = out@;
                    let b: u8 = (value % 256) as u8;
                    out.push(b);
                    assert(out@ + number::low_bytes((value / 256) as nat, (bytes - k - 1) as nat)
                        =~= so_far + (seq![b] + number::low_bytes(
                        (value / 256) as nat,
                        (bytes - k - 1) as nat,
                    )));
                    value = value / 256;
                    k += 1;
                }
                assert(out@ =~= before + low);
            },
        }
        proof {
            match base38_bytes(s@.skip(from + digits)) {
                Ok(more) => {
                    assert(before + (number::low_bytes(
                        base38_value(rest.take(digits as int)).unwrap(),
                        bytes as nat,
                    ) + more) =~= out@ + more);
                },
                Err(_) => {},
            }
        }
        from += digits;
    }
    assert(out@ + Seq::<u8>::empty() =~= out@);
    Ok(out)
}

// QR codes

/// The number that bytes stand for, the least significant first.
pub open spec fn little_endian(s: Seq<u8>) -> nat
    decreases s.len(),
{
    if s.len() == 0 {
        0
    } else {
        s.first() as nat + 256 * little_endian(s.drop_first())
    }
}

/// The `width` bits of a number from bit `offset` on.
pub open spec fn bits_of(value: nat, offset: nat, width: nat) -> nat {
    value / power2::pow2(offset) % power2::pow2(width)
}

/// The passcode that the payload of a QR code holds: 27 bits from bit 57 on.
pub open spec fn qr_passcode(payload: Seq<char>) -> Result<nat, SetupCodeError> {
    if !text::begins_with(payload, "MT:"@) {
        Err(SetupCodeError::MissingPrefix)
    } else {
        match base38_bytes(vstd::utf8::encode_utf8(payload.skip(3))) {
            Err(e) => Err(e),
            Ok(bytes) => if bytes.len() < 11 {
                Err(SetupCodeError::PayloadTooShort)
            } else {
                let packed = if bytes.len() > 16 {
                    bytes.take(16)
                } else {
                    bytes
                };
                Ok(bits_of(little_endian(packed), 57, 27))
            },
        }
    }
}

proof fn lemma_one_shifted(n: u32)
    requires
        n < 128,
    ensures
        1u128 << n == power2::pow2(n as nat),
        1u128 << n > 0,
    decreases n,
{
    if n == 0 {
        assert(1u128 << 0u32 == 1) by (bit_vector);
        power2::lemma2_to64();
    } else {
        let m = (n - 1) as u32;
        lemma_one_shifted(m);
        assert(1u128 << n == 2 * (1u128 << m) && 1u128 << n > 0) by (bit_vector)
            requires
                n < 128,
                n >= 1,
                m == n - 1,
        ;
        power2::lemma2_to64();
        power2::lemma_pow2_adds(1, m as nat);
    }
}

/// The `width` bits of a number from bit `offset` on.
pub fn extract_bits(value: u128, offset: u32, width: u32) -> (r: u128)
    requires
        offset < 128,
        width < 128,
    ensures
        r == bits_of(value as nat, offset as nat, width as nat),
{
    proof {
        lemma_one_shifted(width);
        vstd::bits::lemma_u128_shr_is_div(value, offset as u128);
        assert(value >> offset == value >> (offset as u128));
    }
    (value >> offset) % (1u128 << width)
}

proof fn lemma_little_endian_bound(s: Seq<u8>)
    ensures
        little_endian(s) < power2::pow2(8 * s.len()),
    decreases s.len(),
{
    power2::lemma2_to64();
    if s.len() > 0 {
        lemma_little_endian_bound(s.drop_first());
        power2::lemma_pow2_adds(8, (8 * (s.len() - 1)) as nat);
    }
}

/// The number that at most sixteen bytes stand for.
fn pack(bytes: &[u8], n: usize) -> (r: u128)
    requires
        n <= bytes@.len(),
        n <= 16,
    ensures
        r == little_endian(bytes@.take(n as int)),
{
    let ghost s = bytes@.take(n as int);
    let mut packed: u128 = 0;
    let mut i: usize = n;
    assert(s.skip(n as int) =~= seq![]);
    while i > 0
        invariant
            n <= bytes@.len(),
            n <= 16,
            s == bytes@.take(n as int),
            i <= n,
            packed == little_endian(s.skip(i as int)),
        decreases i,
    {
        i -= 1;
        assert(s.skip(i as int).drop_first() =~= s.skip(i + 1));
        assert(s.skip(i as int).first() == bytes@[i as int]);
        proof {
            lemma_little_endian_bound(s.skip(i as int));
            power2::lemma2_to64();
            power2::lemma_pow2_adds(64, 64);
            if s.skip(i as int).len() < 16 {
                power2::lemma_pow2_strictly_increases(8 * s.skip(i as int).len(), 128);
            }
        }
        packed = bytes[i] as u128 + 256 * packed;
    }
    assert(s.skip(0) =~= s);
    packed
}

/// Reads the passcode from the payload of a QR code.
pub fn decode_qr_payload_passcode(payload: &str) -> (r: Result<u32, SetupCodeError>)
    ensures
        match r {
            Ok(passcode) => qr_passcode(payload@) == Ok::<nat, SetupCodeError>(passcode as nat),
            Err(e) => qr_passcode(payload@) == Err::<nat, SetupCodeError>(e),
        },
{
    let chars = chars_of(payload);
    let prefix = chars_of("MT:");
    if !stands_at(chars.as_slice(), prefix.as_slice(), 0) {
        return Err(SetupCodeError::MissingPrefix);
    }
    proof {
        reveal_strlit("MT:");
    }
    let encoded = substring(chars.as_slice(), 3, chars.len());
    assert(encoded@ =~= payload@.skip(3));
    match base38_decode(encoded.as_str()) {
        Err(e) => Err(e),
        Ok(bytes) => {
            if bytes.len() < 11 {
                return Err(SetupCodeError::PayloadTooShort);
            }
            let n: usize = if bytes.len() > 16 {
                16
            } else {
                bytes.len()
            };
            let packed: u128 = pack(bytes.as_slice(), n);
            assert(bytes@.take(bytes@.len() as int) =~= bytes@);
            let passcode: u128 = extract_bits(packed, 57, 27);
            proof {
                power2::lemma2_to64();
            }
            Ok(passcode as u32)
        },
    }
}

/// The payload of a QR code in a text: the text itself, if it is one, or what stands in it, as in
/// the address of a web page, up to the next `&`.
pub open spec fn qr_payload(s: Seq<char>) -> Option<Seq<char>> {
    if text::begins_with(s, "MT:"@) {
        Some(s)
    } else {
        match text::found(s, "MT%3A"@) {
            Some(at) => {
                let tail = s.skip(at);
                Some("MT:"@ + tail.take(text::span_before(tail, '&')).skip(5))
            },
            None => match text::found(s, "MT:"@) {
                Some(at) => Some(s.skip(at).take(text::span_before(s.skip(at), '&'))),
                None => None,
            },
        }
    }
}

/// Finds the payload of a QR code in a text.
pub fn extract_qr_payload(input: &str) -> (r: Option<String>)
    ensures
        r.deep_view() == qr_payload(input@),
{
    let chars = chars_of(input);
    let plain = chars_of("MT:");
    if stands_at(chars.as_slice(), plain.as_slice(), 0) {
        return Some(input.to_string());
    }
    let escaped = chars_of("MT%3A");
    proof {
        reveal_strlit("MT%3A");
        reveal_strlit("MT:");
    }
    if let Some(at) = find(chars.as_slice(), escaped.as_slice()) {
        let end = index_of(chars.as_slice(), '&', at);
        let ghost tail = input@.skip(at as int);
        proof {
            text::lemma_span_before(tail, '&');
            assert forall|i: int| 0 <= i < 5 implies #[trigger] tail[i] == "MT%3A"@[i] by {
                assert(input@.subrange(at as int, at + 5)[i] == tail[i]);
            }
        }
        let mut payload: String = "MT:".to_string();
        payload.append(substring(chars.as_slice(), at + 5, end).as_str());
        assert(tail.take(text::span_before(tail, '&')).skip(5) =~= input@.subrange(
            at + 5,
            end as int,
        ));
        return Some(payload);
    }
    match find(chars.as_slice(), plain.as_slice()) {
        Some(at) => {
            let end = index_of(chars.as_slice(), '&', at);
            let ghost tail = input@.skip(at as int);
            assert(tail.take(text::span_before(tail, '&')) =~= input@.subrange(
                at as int,
                end as int,
            ));
            Some(substring(chars.as_slice(), at, end))
        },
        None => None,
    }
}

// Setup codes

/// Whether a character takes part in a code made of digits: dashes and blanks only set it apart.
pub open spec fn counts(c: char) -> bool {
    c != '-' && c != ' '
}

/// A text without its dashes and blanks.
pub open spec fn without_separators(s: Seq<char>) -> Seq<char> {
    s.filter(|c: char| counts(c))
}

/// The passcode in a row of digits: eight of them are the passcode itself, eleven or twenty-one are
/// a manual pairing code.
pub open spec fn numeric_passcode(code: Seq<char>) -> Result<nat, SetupCodeError> {
    if trusted::all_digits(code) && code.len() == 8 {
        Ok(trusted::digits_value(code))
    } else if trusted::all_digits(code) && (code.len() == 11 || code.len() == 21) {
        Ok(trusted::manual_passcode(code))
    } else {
        Err(SetupCodeError::UnsupportedFormat)
    }
}

/// The passcode that a setup code holds.
pub open spec fn setup_passcode(input: Seq<char>) -> Result<nat, SetupCodeError> {
    let code = text::trimmed(input);
    if code.len() == 0 {
        Err(SetupCodeError::Empty)
    } else {
        match qr_payload(code) {
            Some(payload) => qr_passcode(payload),
            None => numeric_passcode(without_separators(code)),
        }
    }
}

/// Whether every character is a decimal digit.
fn is_all_digits(v: &[char]) -> (r: bool)
    ensures
        r == trusted::all_digits(v@),
{
    let mut i: usize = 0;
    while i < v.len()
        invariant
            i <= v.len(),
            forall|j: int| 0 <= j < i ==> '0' <= #[trigger] v@[j] <= '9',
        decreases v.len() - i,
    {
        if v[i] < '0' || v[i] > '9' {
            return false;
        }
        i += 1;
    }
    true
}

/// The number that eight digits stand for.
fn eight_digits(v: &[char]) -> (r: u32)
    requires
        v@.len() == 8,
        trusted::all_digits(v@),
    ensures
        r == trusted::digits_value(v@),
{
    let mut value: u64 = 0;
    let mut bound: u64 = 1;
    let mut i: usize = 0;
    while i < 8
        invariant
            i <= 8,
            v@.len() == 8,
            trusted::all_digits(v@),
            value == trusted::digits_value(v@.take(i as int)),
            value < bound,
            i == 0 ==> bound == 1,
            i == 1 ==> bound == 10,
            i == 2 ==> bound == 100,
            i == 3 ==> bound == 1000,
            i == 4 ==> bound == 10000,
            i == 5 ==> bound == 100000,
            i == 6 ==> bound == 1000000,
            i == 7 ==> bound == 10000000,
            i == 8 ==> bound == 100000000,
        decreases 8 - i,
    {
        assert(v@.take(i + 1).drop_last() =~= v@.take(i as int));
        assert(v@.take(i + 1).last() == v@[i as int]);
        value = value * 10 + (v[i] as u64 - '0' as u64);
        bound = bound * 10;
        i += 1;
    }
    assert(v@.take(8) =~= v@);
    value as u32
}

/// Removes the dashes and blanks from a text.
fn strip_separators(s: &str) -> (r: Vec<char>)
    ensures
        r@ == without_separators(s@),
{
    let v = chars_of(s);
    let mut r: Vec<char> = Vec::new();
    let mut i: usize = 0;
    reveal(Seq::filter);
    while i < v.len()
        invariant
            i <= v.len(),
            v@ == s@,
            r@ == without_separators(v@.take(i as int)),
        decreases v.len() - i,
    {
        reveal(Seq::filter);
        assert(v@.take(i + 1).drop_last() =~= v@.take(i as int));
        assert(v@.take(i + 1).last() == v@[i as int]);
        if v[i] != '-' && v[i] != ' ' {
            r.push(v[i]);
        }
        i += 1;
    }
    assert(v@.take(v@.len() as int) =~= v@);
    r
}

/// Reads the passcode from a setup code.
pub fn parse_setup_code(input: &str) -> (r: Result<u32, SetupCodeError>)
    ensures
        match r {
            Ok(passcode) => setup_passcode(input@) == Ok::<nat, SetupCodeError>(passcode as nat),
            Err(e) => setup_passcode(input@) == Err::<nat, SetupCodeError>(e),
        },
{
    let code = trim(input);
    if chars_of(code.as_str()).len() == 0 {
        return Err(SetupCodeError::Empty);
    }
    if let Some(payload) = extract_qr_payload(code.as_str()) {
        return decode_qr_payload_passcode(payload.as_str());
    }
    let numeric = strip_separators(code.as_str());
    if numeric.len() == 8 && is_all_digits(numeric.as_slice()) {
        return Ok(eight_digits(numeric.as_slice()));
    }
    if (numeric.len() == 11 || numeric.len() == 21) && is_all_digits(numeric.as_slice()) {
        return match decode_manual_pairing_code(string_of(numeric.as_slice()).as_str()) {
            Ok(passcode) => Ok(passcode),
            Err(_) => Err(SetupCodeError::InvalidManualPairingCode),
        };
    }
    Err(SetupCodeError::UnsupportedFormat)
}

// Laws

/// A payload that has been found in a text is one that the decoder accepts as a payload.
pub proof fn payload_has_prefix(s: Seq<char>)
    ensures
        qr_payload(s) matches Some(payload) ==> text::begins_with(payload, "MT:"@),
{
    reveal_strlit("MT:");
    reveal_strlit("MT%3A");
    if text::begins_with(s, "MT:"@) {
    } else if text::found(s, "MT%3A"@) is Some {
        let payload = qr_payload(s).unwrap();
        assert(payload.subrange(0, 3) =~= "MT:"@);
    } else if text::found(s, "MT:"@) is Some {
        let at = text::found(s, "MT:"@).unwrap();
        let tail = s.skip(at);
        text::lemma_span_before(tail, '&');
        assert(text::occurs_at(s, "MT:"@, at));
        assert forall|i: int| 0 <= i < 3 implies #[trigger] tail[i] == "MT:"@[i] by {
            assert(s.subrange(at, at + 3)[i] == tail[i]);
        }
        let payload = tail.take(text::span_before(tail, '&'));
        assert(payload.subrange(0, 3) =~= "MT:"@);
    }
}

/// No setup code fails for want of the prefix: what is taken for a payload has it.
pub proof fn setup_code_never_lacks_prefix(input: Seq<char>)
    ensures
        setup_passcode(input) != Err::<nat, SetupCodeError>(SetupCodeError::MissingPrefix),
{
    let code = text::trimmed(input);
    payload_has_prefix(code);
    if let Some(payload) = qr_payload(code) {
        lemma_decoder_error(vstd::utf8::encode_utf8(payload.skip(3)));
    }
}

proof fn lemma_decoder_error(s: Seq<u8>)
    ensures
        base38_bytes(s) matches Err(e) ==> e == SetupCodeError::InvalidLength
            || e is InvalidCharacter,
    decreases s.len(),
{
    if s.len() > 0 {
        if let Some((digits, bytes)) = base38_group(s.len()) {
            lemma_decoder_error(s.skip(digits as int));
        }
    }
}

/// Whitespace around a setup code makes no difference.
pub proof fn outer_space_does_not_matter(input: Seq<char>)
    ensures
        setup_passcode(text::trimmed(input)) == setup_passcode(input),
{
    text::trimmed_is_idempotent(input);
}

/// A passcode from a QR code has at most 27 bits.
pub proof fn qr_passcode_is_bounded(payload: Seq<char>)
    ensures
        qr_passcode(payload) matches Ok(passcode) ==> passcode < 0x800_0000,
{
    power2::lemma2_to64();
}

/// Whether a text holds nothing but digits, dashes and blanks.
pub open spec fn is_spaced_code(s: Seq<char>) -> bool {
    forall|i: int| 0 <= i < s.len() ==> '0' <= #[trigger] s[i] <= '9' || !counts(s[i])
}

/// Of a code that holds digits, dashes and blanks only the digits count, wherever the dashes and
/// blanks stand.
pub proof fn only_digits_count(s: Seq<char>)
    requires
        is_spaced_code(s),
        exists|i: int| 0 <= i < s.len() && #[trigger] s[i] != ' ',
    ensures
        setup_passcode(s) == numeric_passcode(without_separators(s)),
{
    reveal_strlit("MT:");
    reveal_strlit("MT%3A");
    let i = choose|i: int| 0 <= i < s.len() && #[trigger] s[i] != ' ';
    lemma_trimmed_start_of_code(s, i);
    let t = text::trimmed_start(s);
    let k = choose|k: int| 0 <= k < t.len() && #[trigger] t[k] != ' ';
    lemma_trimmed_end_of_code(t, k);
    let code = text::trimmed(s);
    assert forall|at: int| #[trigger] text::occurs_at(code, "MT:"@, at) implies false by {
        assert(code.subrange(at, at + 3)[0] == code[at]);
    }
    assert forall|at: int| #[trigger] text::occurs_at(code, "MT%3A"@, at) implies false by {
        assert(code.subrange(at, at + 5)[0] == code[at]);
    }
    if exists|at: int| text::first_occurrence(code, "MT:"@, at) {
        let at = choose|at: int| text::first_occurrence(code, "MT:"@, at);
        assert(text::occurs_at(code, "MT:"@, at));
    }
    if exists|at: int| text::first_occurrence(code, "MT%3A"@, at) {
        let at = choose|at: int| text::first_occurrence(code, "MT%3A"@, at);
        assert(text::occurs_at(code, "MT%3A"@, at));
    }
}

proof fn lemma_trimmed_start_of_code(s: Seq<char>, i: int)
    requires
        is_spaced_code(s),
        0 <= i < s.len(),
        s[i] != ' ',
    ensures
        is_spaced_code(text::trimmed_start(s)),
        without_separators(text::trimmed_start(s)) == without_separators(s),
        exists|k: int|
            0 <= k < text::trimmed_start(s).len() && #[trigger] text::trimmed_start(s)[k] != ' ',
    decreases s.len(),
{
    if text::is_space(s.first()) {
        let rest = s.drop_first();
        assert(s.first() == ' ');
        assert(rest[i - 1] == s[i]);
        assert forall|j: int| 0 <= j < rest.len() implies '0' <= #[trigger] rest[j] <= '9'
            || !counts(rest[j]) by {
            assert(rest[j] == s[j + 1]);
        }
        lemma_trimmed_start_of_code(rest, i - 1);
        let p = |c: char| counts(c);
        reveal_with_fuel(Seq::filter, 2);
        assert(s =~= seq![s.first()] + rest);
        Seq::filter_distributes_over_add(seq![s.first()], rest, p);
        assert(seq![s.first()].drop_last() =~= seq![]);
        assert(seq![s.first()].filter(p) =~= seq![]);
        assert(s.filter(p) =~= rest.filter(p));
    } else {
        assert(text::trimmed_start(s)[i] != ' ');
    }
}

proof fn lemma_trimmed_end_of_code(s: Seq<char>, i: int)
    requires
        is_spaced_code(s),
        0 <= i < s.len(),
        s[i] != ' ',
    ensures
        is_spaced_code(text::trimmed_end(s)),
        without_separators(text::trimmed_end(s)) == without_separators(s),
        text::trimmed_end(s).len() > 0,
    decreases s.len(),
{
    if text::is_space(s.last()) {
        let rest = s.drop_last();
        assert(s.last() == ' ');
        assert(rest[i] == s[i]);
        assert forall|j: int| 0 <= j < rest.len() implies '0' <= #[trigger] rest[j] <= '9'
            || !counts(rest[j]) by {
            assert(rest[j] == s[j]);
        }
        lemma_trimmed_end_of_code(rest, i);
        reveal(Seq::filter);
    }
}

} // verus!
