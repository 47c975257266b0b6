//! What setup codes are: how a passcode is written down, and that it is read back.

use crate::number;
use crate::setup_code;
use crate::setup_code::SetupCodeError;
use crate::text;
use crate::trusted;
use vstd::arithmetic::power2;
use vstd::prelude::*;

verus! {

// Base 38

/// The digits to the base 38, in the order of what they are worth.
pub open spec fn alphabet() -> Seq<char> {
    "0123456789ABCDEFGHIJKLMNOPQRSTUVWXYZ-."@
}

/// The last `n` digits of a number to the base 38, the least significant first.
pub open spec fn written_group(v: nat, n: nat) -> Seq<char>
    decreases n,
{
    if n == 0 {
        seq![]
    } else {
        seq![alphabet()[(v % 38) as int]] + written_group(v / 38, (n - 1) as nat)
    }
}

/// How bytes are written to the base 38: three at a time as five digits; two that are left over as
/// four digits, one as two.
pub open spec fn written(bytes: Seq<u8>) -> Seq<char>
    decreases bytes.len(),
{
    if bytes.len() == 0 {
        seq![]
    } else if bytes.len() == 1 {
        written_group(bytes[0] as nat, 2)
    } else if bytes.len() == 2 {
        written_group(bytes[0] as nat + 256 * bytes[1] as nat, 4)
    } else {
        written_group(bytes[0] as nat + 256 * bytes[1] as nat + 65536 * bytes[2] as nat, 5)
            + written(bytes.skip(3))
    }
}

/// The characters of a text as bytes.
pub open spec fn as_bytes(s: Seq<char>) -> Seq<u8> {
    s.map_values(|c: char| c as u8)
}

proof fn lemma_digit(d: int)
    requires
        0 <= d < 38,
    ensures
        alphabet().len() == 38,
        '\0' <= alphabet()[d] <= '\u{7f}',
        setup_code::base38_digit(alphabet()[d] as u8) == Some(d as nat),
        !text::is_space(alphabet()[d]),
        alphabet()[d] != '&',
        alphabet()[d] != '%',
{
    reveal_strlit("0123456789ABCDEFGHIJKLMNOPQRSTUVWXYZ-.");
    let s = alphabet();
    if d < 10 {
        assert(s[d] as nat == 48 + d);
    } else if d < 36 {
        assert(s[d] as nat == 55 + d);
    } else if d == 36 {
        assert(s[d] == '-');
    } else {
        assert(s[d] == '.');
    }
}

/// Whether every character of a text is a digit to the base 38.
pub open spec fn in_alphabet(s: Seq<char>) -> bool {
    forall|i: int| 0 <= i < s.len() ==> alphabet().contains(#[trigger] s[i])
}

spec fn pow38(n: nat) -> nat
    decreases n,
{
    if n == 0 {
        1
    } else {
        38 * pow38((n - 1) as nat)
    }
}

proof fn lemma_group(v: nat, n: nat)
    requires
        v < pow38(n),
    ensures
        written_group(v, n).len() == n,
        in_alphabet(written_group(v, n)),
        setup_code::base38_value(as_bytes(written_group(v, n))) == Ok::<nat, u8>(v),
    decreases n,
{
    if n > 0 {
        let d = (v % 38) as int;
        let rest = written_group(v / 38, (n - 1) as nat);
        lemma_digit(d);
        assert(v / 38 < pow38((n - 1) as nat));
        lemma_group(v / 38, (n - 1) as nat);
        let s = written_group(v, n);
        assert(as_bytes(s).drop_first() =~= as_bytes(rest));
        assert(as_bytes(s).first() == alphabet()[d] as u8);
        assert forall|i: int| 0 <= i < s.len() implies alphabet().contains(#[trigger] s[i]) by {
            if i > 0 {
                assert(s[i] == rest[i - 1]);
            }
        }
    }
}

proof fn lemma_low_bytes(b0: nat, b1: nat, b2: nat)
    requires
        b0 < 256,
        b1 < 256,
        b2 < 256,
    ensures
        crate::number::low_bytes(b0, 1) == seq![b0 as u8],
        crate::number::low_bytes(b0 + 256 * b1, 2) == seq![b0 as u8, b1 as u8],
        crate::number::low_bytes(b0 + 256 * b1 + 65536 * b2, 3) == seq![
            b0 as u8,
            b1 as u8,
            b2 as u8,
        ],
{
    reveal_with_fuel(crate::number::low_bytes, 4);
    let v = b0 + 256 * b1 + 65536 * b2;
    assert(v % 256 == b0 && v / 256 == b1 + 256 * b2);
    assert((b1 + 256 * b2) % 256 == b1 && (b1 + 256 * b2) / 256 == b2);
    assert((b0 + 256 * b1) % 256 == b0 && (b0 + 256 * b1) / 256 == b1);
    assert(crate::number::low_bytes(b0, 1) =~= seq![b0 as u8]);
    assert(crate::number::low_bytes(b0 + 256 * b1, 2) =~= seq![b0 as u8, b1 as u8]);
    assert(crate::number::low_bytes(v, 3) =~= seq![b0 as u8, b1 as u8, b2 as u8]);
}

proof fn lemma_written(bytes: Seq<u8>)
    ensures
        in_alphabet(written(bytes)),
        setup_code::base38_bytes(as_bytes(written(bytes))) == Ok::<Seq<u8>, SetupCodeError>(bytes),
        written(bytes).len() == 5 * (bytes.len() / 3) + 2 * (bytes.len() % 3),
    decreases bytes.len(),
{
    reveal_with_fuel(pow38, 6);
    reveal_with_fuel(setup_code::base38_bytes, 2);
    let s = written(bytes);
    let t = as_bytes(s);
    if bytes.len() == 0 {
        assert(t =~= seq![]);
        assert(bytes =~= seq![]);
    } else if bytes.len() == 1 {
        lemma_group(bytes[0] as nat, 2);
        lemma_low_bytes(bytes[0] as nat, 0, 0);
        assert(t.take(2) =~= t);
        assert(t.skip(2) =~= seq![]);
        assert(seq![bytes[0]] + Seq::<u8>::empty() =~= bytes);
    } else if bytes.len() == 2 {
        lemma_group(bytes[0] as nat + 256 * bytes[1] as nat, 4);
        lemma_low_bytes(bytes[0] as nat, bytes[1] as nat, 0);
        assert(t.take(4) =~= t);
        assert(t.skip(4) =~= seq![]);
        assert(seq![bytes[0], bytes[1]] + Seq::<u8>::empty() =~= bytes);
    } else {
        let v = bytes[0] as nat + 256 * bytes[1] as nat + 65536 * bytes[2] as nat;
        let head = written_group(v, 5);
        let rest = written(bytes.skip(3));
        lemma_group(v, 5);
        lemma_low_bytes(bytes[0] as nat, bytes[1] as nat, bytes[2] as nat);
        lemma_written(bytes.skip(3));
        assert(t.take(5) =~= as_bytes(head));
        assert(t.skip(5) =~= as_bytes(rest));
        assert(seq![bytes[0], bytes[1], bytes[2]] + bytes.skip(3) =~= bytes);
        assert forall|i: int| 0 <= i < s.len() implies alphabet().contains(#[trigger] s[i]) by {
            if i >= 5 {
                assert(s[i] == rest[i - 5]);
            } else {
                assert(s[i] == head[i]);
            }
        }
    }
}

proof fn lemma_ascii(s: Seq<char>)
    requires
        in_alphabet(s),
    ensures
        vstd::utf8::encode_utf8(s) == as_bytes(s),
        forall|i: int|
            0 <= i < s.len() ==> !text::is_space(#[trigger] s[i]) && s[i] != '&' && s[i] != '%',
{
    assert forall|i: int| 0 <= i < s.len() implies '\0' <= #[trigger] s[i] <= '\u{7f}'
        && !text::is_space(s[i]) && s[i] != '&' && s[i] != '%' by {
        let d = choose|d: int| 0 <= d < alphabet().len() && alphabet()[d] == s[i];
        lemma_digit(0);
        lemma_digit(d);
    }
    assert(vstd::utf8::is_ascii_chars(s));
    vstd::utf8::is_ascii_chars_encode_utf8(s);
    assert(vstd::utf8::encode_utf8(s) =~= as_bytes(s));
}

/// Bytes that have been written to the base 38 are read back as they were.
pub proof fn written_bytes_read_back(bytes: Seq<u8>)
    ensures
        setup_code::base38_bytes(vstd::utf8::encode_utf8(written(bytes))) == Ok::<
            Seq<u8>,
            SetupCodeError,
        >(bytes),
{
    lemma_written(bytes);
    lemma_ascii(written(bytes));
}

/// Whether a byte is a character of the alphabet.
pub open spec fn is_written(b: u8) -> bool {
    ('0' as u8) <= b <= ('9' as u8) || ('A' as u8) <= b <= ('Z' as u8) || b == ('-' as u8) || b == (
    '.' as u8)
}

proof fn lemma_value_of_written(group: Seq<u8>)
    ensures
        setup_code::base38_value(group) is Ok <==> (forall|i: int|
            0 <= i < group.len() ==> is_written(#[trigger] group[i])),
        setup_code::base38_value(group) matches Err(b) ==> group.contains(b) && !is_written(b),
    decreases group.len(),
{
    if group.len() > 0 {
        let rest = group.drop_first();
        lemma_value_of_written(rest);
        assert(setup_code::base38_digit(group[0]) is Some <==> is_written(group[0]));
        if setup_code::base38_value(group) is Ok {
            assert forall|i: int| 0 <= i < group.len() implies is_written(#[trigger] group[i]) by {
                if i > 0 {
                    assert(rest[i - 1] == group[i]);
                }
            }
        }
        if forall|i: int| 0 <= i < group.len() ==> is_written(#[trigger] group[i]) {
            assert forall|i: int| 0 <= i < rest.len() implies is_written(#[trigger] rest[i]) by {
                assert(rest[i] == group[i + 1]);
            }
        }
        if let Err(b) = setup_code::base38_value(rest) {
            let i = choose|i: int| 0 <= i < rest.len() && rest[i] == b;
            assert(group[i + 1] == b);
        }
    }
}

/// A text is read exactly when it is made of the alphabet alone and can be parted into groups of five
/// characters and one of two or four, if any. Five characters stand for three bytes, four for two and
/// two for one.
pub proof fn only_the_alphabet_is_read(s: Seq<u8>)
    ensures
        setup_code::base38_bytes(s) is Ok <==> (s.len() % 5 == 0 || s.len() % 5 == 2 || s.len() % 5
            == 4) && (forall|i: int| 0 <= i < s.len() ==> is_written(#[trigger] s[i])),
        setup_code::base38_bytes(s) matches Ok(bytes) ==> bytes.len() == 3 * (s.len() / 5) + (
        s.len() % 5) / 2,
        setup_code::base38_bytes(s) matches Err(SetupCodeError::InvalidCharacter(c)) ==> (exists|
            i: int,
        |
            0 <= i < s.len() && #[trigger] s[i] as char == c && !is_written(s[i])),
    decreases s.len(),
{
    if s.len() > 0 {
        if let Some((digits, bytes)) = setup_code::base38_group(s.len()) {
            let n = digits as int;
            let head = s.take(n);
            let rest = s.skip(n);
            lemma_value_of_written(head);
            only_the_alphabet_is_read(rest);
            assert(rest.len() == s.len() - n);
            if n == 5 {
                assert(rest.len() % 5 == s.len() % 5 && rest.len() / 5 == s.len() / 5 - 1);
            }
            if forall|i: int| 0 <= i < s.len() ==> is_written(#[trigger] s[i]) {
                assert forall|i: int| 0 <= i < rest.len() implies is_written(#[trigger] rest[i]) by {
                    assert(rest[i] == s[i + n]);
                }
                assert forall|i: int| 0 <= i < head.len() implies is_written(#[trigger] head[i]) by {
                    assert(head[i] == s[i]);
                }
            }
            if setup_code::base38_bytes(s) is Ok {
                assert forall|i: int| 0 <= i < s.len() implies is_written(#[trigger] s[i]) by {
                    if i < n {
                        assert(head[i] == s[i]);
                    } else {
                        assert(rest[i - n] == s[i]);
                    }
                }
                if let Ok(v) = setup_code::base38_value(head) {
                    lemma_low_bytes_len(v, bytes);
                }
            }
            if let Err(b) = setup_code::base38_value(head) {
                let i = choose|i: int| 0 <= i < head.len() && head[i] == b;
                assert(s[i] == b);
            } else if let Err(SetupCodeError::InvalidCharacter(c)) = setup_code::base38_bytes(rest) {
                let i = choose|i: int|
                    0 <= i < rest.len() && #[trigger] rest[i] as char == c && !is_written(rest[i]);
                assert(s[i + n] == rest[i]);
            }
        }
    }
}

proof fn lemma_low_bytes_len(v: nat, n: nat)
    ensures
        number::low_bytes(v, n).len() == n,
    decreases n,
{
    if n > 0 {
        lemma_low_bytes_len(v / 256, (n - 1) as nat);
    }
}

/// The bits that are taken out of a number are those between the bits below and the bits above them.
pub proof fn bits_in_between_are_taken(
    below: nat,
    between: nat,
    above: nat,
    value: u128,
    offset: u32,
    width: u32,
    r: u128,
)
    requires
        offset < 128,
        width < 128,
        below < power2::pow2(offset as nat),
        between < power2::pow2(width as nat),
        value == below + power2::pow2(offset as nat) * (between + power2::pow2(width as nat)
            * above),
        call_ensures(setup_code::extract_bits, (value, offset, width), r),
    ensures
        r == between,
{
    let a = power2::pow2(offset as nat);
    let b = power2::pow2(width as nat);
    let k = between + b * above;
    power2::lemma_pow2_pos(offset as nat);
    power2::lemma_pow2_pos(width as nat);
    vstd::arithmetic::div_mod::lemma_fundamental_div_mod_converse(
        value as int,
        a as int,
        k as int,
        below as int,
    );
    vstd::arithmetic::div_mod::lemma_fundamental_div_mod_converse(
        k as int,
        b as int,
        above as int,
        between as int,
    );
}

// QR codes

/// The lowest `n` bytes of a number, the least significant first.
pub open spec fn bytes_of(v: nat, n: nat) -> Seq<u8>
    decreases n,
{
    if n == 0 {
        seq![]
    } else {
        seq![(v % 256) as u8] + bytes_of(v / 256, (n - 1) as nat)
    }
}

/// The eleven bytes of a QR code: 57 bits in front of the passcode, its 27 bits, and four bits
/// behind it.
pub open spec fn payload_bytes(front: nat, passcode: nat, back: nat) -> Seq<u8> {
    bytes_of(front + 0x200_0000_0000_0000 * (passcode + 0x800_0000 * back), 11)
}

/// The text of a QR code with these bytes.
pub open spec fn payload_text(bytes: Seq<u8>) -> Seq<char> {
    "MT:"@ + written(bytes)
}

proof fn lemma_little_endian(v: nat, n: nat, more: Seq<u8>)
    requires
        v < power2::pow2(8 * n),
    ensures
        bytes_of(v, n).len() == n,
        setup_code::little_endian(bytes_of(v, n) + more) == v + power2::pow2(8 * n)
            * setup_code::little_endian(more),
    decreases n,
{
    power2::lemma2_to64();
    if n == 0 {
        assert(bytes_of(v, n) + more =~= more);
    } else {
        let m = (n - 1) as nat;
        power2::lemma_pow2_adds(8, 8 * m);
        let p = power2::pow2(8 * m);
        let e = setup_code::little_endian(more);
        lemma_little_endian(v / 256, m, more);
        assert((bytes_of(v, n) + more).drop_first() =~= bytes_of(v / 256, m) + more);
        assert(256 * (v / 256 + p * e) == 256 * (v / 256) + 256 * p * e) by (nonlinear_arith);
    }
}

proof fn lemma_passcode_bits(front: nat, passcode: nat, back: nat, e: nat)
    requires
        front < 0x200_0000_0000_0000,
        passcode < 0x800_0000,
        back < 16,
    ensures
        front + 0x200_0000_0000_0000 * (passcode + 0x800_0000 * back) < power2::pow2(88),
        setup_code::bits_of(
            front + 0x200_0000_0000_0000 * (passcode + 0x800_0000 * back) + power2::pow2(88) * e,
            57,
            27,
        ) == passcode,
{
    power2::lemma2_to64();
    power2::lemma2_to64_rest();
    power2::lemma_pow2_adds(57, 27);
    power2::lemma_pow2_adds(84, 4);
    let a = 0x200_0000_0000_0000nat;
    assert(power2::pow2(57) == a);
    assert(power2::pow2(27) == 0x800_0000);
    assert(power2::pow2(88) == a * 0x8000_0000);
    let k = passcode + 0x800_0000 * (back + 16 * e);
    let v = front + a * (passcode + 0x800_0000 * back) + power2::pow2(88) * e;
    assert(v == front + a * k) by (nonlinear_arith)
        requires
            v == front + a * (passcode + 0x800_0000 * back) + (a * 0x8000_0000) * e,
            k == passcode + 0x800_0000 * (back + 16 * e),
    ;
    assert(v / a == k) by (nonlinear_arith)
        requires
            v == front + a * k,
            0 <= front < a,
            a == 0x200_0000_0000_0000nat,
    ;
    assert(k % 0x800_0000 == passcode);
}

proof fn lemma_untrimmed(s: Seq<char>)
    requires
        s.len() > 0,
        !text::is_space(s.first()),
        !text::is_space(s.last()),
    ensures
        text::trimmed(s) == s,
{
}

proof fn lemma_payload_text(bytes: Seq<u8>)
    requires
        bytes.len() > 0,
    ensures
        ({
            let s = payload_text(bytes);
            &&& setup_code::setup_passcode(s) == setup_code::qr_passcode(s)
            &&& text::begins_with(s, "MT:"@)
            &&& s.skip(3) == written(bytes)
        }),
{
    reveal_strlit("MT:");
    let s = payload_text(bytes);
    lemma_written(bytes);
    lemma_ascii(written(bytes));
    assert(s.subrange(0, 3) =~= "MT:"@);
    assert(s.skip(3) =~= written(bytes));
    assert(s.last() == written(bytes).last());
    lemma_untrimmed(s);
}

/// The passcode that has been put into a QR code is read from it, whatever the other fields of the
/// code are and whatever follows them.
pub proof fn qr_code_reads_back(
    front: nat,
    passcode: nat,
    back: nat,
    more: Seq<u8>,
)
    requires
        front < 0x200_0000_0000_0000,
        passcode < 0x800_0000,
        back < 16,
    ensures
        setup_code::setup_passcode(payload_text(payload_bytes(front, passcode, back) + more))
            == Ok::<nat, SetupCodeError>(passcode),
{
    let v = front + 0x200_0000_0000_0000 * (passcode + 0x800_0000 * back);
    let bytes = payload_bytes(front, passcode, back) + more;
    lemma_passcode_bits(front, passcode, back, 0);
    lemma_little_endian(v, 11, more);
    lemma_payload_text(bytes);
    written_bytes_read_back(bytes);
    let n = more.len();
    let packed = if bytes.len() > 16 {
        more.take(5)
    } else {
        more
    };
    if bytes.len() > 16 {
        assert(bytes.take(16) =~= bytes_of(v, 11) + packed);
    }
    lemma_little_endian(v, 11, packed);
    lemma_passcode_bits(front, passcode, back, setup_code::little_endian(packed));
}

/// Reading a QR code, alone or as a setup code, gives the passcode that has been put into it.
pub proof fn read_passcode_is_the_written_one(
    front: nat,
    passcode: u32,
    back: nat,
    more: Seq<u8>,
    code: &str,
    r: Result<u32, SetupCodeError>,
)
    requires
        front < 0x200_0000_0000_0000,
        passcode < 0x800_0000,
        back < 16,
        code@ == payload_text(payload_bytes(front, passcode as nat, back) + more),
        call_ensures(setup_code::parse_setup_code, (code,), r) || call_ensures(
            setup_code::decode_qr_payload_passcode,
            (code,),
            r,
        ),
    ensures
        r == Ok::<u32, SetupCodeError>(passcode),
{
    let bytes = payload_bytes(front, passcode as nat, back) + more;
    qr_code_reads_back(front, passcode as nat, back, more);
    lemma_payload_text(bytes);
}

/// A QR code with fewer than eleven bytes is too short.
pub proof fn short_qr_code_is_refused(bytes: Seq<u8>)
    requires
        0 < bytes.len() < 11,
    ensures
        setup_code::setup_passcode(payload_text(bytes)) == Err::<nat, SetupCodeError>(
            SetupCodeError::PayloadTooShort,
        ),
{
    lemma_payload_text(bytes);
    written_bytes_read_back(bytes);
}

/// Whether a text is empty or goes on behind an `&`.
pub open spec fn is_rest(rest: Seq<char>) -> bool {
    rest.len() == 0 || (rest.first() == '&' && !text::is_space(rest.last()))
}

/// Whether a text can stand in front of a QR code: it has no `M` in it and does not begin with
/// whitespace.
pub open spec fn is_front(front: Seq<char>) -> bool {
    !front.contains('M') && (front.len() > 0 ==> !text::is_space(front.first()))
}

proof fn lemma_first_m(front: Seq<char>, tail: Seq<char>, t: Seq<char>, at: int)
    requires
        !front.contains('M'),
        t.len() > 0,
        t[0] == 'M',
        text::occurs_at(front + tail, t, at),
    ensures
        at >= front.len(),
{
    let s = front + tail;
    assert(s.subrange(at, at + t.len())[0] == s[at]);
    if at < front.len() {
        assert(front[at] == 'M');
    }
}

proof fn lemma_found_behind(front: Seq<char>, tail: Seq<char>, t: Seq<char>)
    requires
        !front.contains('M'),
        t.len() > 0,
        t[0] == 'M',
        text::begins_with(tail, t),
    ensures
        text::found(front + tail, t) == Some(front.len() as int),
{
    let s = front + tail;
    let n = front.len() as int;
    assert(s.subrange(n, n + t.len()) =~= tail.subrange(0, t.len() as int));
    assert forall|j: int| 0 <= j < n implies !#[trigger] text::occurs_at(s, t, j) by {
        if text::occurs_at(s, t, j) {
            lemma_first_m(front, tail, t, j);
        }
    }
    assert(text::first_occurrence(s, t, n));
    let k = choose|k: int| text::first_occurrence(s, t, k);
    if k < n {
        assert(text::occurs_at(s, t, k));
    } else if n < k {
        assert(text::occurs_at(s, t, n));
    }
}

proof fn lemma_span_is(s: Seq<char>, c: char, n: int)
    requires
        0 <= n <= s.len(),
        forall|i: int| 0 <= i < n ==> s[i] != c,
        n < s.len() ==> s[n] == c,
    ensures
        text::span_before(s, c) == n,
{
    text::lemma_span_before(s, c);
}

proof fn lemma_ends(front: Seq<char>, prefix: Seq<char>, body: Seq<char>, rest: Seq<char>)
    requires
        is_front(front),
        is_rest(rest),
        prefix.len() > 0,
        prefix[0] == 'M',
        body.len() > 0,
        !text::is_space(body.last()),
    ensures
        ({
            let s = front + prefix + body + rest;
            &&& s.len() > 0
            &&& !text::is_space(s.first())
            &&& !text::is_space(s.last())
        }),
{
    let s = front + prefix + body + rest;
    if front.len() > 0 {
        assert(s.first() == front.first());
    } else {
        assert(s.first() == prefix[0]);
    }
    if rest.len() > 0 {
        assert(s.last() == rest.last());
    } else {
        assert(s.last() == body.last());
    }
}

proof fn lemma_escaped_payload(front: Seq<char>, body: Seq<char>, rest: Seq<char>)
    requires
        is_front(front),
        is_rest(rest),
        !body.contains('&'),
    ensures
        setup_code::qr_payload(front + "MT%3A"@ + body + rest) == Some("MT:"@ + body),
{
    reveal_strlit("MT:");
    reveal_strlit("MT%3A");
    let tail = "MT%3A"@ + body + rest;
    let s = front + "MT%3A"@ + body + rest;
    assert(s =~= front + tail);
    assert(tail.subrange(0, 5) =~= "MT%3A"@);
    lemma_found_behind(front, tail, "MT%3A"@);
    if text::begins_with(s, "MT:"@) {
        lemma_first_m(front, tail, "MT:"@, 0);
        assert(s.subrange(0, 3)[2] == s[2]);
    }
    assert(s.skip(front.len() as int) =~= tail);
    assert forall|i: int| 0 <= i < 5 + body.len() implies tail[i] != '&' by {
        if i >= 5 {
            assert(tail[i] == body[i - 5]);
        }
    }
    lemma_span_is(tail, '&', (5 + body.len()) as int);
    assert(tail.take((5 + body.len()) as int).skip(5) =~= body);
}

proof fn lemma_plain_payload(front: Seq<char>, body: Seq<char>, rest: Seq<char>)
    requires
        is_front(front),
        is_rest(rest),
        front.len() > 0,
        !body.contains('&'),
        !body.contains('%'),
        !front.contains('%'),
        !rest.contains('%'),
    ensures
        setup_code::qr_payload(front + "MT:"@ + body + rest) == Some("MT:"@ + body),
{
    reveal_strlit("MT:");
    reveal_strlit("MT%3A");
    let tail = "MT:"@ + body + rest;
    let s = front + "MT:"@ + body + rest;
    assert(s =~= front + tail);
    assert(tail.subrange(0, 3) =~= "MT:"@);
    lemma_found_behind(front, tail, "MT:"@);
    assert forall|at: int| !#[trigger] text::occurs_at(s, "MT%3A"@, at) by {
        if text::occurs_at(s, "MT%3A"@, at) {
            assert(s.subrange(at, at + 5)[2] == s[at + 2]);
            let i = at + 2;
            if i < front.len() {
                assert(front[i] == '%');
            } else if i < front.len() + 3 {
                assert(s[i] == "MT:"@[i - front.len()]);
            } else if i < front.len() + 3 + body.len() {
                assert(s[i] == body[i - front.len() - 3]);
            } else {
                assert(rest[i - front.len() - 3 - body.len()] == '%');
            }
        }
    }
    if exists|at: int| text::first_occurrence(s, "MT%3A"@, at) {
        let at = choose|at: int| text::first_occurrence(s, "MT%3A"@, at);
        assert(text::occurs_at(s, "MT%3A"@, at));
    }
    assert(s.skip(front.len() as int) =~= tail);
    assert forall|i: int| 0 <= i < 3 + body.len() implies tail[i] != '&' by {
        if i >= 3 {
            assert(tail[i] == body[i - 3]);
        }
    }
    lemma_span_is(tail, '&', (3 + body.len()) as int);
    assert(tail.take((3 + body.len()) as int) =~= "MT:"@ + body);
    if text::begins_with(s, "MT:"@) {
        lemma_first_m(front, tail, "MT:"@, 0);
    }
}

/// A QR code is read from an address that it stands in, whether or not its colon is escaped there:
/// it ends at the next `&`.
pub proof fn qr_code_in_an_address_reads_back(
    front: Seq<char>,
    bytes: Seq<u8>,
    rest: Seq<char>,
)
    requires
        is_front(front),
        bytes.len() > 0,
        is_rest(rest),
    ensures
        setup_code::setup_passcode(front + "MT%3A"@ + written(bytes) + rest)
            == setup_code::setup_passcode(payload_text(bytes)),
        front.len() > 0 && !rest.contains('%') && !front.contains('%') ==> setup_code::setup_passcode(
            front + "MT:"@ + written(bytes) + rest,
        ) == setup_code::setup_passcode(payload_text(bytes)),
{
    reveal_strlit("MT:");
    reveal_strlit("MT%3A");
    let body = written(bytes);
    lemma_written(bytes);
    lemma_ascii(body);
    lemma_payload_text(bytes);
    let escaped = front + "MT%3A"@ + body + rest;
    lemma_escaped_payload(front, body, rest);
    lemma_ends(front, "MT%3A"@, body, rest);
    lemma_untrimmed(escaped);
    if front.len() > 0 && !rest.contains('%') && !front.contains('%') {
        lemma_plain_payload(front, body, rest);
        lemma_ends(front, "MT:"@, body, rest);
        lemma_untrimmed(front + "MT:"@ + body + rest);
    }
}

// Digits

/// The last `k` decimal digits of a number.
pub open spec fn decimal(n: nat, k: nat) -> Seq<char>
    decreases k,
{
    if k == 0 {
        seq![]
    } else {
        decimal(n / 10, (k - 1) as nat).push("0123456789"@[(n % 10) as int])
    }
}

spec fn pow10(n: nat) -> nat
    decreases n,
{
    if n == 0 {
        1
    } else {
        10 * pow10((n - 1) as nat)
    }
}

proof fn lemma_decimal(n: nat, k: nat)
    requires
        n < pow10(k),
    ensures
        decimal(n, k).len() == k,
        trusted::all_digits(decimal(n, k)),
        trusted::digits_value(decimal(n, k)) == n,
    decreases k,
{
    reveal_strlit("0123456789");
    if k > 0 {
        lemma_decimal(n / 10, (k - 1) as nat);
        let s = decimal(n, k);
        let d = (n % 10) as int;
        assert(s.drop_last() =~= decimal(n / 10, (k - 1) as nat));
        assert("0123456789"@[d] as nat == 48 + d);
    }
}

proof fn lemma_digits_are_numeric(s: Seq<char>)
    requires
        s.len() > 0,
        trusted::all_digits(s),
    ensures
        setup_code::setup_passcode(s) == setup_code::numeric_passcode(s),
{
    assert(s[0] != ' ');
    setup_code::only_digits_count(s);
    let p = |c: char| setup_code::counts(c);
    assert forall|i: int| 0 <= i < s.len() implies p(#[trigger] s[i]) by {}
    lemma_filter_keeps_all(s, p);
}

proof fn lemma_filter_keeps_all(s: Seq<char>, p: spec_fn(char) -> bool)
    requires
        forall|i: int| 0 <= i < s.len() ==> p(#[trigger] s[i]),
    ensures
        s.filter(p) == s,
    decreases s.len(),
{
    reveal(Seq::filter);
    if s.len() > 0 {
        assert forall|i: int| 0 <= i < s.drop_last().len() implies p(
            #[trigger] s.drop_last()[i],
        ) by {
            assert(s.drop_last()[i] == s[i]);
        }
        lemma_filter_keeps_all(s.drop_last(), p);
        assert(s.drop_last().push(s.last()) =~= s);
    } else {
        assert(s.filter(p) =~= s);
    }
}

/// A passcode that is written with eight digits is read as it is.
pub proof fn eight_digits_read_back(passcode: nat)
    requires
        passcode < 100_000_000,
    ensures
        setup_code::setup_passcode(decimal(passcode, 8)) == Ok::<nat, SetupCodeError>(passcode),
{
    reveal_with_fuel(pow10, 9);
    lemma_decimal(passcode, 8);
    lemma_digits_are_numeric(decimal(passcode, 8));
}

/// The manual pairing code of a passcode: a digit; five digits with its lower fourteen bits and two
/// more above them; four digits with the bits above the fourteen; and what follows.
pub open spec fn manual_code(first: nat, passcode: nat, upper: nat, rest: Seq<char>) -> Seq<char> {
    decimal(first, 1) + decimal(passcode % 16384 + 16384 * upper, 5) + decimal(
        passcode / 16384,
        4,
    ) + rest
}

/// The passcode that has been put into a manual pairing code is read from it, whatever the other
/// digits are.
pub proof fn manual_code_reads_back(first: nat, passcode: nat, upper: nat, rest: Seq<char>)
    requires
        first < 10,
        passcode < 0x800_0000,
        upper < 4,
        rest.len() == 1 || rest.len() == 11,
        trusted::all_digits(rest),
    ensures
        setup_code::setup_passcode(manual_code(first, passcode, upper, rest)) == Ok::<
            nat,
            SetupCodeError,
        >(passcode),
{
    reveal_with_fuel(pow10, 6);
    let chunk = passcode % 16384 + 16384 * upper;
    let a = decimal(first, 1);
    let b = decimal(chunk, 5);
    let c = decimal(passcode / 16384, 4);
    lemma_decimal(first, 1);
    lemma_decimal(chunk, 5);
    lemma_decimal(passcode / 16384, 4);
    let s = manual_code(first, passcode, upper, rest);
    assert forall|i: int| 0 <= i < s.len() implies '0' <= #[trigger] s[i] <= '9' by {
        if i < 1 {
            assert(s[i] == a[i]);
        } else if i < 6 {
            assert(s[i] == b[i - 1]);
        } else if i < 10 {
            assert(s[i] == c[i - 6]);
        } else {
            assert(s[i] == rest[i - 10]);
        }
    }
    lemma_digits_are_numeric(s);
    assert(s.subrange(1, 6) =~= b);
    assert(s.subrange(6, 10) =~= c);
    assert(chunk % 16384 == passcode % 16384);
}

/// A code made of digits is only read if there are eight, eleven or twenty-one of them.
pub proof fn other_numbers_of_digits_are_refused(s: Seq<char>)
    requires
        s.len() > 0,
        trusted::all_digits(s),
    ensures
        setup_code::setup_passcode(s) is Ok <==> s.len() == 8 || s.len() == 11 || s.len() == 21,
        setup_code::setup_passcode(s) matches Err(e) ==> e == SetupCodeError::UnsupportedFormat,
{
    lemma_digits_are_numeric(s);
}

/// Whether a text is made of digits, dashes and blanks.
pub open spec fn is_spaced(s: Seq<char>) -> bool {
    forall|i: int|
        0 <= i < s.len() ==> ('0' <= #[trigger] s[i] <= '9' || s[i] == '-' || s[i] == ' ')
}

/// A dash or a blank more or less, wherever it stands, does not change what a code made of digits
/// stands for.
pub proof fn separators_do_not_matter(a: Seq<char>, c: char, b: Seq<char>)
    requires
        c == '-' || c == ' ',
        is_spaced(a),
        is_spaced(b),
        exists|i: int| 0 <= i < (a + b).len() && #[trigger] (a + b)[i] != ' ',
    ensures
        setup_code::setup_passcode(a + seq![c] + b) == setup_code::setup_passcode(a + b),
{
    let s = a + seq![c] + b;
    let t = a + b;
    let p = |c: char| setup_code::counts(c);
    assert forall|i: int| 0 <= i < s.len() implies '0' <= #[trigger] s[i] <= '9'
        || !setup_code::counts(s[i]) by {
        if i < a.len() {
            assert(s[i] == a[i]);
        } else if i > a.len() {
            assert(s[i] == b[i - a.len() - 1]);
        }
    }
    assert forall|i: int| 0 <= i < t.len() implies '0' <= #[trigger] t[i] <= '9'
        || !setup_code::counts(t[i]) by {
        if i < a.len() {
            assert(t[i] == a[i]);
        } else {
            assert(t[i] == b[i - a.len()]);
        }
    }
    let i = choose|i: int| 0 <= i < (a + b).len() && #[trigger] (a + b)[i] != ' ';
    if i < a.len() {
        assert(s[i] == t[i]);
    } else {
        assert(s[i + 1] == t[i]);
    }
    setup_code::only_digits_count(s);
    setup_code::only_digits_count(t);
    Seq::filter_distributes_over_add(a + seq![c], b, p);
    Seq::filter_distributes_over_add(a, seq![c], p);
    Seq::filter_distributes_over_add(a, b, p);
    reveal_with_fuel(Seq::filter, 2);
    assert(seq![c].drop_last() =~= seq![]);
    assert(seq![c].filter(p) =~= seq![]);
    assert(s.filter(p) =~= t.filter(p));
}

proof fn lemma_survives_trimming(s: Seq<char>, i: int)
    requires
        0 <= i < s.len(),
        !text::is_space(s[i]),
    ensures
        text::trimmed(s).contains(s[i]),
        text::trimmed(s).len() > 0,
        forall|c: char| text::trimmed(s).contains(c) ==> s.contains(c),
{
    lemma_survives_start(s, i);
    let t = text::trimmed_start(s);
    let k = choose|k: int| 0 <= k < t.len() && t[k] == s[i];
    lemma_survives_end(t, k);
}

proof fn lemma_survives_start(s: Seq<char>, i: int)
    requires
        0 <= i < s.len(),
        !text::is_space(s[i]),
    ensures
        text::trimmed_start(s).contains(s[i]),
        forall|c: char| text::trimmed_start(s).contains(c) ==> s.contains(c),
    decreases s.len(),
{
    if text::is_space(s.first()) {
        let rest = s.drop_first();
        assert(rest[i - 1] == s[i]);
        lemma_survives_start(rest, i - 1);
        assert forall|c: char| text::trimmed_start(s).contains(c) implies s.contains(c) by {
            assert(text::trimmed_start(rest).contains(c));
            assert(rest.contains(c));
            let k = choose|k: int| 0 <= k < rest.len() && rest[k] == c;
            assert(s[k + 1] == c);
        }
    }
}

proof fn lemma_survives_end(s: Seq<char>, i: int)
    requires
        0 <= i < s.len(),
        !text::is_space(s[i]),
    ensures
        text::trimmed_end(s).contains(s[i]),
        forall|c: char| text::trimmed_end(s).contains(c) ==> s.contains(c),
    decreases s.len(),
{
    if text::is_space(s.last()) {
        let rest = s.drop_last();
        assert(rest[i] == s[i]);
        lemma_survives_end(rest, i);
        assert forall|c: char| text::trimmed_end(s).contains(c) implies s.contains(c) by {
            assert(text::trimmed_end(rest).contains(c));
            assert(rest.contains(c));
            let k = choose|k: int| 0 <= k < rest.len() && rest[k] == c;
            assert(s[k] == c);
        }
    }
}

/// A text without an `M` is no setup code if it has anything in it but digits, dashes and
/// whitespace.
pub proof fn other_characters_are_refused(s: Seq<char>, i: int)
    requires
        0 <= i < s.len(),
        !s.contains('M'),
        !text::is_space(s[i]),
        s[i] != '-',
        !('0' <= s[i] <= '9'),
    ensures
        setup_code::setup_passcode(s) == Err::<nat, SetupCodeError>(
            SetupCodeError::UnsupportedFormat,
        ),
{
    reveal_strlit("MT:");
    reveal_strlit("MT%3A");
    lemma_survives_trimming(s, i);
    let code = text::trimmed(s);
    assert(!code.contains('M'));
    assert forall|at: int| #[trigger] text::occurs_at(code, "MT:"@, at) implies false by {
        assert(code.subrange(at, at + 3)[0] == code[at]);
    }
    assert forall|at: int| #[trigger] text::occurs_at(code, "MT%3A"@, at) implies false by {
        assert(code.subrange(at, at + 5)[0] == code[at]);
    }
    if exists|at: int| text::first_occurrence(code, "MT:"@, at) {
        let at = choose|at: int| text::first_occurrence(code, "MT:"@, at);
        assert(text::occurs_at(code, "MT:"@, at));
    }
    if exists|at: int| text::first_occurrence(code, "MT%3A"@, at) {
        let at = choose|at: int| text::first_occurrence(code, "MT%3A"@, at);
        assert(text::occurs_at(code, "MT%3A"@, at));
    }
    let k = choose|k: int| 0 <= k < code.len() && code[k] == s[i];
    let p = |c: char| setup_code::counts(c);
    code.lemma_filter_contains(p, k);
    let numeric = setup_code::without_separators(code);
    let n = choose|n: int| 0 <= n < numeric.len() && numeric[n] == s[i];
    assert(!('0' <= numeric[n] <= '9'));
}

proof fn lemma_digits_bound(s: Seq<char>)
    requires
        trusted::all_digits(s),
    ensures
        trusted::digits_value(s) < pow10(s.len()),
    decreases s.len(),
{
    if s.len() > 0 {
        assert('0' <= s[s.len() - 1] <= '9');
        assert forall|i: int| 0 <= i < s.drop_last().len() implies '0'
            <= #[trigger] s.drop_last()[i] <= '9' by {
            assert(s.drop_last()[i] == s[i]);
        }
        lemma_digits_bound(s.drop_last());
    }
}

/// Every passcode has at most 28 bits.
pub proof fn passcode_fits(s: Seq<char>)
    ensures
        setup_code::setup_passcode(s) matches Ok(passcode) ==> passcode < 0x1000_0000,
{
    let code = text::trimmed(s);
    match setup_code::qr_payload(code) {
        Some(payload) => {
            setup_code::qr_passcode_is_bounded(payload);
        },
        None => {
            let n = setup_code::without_separators(code);
            reveal_with_fuel(pow10, 9);
            if trusted::all_digits(n) && n.len() >= 10 {
                let upper = n.subrange(6, 10);
                assert forall|i: int| 0 <= i < upper.len() implies '0' <= #[trigger] upper[i]
                    <= '9' by {
                    assert(upper[i] == n[6 + i]);
                }
                lemma_digits_bound(upper);
            } else if trusted::all_digits(n) {
                lemma_digits_bound(n);
            }
        },
    }
}

/// A text of nothing but whitespace is an empty setup code.
pub proof fn blank_code_is_empty(s: Seq<char>)
    requires
        forall|i: int| 0 <= i < s.len() ==> text::is_space(#[trigger] s[i]),
    ensures
        setup_code::setup_passcode(s) == Err::<nat, SetupCodeError>(SetupCodeError::Empty),
    decreases s.len(),
{
    if s.len() > 0 {
        let rest = s.drop_first();
        assert forall|i: int| 0 <= i < rest.len() implies text::is_space(#[trigger] rest[i]) by {
            assert(rest[i] == s[i + 1]);
        }
        assert(text::is_space(s[0]));
        blank_code_is_empty(rest);
        assert(text::trimmed(s) == text::trimmed(rest));
    }
}

/// Reading a code made of digits gives the passcode that it stands for: eight digits are the passcode
/// itself, and a manual pairing code holds it in two parts.
pub proof fn read_digits_are_the_passcode(
    first: nat,
    passcode: u32,
    upper: nat,
    rest: Seq<char>,
    code: &str,
    r: Result<u32, SetupCodeError>,
)
    requires
        (passcode < 100_000_000 && code@ == decimal(passcode as nat, 8)) || (first < 10 && passcode
            < 0x800_0000 && upper < 4 && (rest.len() == 1 || rest.len() == 11)
            && trusted::all_digits(rest) && code@ == manual_code(
            first,
            passcode as nat,
            upper,
            rest,
        )),
        call_ensures(setup_code::parse_setup_code, (code,), r),
    ensures
        r == Ok::<u32, SetupCodeError>(passcode),
{
    if passcode < 100_000_000 && code@ == decimal(passcode as nat, 8) {
        eight_digits_read_back(passcode as nat);
    } else {
        manual_code_reads_back(first, passcode as nat, upper, rest);
    }
}

} // verus!
