use matter_example::setup_code::{
    base38_decode, decode_qr_payload_passcode, extract_bits, extract_qr_payload, parse_setup_code,
    SetupCodeError,
};

#[test]
fn parses_raw_passcode() {
    assert_eq!(parse_setup_code("20202021").unwrap(), 20202021);
}

#[test]
fn parses_manual_pairing_code() {
    assert_eq!(parse_setup_code("34970112332").unwrap(), 20202021);
    assert_eq!(parse_setup_code("2585-103-3238").unwrap(), 54453390);
}

#[test]
fn parses_qr_payload() {
    assert_eq!(
        decode_qr_payload_passcode("MT:Y.K9042C00KA0648G00").unwrap(),
        20202021
    );
}

#[test]
fn parses_qr_payload_from_url() {
    assert_eq!(
        parse_setup_code(
            "https://project-chip.github.io/connectedhomeip/qrcode.html?data=MT%3AY.K9042C00KA0648G00"
        )
        .unwrap(),
        20202021
    );
}

#[test]
fn decodes_base38_known_payload() {
    let bytes = base38_decode("Y.K9042C00KA0648G00").unwrap();
    assert!(bytes.len() >= 11);
}

#[test]
fn base38_groups_have_exact_values() {
    // Five digits stand for three bytes, four for two, two for one.
    assert_eq!(base38_decode("00000").unwrap(), vec![0, 0, 0]);
    assert_eq!(base38_decode("10000").unwrap(), vec![1, 0, 0]);
    assert_eq!(base38_decode("01000").unwrap(), vec![38, 0, 0]);
    assert_eq!(base38_decode("0100").unwrap(), vec![38, 0]);
    assert_eq!(base38_decode("Z0").unwrap(), vec![35]);
    assert_eq!(base38_decode(".0").unwrap(), vec![37]);
    assert_eq!(base38_decode("-1").unwrap(), vec![74]);
    assert_eq!(base38_decode("").unwrap(), Vec::<u8>::new());
    // The highest byte of a group that does not fit is dropped.
    assert_eq!(base38_decode("..").unwrap(), vec![((37 + 38 * 37) % 256) as u8]);
}

#[test]
fn base38_errors() {
    assert_eq!(base38_decode("0"), Err(SetupCodeError::InvalidLength));
    assert_eq!(base38_decode("000"), Err(SetupCodeError::InvalidLength));
    assert_eq!(base38_decode("000000"), Err(SetupCodeError::InvalidLength));
    assert_eq!(base38_decode("0a"), Err(SetupCodeError::InvalidCharacter('a')));
    // The first byte of a character outside ASCII is reported by its code.
    assert_eq!(base38_decode("é"), Err(SetupCodeError::InvalidCharacter('\u{c3}')));
}

#[test]
fn bits_are_cut_out() {
    assert_eq!(extract_bits(0b1101_0110, 1, 3), 0b011);
    assert_eq!(extract_bits(0b1101_0110, 4, 4), 0b1101);
    assert_eq!(extract_bits(u128::MAX, 57, 27), 0x7ff_ffff);
    assert_eq!(extract_bits(5, 0, 0), 0);
}

#[test]
fn payloads_are_found() {
    assert_eq!(extract_qr_payload("MT:ABC&x=1").as_deref(), Some("MT:ABC&x=1"));
    assert_eq!(extract_qr_payload("http://h/?d=MT%3AABC&x=1").as_deref(), Some("MT:ABC"));
    assert_eq!(extract_qr_payload("http://h/?d=MT:ABC&x=1").as_deref(), Some("MT:ABC"));
    assert_eq!(extract_qr_payload("xMT:MT%3AABC").as_deref(), Some("MT:ABC"));
    assert_eq!(extract_qr_payload("12345678"), None);
}

#[test]
fn setup_code_errors() {
    assert_eq!(parse_setup_code(" \t "), Err(SetupCodeError::Empty));
    assert_eq!(parse_setup_code("1234567"), Err(SetupCodeError::UnsupportedFormat));
    assert_eq!(parse_setup_code("1234567x"), Err(SetupCodeError::UnsupportedFormat));
    assert_eq!(parse_setup_code("MT:0000"), Err(SetupCodeError::PayloadTooShort));
    assert_eq!(parse_setup_code("MT:0"), Err(SetupCodeError::InvalidLength));
    assert_eq!(parse_setup_code("MT:a0"), Err(SetupCodeError::InvalidCharacter('a')));
    assert_eq!(decode_qr_payload_passcode("Y.K90"), Err(SetupCodeError::MissingPrefix));
}

#[test]
fn setup_code_error_messages() {
    assert_eq!(SetupCodeError::Empty.message(), "setup code is empty");
    assert_eq!(
        SetupCodeError::UnsupportedFormat.message(),
        "unsupported setup code format; use an 8-digit passcode, manual pairing code, or MT: QR payload"
    );
    assert_eq!(
        SetupCodeError::InvalidManualPairingCode.message(),
        "invalid manual pairing code"
    );
    assert_eq!(SetupCodeError::MissingPrefix.message(), "QR payload must start with MT:");
    assert_eq!(SetupCodeError::PayloadTooShort.message(), "QR payload is too short");
    assert_eq!(SetupCodeError::InvalidLength.message(), "invalid base38 payload length");
    assert_eq!(
        SetupCodeError::InvalidCharacter('a').message(),
        "invalid base38 character: a"
    );
}

#[test]
fn only_the_digits_of_a_numeric_code_count() {
    assert_eq!(parse_setup_code("  2020-20 21 ").unwrap(), 20202021);
    assert_eq!(parse_setup_code("3497-011-2332"), parse_setup_code("34970112332"));
    assert_eq!(parse_setup_code("- 00000001").unwrap(), 1);
}

#[test]
fn manual_code_of_twenty_one_digits_has_the_same_passcode() {
    assert_eq!(
        parse_setup_code("349701123312345678901").unwrap(),
        parse_setup_code("34970112332").unwrap()
    );
}

#[test]
fn manual_code_follows_its_formula() {
    // Digits two to six give the lower fourteen bits, digits seven to ten the bits above them.
    let low = 85103u32 & 0x3fff;
    let high = 3238u32 / 10 * 10 + 8;
    let code = format!("2{:05}{:04}0", 85103, high);
    assert_eq!(parse_setup_code(&code).unwrap(), low + (high << 14));
}

#[test]
fn payload_passcode_has_twenty_seven_bits() {
    let passcode = decode_qr_payload_passcode("MT:.............................").unwrap();
    assert!(passcode < 1 << 27);
}
