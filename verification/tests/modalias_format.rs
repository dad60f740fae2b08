use bluebus::error::BluetoothError;
use bluebus::modalias::parse;

#[test]
fn parse_extracts_source_and_identifiers() {
    let parsed = parse("SOURCE:v1234p5678dABCD").unwrap();
    assert_eq!(parsed.0, "SOURCE".to_string());
    assert_eq!(parsed.1, 0x1234);
    assert_eq!(parsed.2, 0x5678);
    assert_eq!(parsed.3, 0xABCD);
}

#[test]
fn parse_rejects_string_without_colon() {
    assert_eq!(parse("bad-string"), Err(BluetoothError::MalformedModalias));
}

#[test]
fn parse_is_pure_and_idempotent() {
    let first = parse("usb:v1D6Bp0246d0537");
    let second = parse("usb:v1D6Bp0246d0537");
    assert_eq!(first, second);
    let third = parse("bad-string");
    let fourth = parse("bad-string");
    assert_eq!(third, fourth);
}

#[test]
fn parse_accepts_lowercase_and_uppercase_hex() {
    let parsed = parse("usb:v00ffp0a0Bdc0DE").unwrap();
    assert_eq!(parsed.0, "usb".to_string());
    assert_eq!(parsed.1, 0x00FF);
    assert_eq!(parsed.2, 0x0A0B);
    assert_eq!(parsed.3, 0xC0DE);
}

#[test]
fn parse_reconstructs_fields_byte_by_byte() {
    // High byte times 256 plus low byte: v8081 is 0x80 * 256 + 0x81.
    let parsed = parse("pci:v8081p0001d00FF").unwrap();
    assert_eq!(parsed.1, 0x80 * 256 + 0x81);
    assert_eq!(parsed.2, 1);
    assert_eq!(parsed.3, 255);
}

#[test]
fn parse_rejects_short_segment() {
    assert_eq!(parse("usb:v1234p5678"), Err(BluetoothError::MalformedModalias));
    assert_eq!(parse("usb:"), Err(BluetoothError::MalformedModalias));
}

#[test]
fn parse_rejects_segment_cut_by_second_colon() {
    assert_eq!(
        parse("usb:v12:34p5678dABCD"),
        Err(BluetoothError::MalformedModalias)
    );
}

#[test]
fn parse_rejects_bad_hex_digits() {
    assert_eq!(
        parse("usb:vZZZZp5678dABCD"),
        Err(BluetoothError::MalformedModalias)
    );
    assert_eq!(
        parse("usb:v1234p56G8dABCD"),
        Err(BluetoothError::MalformedModalias)
    );
}

#[test]
fn parse_ignores_prefix_letters_and_trailing_text() {
    // The letters before each field are not inspected, and text past the
    // device field is ignored.
    let parsed = parse("bluetooth:x1234y5678zABCDextra").unwrap();
    assert_eq!(parsed.0, "bluetooth".to_string());
    assert_eq!(parsed.1, 0x1234);
    assert_eq!(parsed.2, 0x5678);
    assert_eq!(parsed.3, 0xABCD);
}

#[test]
fn parse_empty_source_is_accepted() {
    let parsed = parse(":v0000p0000d0000").unwrap();
    assert_eq!(parsed.0, String::new());
    assert_eq!(parsed.1, 0);
}
