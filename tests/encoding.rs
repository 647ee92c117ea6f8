use termplt::encoding::read_bytes_to_b64;

#[test]
fn encode_1_byte() {
    let text = b"M";
    let enc_bytes = read_bytes_to_b64(text).expect("Failed to encode text");
    let enc_text = std::str::from_utf8(&enc_bytes).expect("Encoded text is invalid UTF-8");
    assert_eq!(enc_text.len(), 2, "1 byte should be 2 base64 values");
    assert_eq!(enc_text, "TQ");
}

#[test]
fn encode_2_bytes() {
    let text = b"Ma";
    let enc_bytes = read_bytes_to_b64(text).expect("Failed to encode text");
    let enc_text = std::str::from_utf8(&enc_bytes).expect("Encoded text is invalid UTF-8");
    assert_eq!(enc_text.len(), 3, "2 bytes should be 3 base64 values");
    assert_eq!(enc_text, "TWE");
}

#[test]
fn encode_3_bytes() {
    let text = b"Man";
    let enc_bytes = read_bytes_to_b64(text).expect("Failed to encode text");
    let enc_text = std::str::from_utf8(&enc_bytes).expect("Encoded text is invalid UTF-8");
    assert_eq!(enc_text.len(), 4, "3 bytes should be 4 base64 values");
    assert_eq!(enc_text, "TWFu");
}

#[test]
fn encode_longer_text_and_all_digits() {
    let enc = read_bytes_to_b64(b"Many hands make light work.").unwrap();
    assert_eq!(
        std::str::from_utf8(&enc).unwrap(),
        "TWFueSBoYW5kcyBtYWtlIGxpZ2h0IHdvcmsu"
    );
    let enc = read_bytes_to_b64(&[0xfb, 0xff, 0xbf]).unwrap();
    assert_eq!(std::str::from_utf8(&enc).unwrap(), "+/+/");
    assert!(read_bytes_to_b64(&[]).unwrap().is_empty());
}
