use uarte_ring::text::DecodeError;
use uarte_ring::text::Text;

fn accepts(bytes: &[u8]) -> bool {
    Text::from_bytes(bytes.to_vec()).is_ok()
}

#[test]
fn ascii_round_trip() {
    let t = match Text::from_bytes(b"HELLO".to_vec()) {
        Ok(t) => t,
        Err(_) => panic!("ascii must decode"),
    };
    assert_eq!(t.as_bytes().as_slice(), b"HELLO");
    assert_eq!(t.len(), 5);
}

#[test]
fn empty_is_valid_text() {
    let t = match Text::from_bytes(Vec::new()) {
        Ok(t) => t,
        Err(_) => panic!("empty must decode"),
    };
    assert_eq!(t.len(), 0);
}

#[test]
fn nul_padding_is_valid_text() {
    assert!(accepts(&[0x00, 0x00, 0x00, 0x00, 0x00]));
}

#[test]
fn two_byte_sequences_accepted() {
    assert!(accepts(&[0x68, 0xC3, 0xA9, 0x21]));
    assert!(accepts(&[0xC2, 0x80]));
    assert!(accepts(&[0xDF, 0xBF]));
}

#[test]
fn three_byte_sequences_accepted() {
    assert!(accepts(&[0xE2, 0x82, 0xAC]));
    assert!(accepts(&[0xE0, 0xA0, 0x80]));
    assert!(accepts(&[0xED, 0x9F, 0xBF]));
    assert!(accepts(&[0xEE, 0x80, 0x80]));
}

#[test]
fn four_byte_sequences_accepted() {
    assert!(accepts(&[0xF0, 0x9F, 0x98, 0x80]));
    assert!(accepts(&[0xF0, 0x90, 0x80, 0x80]));
    assert!(accepts(&[0xF4, 0x8F, 0xBF, 0xBF]));
}

#[test]
fn lone_continuation_rejected() {
    assert!(matches!(
        Text::from_bytes(vec![0x80]),
        Err(DecodeError::InvalidEncoding)
    ));
}

#[test]
fn overlong_forms_rejected() {
    assert!(!accepts(&[0xC0, 0xAF]));
    assert!(!accepts(&[0xC1, 0x80]));
    assert!(!accepts(&[0xE0, 0x9F, 0xBF]));
    assert!(!accepts(&[0xF0, 0x8F, 0xBF, 0xBF]));
}

#[test]
fn surrogates_rejected() {
    assert!(!accepts(&[0xED, 0xA0, 0x80]));
    assert!(!accepts(&[0xED, 0xBF, 0xBF]));
}

#[test]
fn beyond_unicode_range_rejected() {
    assert!(!accepts(&[0xF4, 0x90, 0x80, 0x80]));
    assert!(!accepts(&[0xF5, 0x80, 0x80, 0x80]));
    assert!(!accepts(&[0xFF, 0xFF, 0xFF, 0xFF, 0xFF]));
}

#[test]
fn truncated_sequences_rejected() {
    assert!(!accepts(&[0xC3]));
    assert!(!accepts(&[0xE2, 0x82]));
    assert!(!accepts(&[0xF0, 0x9F, 0x98]));
    assert!(!accepts(&[0x48, 0x45, 0x4C, 0x4C, 0xC3]));
}

#[test]
fn validity_agrees_with_std() {
    let cases: Vec<Vec<u8>> = vec![
        b"HELLO".to_vec(),
        vec![],
        vec![0x00; 5],
        vec![0x68, 0xC3, 0xA9, 0x21],
        vec![0xE2, 0x82, 0xAC],
        vec![0xF0, 0x9F, 0x98, 0x80],
        vec![0x80],
        vec![0xC0, 0xAF],
        vec![0xE0, 0x9F, 0xBF],
        vec![0xED, 0xA0, 0x80],
        vec![0xF4, 0x90, 0x80, 0x80],
        vec![0xC3],
        vec![0xE2, 0x82],
        vec![0x48, 0xC3, 0xA9, 0xE2, 0x82],
    ];
    for bytes in cases {
        assert_eq!(
            Text::from_bytes(bytes.clone()).is_ok(),
            std::str::from_utf8(&bytes).is_ok(),
            "disagreement on {:?}",
            bytes
        );
    }
}
