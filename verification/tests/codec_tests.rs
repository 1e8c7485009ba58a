use base64::engine::general_purpose::STANDARD_NO_PAD;
use base64::Engine;

use wetdirt::codec::{base64_decode, base64_encode};

#[test]
fn encode_known_vectors() {
    assert_eq!(base64_encode(b""), "");
    assert_eq!(base64_encode(b"f"), "Zg");
    assert_eq!(base64_encode(b"fo"), "Zm8");
    assert_eq!(base64_encode(b"foo"), "Zm9v");
    assert_eq!(base64_encode(b"foob"), "Zm9vYg");
    assert_eq!(base64_encode(b"fooba"), "Zm9vYmE");
    assert_eq!(base64_encode(b"foobar"), "Zm9vYmFy");
}

#[test]
fn encode_matches_reference_engine() {
    let samples: Vec<Vec<u8>> = vec![
        vec![],
        vec![0],
        vec![255],
        vec![0, 1, 2, 3, 4, 5, 6, 7, 8, 9, 250, 251, 252, 253, 254, 255],
        (0u16..=255).map(|b| b as u8).collect(),
    ];
    for bytes in samples {
        assert_eq!(base64_encode(&bytes), STANDARD_NO_PAD.encode(&bytes));
    }
}

#[test]
fn decode_inverts_encode() {
    let samples: Vec<Vec<u8>> = vec![
        vec![],
        vec![42],
        vec![1, 2],
        vec![1, 2, 3],
        (0u16..=255).map(|b| b as u8).collect(),
    ];
    for bytes in samples {
        let text = base64_encode(&bytes);
        assert_eq!(base64_decode(&text), Some(bytes));
    }
}

#[test]
fn decode_matches_reference_engine() {
    for text in ["", "Zg", "Zm8", "Zm9v", "AAAA", "cm9vdDpyb290"] {
        assert_eq!(
            base64_decode(text),
            STANDARD_NO_PAD.decode(text).ok(),
            "difference on {text:?}"
        );
    }
}

#[test]
fn decode_rejects_bad_lengths_and_characters() {
    assert_eq!(base64_decode("A"), None);
    assert_eq!(base64_decode("AAAAB"), None);
    assert_eq!(base64_decode("Zg=="), None);
    assert_eq!(base64_decode("Z!"), None);
    assert_eq!(base64_decode("Zm9v Zg"), None);
}

#[test]
fn decode_rejects_nonzero_trailing_bits() {
    // 'h' carries low bits that no encoder output would set.
    assert_eq!(base64_decode("Zh"), None);
    assert_eq!(STANDARD_NO_PAD.decode("Zh").ok(), None::<Vec<u8>>);
}

#[test]
fn encoded_length_is_fixed_for_a_given_byte_length() {
    let a = base64_encode(&vec![0u8; 256]);
    let b = base64_encode(&vec![255u8; 256]);
    assert_eq!(a.len(), 342);
    assert_eq!(b.len(), 342);
    let h = base64_encode(&vec![7u8; 64]);
    assert_eq!(h.len(), 86);
}

#[test]
fn encoded_text_is_safe_for_query_interpolation() {
    let all: Vec<u8> = (0u16..=255).map(|b| b as u8).collect();
    let text = base64_encode(&all);
    assert!(!text.contains('\''));
    assert!(!text.contains('`'));
    assert!(!text.chars().any(|c| c.is_whitespace()));
}
