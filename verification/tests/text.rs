use redstone_emulator::text::{decode_utf16_lossy, str_eq};

#[test]
fn equal_strings() {
    assert!(str_eq("", ""));
    assert!(str_eq("ADD", "ADD"));
    assert!(str_eq("grüße", "grüße"));
    assert!(!str_eq("ADD", "ADd"));
    assert!(!str_eq("ADD", "AD"));
    assert!(!str_eq("", "A"));
    assert!(!str_eq("é", "e"));
}

#[test]
fn plain_units_decode_to_themselves() {
    assert_eq!(decode_utf16_lossy(&[0x0048, 0x0069]), "Hi");
    assert_eq!(decode_utf16_lossy(&[]), "");
    assert_eq!(decode_utf16_lossy(&[0x00E9, 0x20AC, 0xFFFF, 0]), "\u{e9}\u{20ac}\u{ffff}\u{0}");
}

#[test]
fn surrogate_pair_decodes_to_one_character() {
    assert_eq!(decode_utf16_lossy(&[0xD834, 0xDD1E]), "\u{1D11E}");
    assert_eq!(decode_utf16_lossy(&[0xD800, 0xDC00]), "\u{10000}");
    assert_eq!(decode_utf16_lossy(&[0xDBFF, 0xDFFF]), "\u{10FFFF}");
    assert_eq!(decode_utf16_lossy(&[0x0041, 0xD83D, 0xDE00, 0x0042]), "A\u{1F600}B");
}

#[test]
fn lone_surrogates_are_replaced() {
    assert_eq!(decode_utf16_lossy(&[0xD800]), "\u{FFFD}");
    assert_eq!(decode_utf16_lossy(&[0xDC00]), "\u{FFFD}");
    assert_eq!(decode_utf16_lossy(&[0xD800, 0x0041]), "\u{FFFD}A");
    assert_eq!(decode_utf16_lossy(&[0xDC00, 0xD800]), "\u{FFFD}\u{FFFD}");
    assert_eq!(decode_utf16_lossy(&[0xD800, 0xD800, 0xDC00]), "\u{FFFD}\u{10000}");
    assert_eq!(
        decode_utf16_lossy(&[0xD834, 0xDD1E, 0x006d, 0x0075, 0xD800, 0x0069, 0x0063]),
        "\u{1D11E}mu\u{FFFD}ic"
    );
}

#[test]
fn decoding_agrees_with_the_standard_library() {
    let interesting: [u16; 10] =
        [0x0000, 0x0041, 0xD7FF, 0xD800, 0xDBFF, 0xDC00, 0xDFFF, 0xE000, 0xFFFD, 0xFFFF];
    for a in interesting {
        assert_eq!(decode_utf16_lossy(&[a]), String::from_utf16_lossy(&[a]));
        for b in interesting {
            assert_eq!(decode_utf16_lossy(&[a, b]), String::from_utf16_lossy(&[a, b]));
            for c in interesting {
                assert_eq!(decode_utf16_lossy(&[a, b, c]), String::from_utf16_lossy(&[a, b, c]));
            }
        }
    }
}
