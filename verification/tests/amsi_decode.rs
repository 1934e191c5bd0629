use sentinella::amsi_provider::decode::{decode_amsi_content, looks_like_utf16le, units_of};
use sentinella::utf16::{text_from_utf16_lossy, wide};

fn utf16le(s: &str) -> Vec<u8> {
    s.encode_utf16().flat_map(|u| u.to_le_bytes()).collect()
}

#[test]
fn utf16le_powershell_decodes_correctly() {
    let bytes = utf16le("Invoke-Expression");
    assert!(looks_like_utf16le(&bytes));
    assert_eq!(decode_amsi_content(&bytes), "Invoke-Expression");
}

#[test]
fn the_old_utf8_path_was_broken() {
    let bytes = utf16le("Invoke-Expression");
    let old = String::from_utf8_lossy(&bytes);
    assert!(!old.contains("Invoke-Expression"));
    assert!(decode_amsi_content(&bytes).contains("Invoke-Expression"));
}

#[test]
fn utf16le_with_bom_is_stripped() {
    let mut bytes = vec![0xFF, 0xFE];
    bytes.extend(utf16le("whoami"));
    assert_eq!(decode_amsi_content(&bytes), "whoami");
}

#[test]
fn utf8_ascii_is_unchanged() {
    let s = "Write-Host 'hello'; Get-Date";
    assert!(!looks_like_utf16le(s.as_bytes()));
    assert_eq!(decode_amsi_content(s.as_bytes()), s);
}

#[test]
fn utf8_multibyte_is_unchanged() {
    let s = "café ☃ résumé";
    assert!(!looks_like_utf16le(s.as_bytes()));
    assert_eq!(decode_amsi_content(s.as_bytes()), s);
}

#[test]
fn odd_length_falls_back_to_utf8() {
    let b = b"abc";
    assert!(!looks_like_utf16le(b));
    assert_eq!(decode_amsi_content(b), "abc");
}

#[test]
fn empty_is_empty() {
    assert_eq!(decode_amsi_content(&[]), "");
    assert!(!looks_like_utf16le(&[]));
}

#[test]
fn invalid_utf8_is_replaced() {
    let b = [b'a', 0xFF, b'b'];
    assert_eq!(decode_amsi_content(&b), "a\u{fffd}b");
}

#[test]
fn only_one_byte_order_mark_is_stripped() {
    let mut bytes = vec![0xFF, 0xFE, 0xFF, 0xFE];
    bytes.extend(utf16le("x"));
    assert_eq!(decode_amsi_content(&bytes), "\u{feff}x");
}

#[test]
fn three_nul_high_bytes_in_five_are_enough() {
    let mut bytes = utf16le("abc");
    bytes.extend([1, 0x30, 2, 0x30]);
    assert!(looks_like_utf16le(&bytes));
    let mut fewer = utf16le("ab");
    fewer.extend([1, 0x30, 2, 0x30, 3, 0x30]);
    assert!(!looks_like_utf16le(&fewer));
}

#[test]
fn only_the_first_units_are_sampled() {
    let mut bytes = utf16le(&"a".repeat(512));
    bytes.extend(vec![0x30u8; 4000]);
    assert!(looks_like_utf16le(&bytes));
}

#[test]
fn utf16_text_is_read_back() {
    for s in ["", "plain", "café ☃ résumé", "a\u{10ffff}b\u{10000}", "\u{ffff}"] {
        let mut w = wide(s);
        assert_eq!(w.pop(), Some(0));
        assert_eq!(w, s.encode_utf16().collect::<Vec<u16>>());
        assert_eq!(text_from_utf16_lossy(&w), s);
    }
}

#[test]
fn lone_surrogates_are_replaced() {
    for units in [
        vec![0xD800u16],
        vec![0xDC00, 0x41],
        vec![0xD800, 0xD800, 0xDC00],
        vec![0x41, 0xDBFF, 0x42],
    ] {
        assert_eq!(text_from_utf16_lossy(&units), String::from_utf16_lossy(&units));
    }
}

#[test]
fn an_odd_last_byte_is_left_out_of_the_units() {
    assert_eq!(units_of(&[0x41, 0x00, 0x34, 0x12, 0x99]), vec![0x0041, 0x1234]);
}
