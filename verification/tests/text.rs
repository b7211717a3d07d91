use vmm_sys_util::text::{push_hex, push_hex_fixed};
use vmm_sys_util::utf16::encode;

#[test]
fn hexadecimal_has_no_leading_zeros() {
    for value in [0u32, 1, 9, 10, 15, 16, 255, 256, 0x4000_0000, u32::MAX] {
        let mut s = String::from("<");
        push_hex(&mut s, value);
        assert_eq!(s, format!("<{value:x}"));
    }
}

#[test]
fn fixed_hexadecimal_has_all_its_digits() {
    for value in [0u32, 1, 0xAB, 0xC000_0022] {
        let mut s = String::new();
        push_hex_fixed(&mut s, value, 8);
        assert_eq!(s, format!("{value:08x}"));
    }
    let mut s = String::new();
    push_hex_fixed(&mut s, 0x5, 2);
    push_hex_fixed(&mut s, 0x1234, 0);
    assert_eq!(s, "05");
}

#[test]
fn text_is_encoded_as_the_standard_library_does() {
    for text in ["", "Event", "\u{0}", "\u{D7FF}\u{E000}\u{FFFF}", "\u{10000}x\u{10FFFF}", "\u{1D11E}"] {
        assert_eq!(encode(text), text.encode_utf16().collect::<Vec<u16>>());
    }
}
