use captura::text::{trim, white_space};

#[test]
fn white_space_is_chars_whitespace() {
    for v in 0u32..=0x10FFFF {
        if let Some(c) = char::from_u32(v) {
            assert_eq!(white_space(c), c.is_whitespace(), "U+{v:04X}");
        }
    }
}

#[test]
fn trim_agrees_with_str_trim() {
    let cases = [
        "", " ", "  Ctrl ", "\tShift\n", "a b", "\u{3000}x\u{a0}", "\u{200b}y", " \u{85}z\u{2029} ",
        "no-space",
    ];
    for s in cases {
        assert_eq!(trim(s), s.trim(), "{s:?}");
    }
}
