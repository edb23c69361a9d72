use jisho::resource_header::{convert_line, white_space};

#[test]
fn define_becomes_a_constant() {
    assert_eq!(convert_line("#define IDI_ICON_JISHO 101"), Some("pub const IDI_ICON_JISHO: u32 = 101;\n".to_string()));
    assert_eq!(convert_line("\t#define\tIDS_TOOLTIP   0x2A  "), Some("pub const IDS_TOOLTIP: u32 = 0x2A;\n".to_string()));
    assert_eq!(convert_line("\u{3000}#define A\u{a0}1"), Some("pub const A: u32 = 1;\n".to_string()));
}

#[test]
fn blank_and_incomplete_lines_become_empty_lines() {
    assert_eq!(convert_line(""), Some("\n".to_string()));
    assert_eq!(convert_line("   \t "), Some("\n".to_string()));
    assert_eq!(convert_line("#define"), Some("\n".to_string()));
    assert_eq!(convert_line("#define ONLY_NAME"), Some("\n".to_string()));
}

#[test]
fn other_lines_become_nothing() {
    assert_eq!(convert_line("// comment"), None);
    assert_eq!(convert_line("#include <windows.h>"), None);
    assert_eq!(convert_line("#define A 1 2"), None);
    assert_eq!(convert_line("#DEFINE A 1"), None);
}

#[test]
fn white_space_is_unicode_white_space() {
    for c in ['\t', '\n', '\u{b}', '\u{c}', '\r', ' ', '\u{85}', '\u{a0}', '\u{1680}', '\u{2000}', '\u{200a}', '\u{2028}', '\u{2029}', '\u{202f}', '\u{205f}', '\u{3000}'] {
        assert!(white_space(c), "{:?}", c);
    }
    for c in ['a', '#', '\u{0}', '\u{200b}', '\u{feff}', '\u{180e}'] {
        assert!(!white_space(c), "{:?}", c);
    }
    for n in 0..=0x10FFFFu32 {
        if let Some(c) = char::from_u32(n) {
            assert_eq!(white_space(c), c.is_whitespace(), "{:?}", c);
        }
    }
}
