use jisho::messages::{lparam_high, lparam_low};
use jisho::tray::{copy_keystrokes, lookup_url, main_action, selection_lookup_url, Keystroke, MainAction};

const QUIT: u32 = 40001;

#[test]
fn lookup_url_quotes_and_lowers_ascii() {
    assert_eq!(lookup_url("Hello World"), "https://jisho.org/api/v1/search/words?keyword=\"hello world\"");
    assert_eq!(lookup_url(""), "https://jisho.org/api/v1/search/words?keyword=\"\"");
    assert_eq!(lookup_url("ÀB"), "https://jisho.org/api/v1/search/words?keyword=ÀB");
}

#[test]
fn lookup_url_keeps_other_text_as_is() {
    assert_eq!(lookup_url("辞書"), "https://jisho.org/api/v1/search/words?keyword=辞書");
    assert_eq!(lookup_url("日本Go"), "https://jisho.org/api/v1/search/words?keyword=日本Go");
}

#[test]
fn lookup_ignores_ascii_case() {
    assert_eq!(lookup_url("WoRd"), lookup_url("word"));
    assert_eq!(lookup_url("A-Z[]@`"), lookup_url("a-z[]@`"));
}

#[test]
fn copy_is_control_c_pressed_then_released() {
    let keys = copy_keystrokes();
    assert_eq!(
        keys,
        vec![
            Keystroke { key: 0x11, release: false },
            Keystroke { key: 0x43, release: false },
            Keystroke { key: 0x11, release: true },
            Keystroke { key: 0x43, release: true },
        ]
    );
}

#[test]
fn parameter_words() {
    assert_eq!(lparam_low(0x0044_0002), 2);
    assert_eq!(lparam_high(0x0044_0002), 0x44);
    assert_eq!(lparam_low(-1), 0xffff);
    assert_eq!(lparam_high(-1), 0xffff);
    assert_eq!(lparam_high(-0x10000), 0xffff);
    assert_eq!(lparam_low(-0x10000), 0);
}

#[test]
fn shortcut_starts_lookup() {
    assert_eq!(main_action(0x0312, 0, 0x0044_0002, QUIT), MainAction::LookUpSelection);
    assert_eq!(main_action(0x0312, 0, 0x0044_0006, QUIT), MainAction::LookUpSelection);
    assert_eq!(main_action(0x0312, 0, 0x0044_0001, QUIT), MainAction::Handled);
    assert_eq!(main_action(0x0312, 0, 0x0043_0002, QUIT), MainAction::Handled);
}

#[test]
fn main_window_messages() {
    assert_eq!(main_action(0x0001, 0, 0, QUIT), MainAction::StoreCreateParams);
    assert_eq!(main_action(0x0002, 0, 0, QUIT), MainAction::PostQuitMessage);
    assert_eq!(main_action(0x0111, QUIT as usize, 0, QUIT), MainAction::QuitApplication);
    assert_eq!(main_action(0x0111, QUIT as usize + 1, 0, QUIT), MainAction::Handled);
    assert_eq!(main_action(0x0400, 0, 0x0400, QUIT), MainAction::TrayIconSelected);
    assert_eq!(main_action(0x0400, 0, 0x0205, QUIT), MainAction::ShowTrayMenu);
    assert_eq!(main_action(0x0400, 0, 0x0001_0205, QUIT), MainAction::ShowTrayMenu);
    assert_eq!(main_action(0x0400, 0, 0x0200, QUIT), MainAction::Handled);
    assert_eq!(main_action(0x0010, 0, 0, QUIT), MainAction::Default);
}

#[test]
fn clipboard_units_become_the_request() {
    let units: Vec<u16> = "Hi There".encode_utf16().collect();
    assert_eq!(selection_lookup_url(&units), "https://jisho.org/api/v1/search/words?keyword=\"hi there\"");
    let units: Vec<u16> = "𠮷野".encode_utf16().collect();
    assert_eq!(selection_lookup_url(&units), "https://jisho.org/api/v1/search/words?keyword=𠮷野");
    assert_eq!(selection_lookup_url(&[]), "https://jisho.org/api/v1/search/words?keyword=\"\"");
}

#[test]
fn unpaired_surrogates_become_replacement_characters() {
    assert_eq!(selection_lookup_url(&[0x61, 0xD800]), "https://jisho.org/api/v1/search/words?keyword=a\u{FFFD}");
    assert_eq!(selection_lookup_url(&[0xDC00, 0x62]), "https://jisho.org/api/v1/search/words?keyword=\u{FFFD}b");
    assert_eq!(selection_lookup_url(&[0xD842, 0x41, 0xDFB7]), "https://jisho.org/api/v1/search/words?keyword=\u{FFFD}A\u{FFFD}");
}
