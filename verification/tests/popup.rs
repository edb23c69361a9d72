use jisho::dictionary::{Entry, Sense};
use jisho::popup::{
    button_row, fade, link_address, popup_action, ButtonIcon, Fade, Link, Point, PopupAction, PopupWindow, Rect,
    BTN_JISHO, BTN_KIDNEY, BTN_NEXT, BTN_PREV,
};

fn entry(word: &str) -> Entry {
    Entry {
        kanji: word.encode_utf16().collect(),
        reading: vec![],
        senses: vec![Sense { defs: vec![vec![0x61]], tags: vec![], see_also: vec![], info: vec![] }],
    }
}

#[test]
fn popup_starts_at_the_first_entry() {
    let p = PopupWindow::new(vec![entry("一"), entry("二"), entry("三")]);
    assert_eq!(p.index(), 0);
    assert_eq!(p.entry_count(), 3);
    let l = p.display_entry(96).unwrap();
    assert!(!l.prev_enabled && l.next_enabled);
    assert_eq!(l.boxes[0].text, "一".encode_utf16().collect::<Vec<u16>>());
}

#[test]
fn next_and_prev_move_between_entries() {
    let mut p = PopupWindow::new(vec![entry("一"), entry("二"), entry("三")]);
    let l = p.display_next(72).unwrap();
    assert_eq!(p.index(), 1);
    assert!(l.prev_enabled && l.next_enabled);
    assert_eq!(l.boxes[0].text, "二".encode_utf16().collect::<Vec<u16>>());
    let l = p.display_next(72).unwrap();
    assert_eq!(p.index(), 2);
    assert!(l.prev_enabled && !l.next_enabled);
    let l = p.display_prev(72).unwrap();
    assert_eq!(p.index(), 1);
    assert_eq!(l.boxes[0].text, "二".encode_utf16().collect::<Vec<u16>>());
    p.display_prev(72);
    assert_eq!(p.index(), 0);
}

#[test]
fn next_then_prev_returns_to_the_same_entry() {
    let mut p = PopupWindow::new(vec![entry("一"), entry("二")]);
    let before = p.display_entry(120).unwrap();
    p.display_next(120);
    let after = p.display_prev(120).unwrap();
    assert_eq!(p.index(), 0);
    assert_eq!(before.boxes.len(), after.boxes.len());
    assert_eq!(before.height, after.height);
}

#[test]
fn empty_popup_shows_nothing() {
    let mut p = PopupWindow::new(vec![]);
    assert!(p.display_entry(96).is_none());
    assert!(p.display_next(96).is_none());
    assert_eq!(p.index(), 0);
    assert!(p.can_display(0, u32::MAX));
    assert!(!p.can_display(1, 96));
}

#[test]
fn can_display_checks_the_height() {
    let p = PopupWindow::new(vec![entry("一")]);
    assert!(p.can_display(0, 96));
    assert!(!p.can_display(0, u32::MAX));
    assert!(!p.can_display(1, 96));
}

#[test]
fn button_row_at_72_dpi() {
    let row = button_row(72);
    let got: Vec<_> = row.iter().map(|b| (b.id, b.icon, b.x, b.y, b.size)).collect();
    assert_eq!(
        got,
        vec![
            (BTN_KIDNEY, ButtonIcon::Kidney, 5, 5, 24),
            (BTN_JISHO, ButtonIcon::Jisho, 34, 5, 24),
            (BTN_PREV, ButtonIcon::Left, 99, 5, 24),
            (BTN_NEXT, ButtonIcon::Right, 127, 5, 24),
        ]
    );
    let row = button_row(96);
    assert_eq!((row[2].x, row[3].x), (166 - 3 - 32, 166 + 3));
}

fn rect() -> Rect {
    Rect { left: 100, top: 50, right: 300, bottom: 150 }
}

#[test]
fn fade_inside_is_solid() {
    assert_eq!(fade(Point { x: 100, y: 50 }, rect()), Fade::Opacity(255));
    assert_eq!(fade(Point { x: 200, y: 100 }, rect()), Fade::Opacity(255));
    assert_eq!(fade(Point { x: 300, y: 150 }, rect()), Fade::Opacity(255));
}

#[test]
fn fade_by_the_larger_distance() {
    assert_eq!(fade(Point { x: 310, y: 100 }, rect()), Fade::Opacity(245));
    assert_eq!(fade(Point { x: 90, y: 20 }, rect()), Fade::Opacity(225));
    assert_eq!(fade(Point { x: 100 - 255, y: 100 }, rect()), Fade::Opacity(0));
    assert_eq!(fade(Point { x: 100 - 256, y: 100 }, rect()), Fade::Close);
    assert_eq!(fade(Point { x: 200, y: 150 + 256 }, rect()), Fade::Close);
}

#[test]
fn fade_never_brightens_farther_away() {
    let mut last = 256i32;
    for d in 0..300 {
        let now = match fade(Point { x: 300 + d, y: 100 }, rect()) {
            Fade::Opacity(o) => o as i32,
            Fade::Close => -1,
        };
        assert!(now <= last);
        last = now;
    }
}

#[test]
fn popup_messages() {
    assert_eq!(popup_action(0x0001, 0), PopupAction::StoreCreateParams);
    assert_eq!(popup_action(0x00FF, 7), PopupAction::TrackCursor);
    assert_eq!(popup_action(0x0111, 2048), PopupAction::OpenLink(Link::Community));
    assert_eq!(popup_action(0x0111, 2049), PopupAction::OpenLink(Link::Dictionary));
    assert_eq!(popup_action(0x0111, 2050), PopupAction::ShowPrevious);
    assert_eq!(popup_action(0x0111, 2051), PopupAction::ShowNext);
    assert_eq!(popup_action(0x0111, 2052), PopupAction::Handled);
    assert_eq!(popup_action(0x0111, (1 << 16) | 2050), PopupAction::Handled);
    assert_eq!(popup_action(0x001C, 0), PopupAction::Close);
    assert_eq!(popup_action(0x001C, 1), PopupAction::Handled);
    assert_eq!(popup_action(0x0200, 0), PopupAction::Default);
}

#[test]
fn link_addresses() {
    assert_eq!(link_address(Link::Community), "https://discord.gg/jlss");
    assert_eq!(link_address(Link::Dictionary), "https://jisho.org");
}
