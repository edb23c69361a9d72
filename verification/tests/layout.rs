use jisho::dictionary::{Entry, Sense};
use jisho::layout::{height_fits, lay_out_entry, metrics, scale, Align, TextBox};

fn wide(t: &str) -> Vec<u16> {
    t.encode_utf16().collect()
}

fn sample_entry() -> Entry {
    Entry {
        kanji: wide("辞書"),
        reading: wide("じしょ"),
        senses: vec![
            Sense {
                defs: vec![wide("dictionary"), wide("lexicon")],
                tags: vec![wide("Noun")],
                see_also: vec![],
                info: vec![],
            },
            Sense { defs: vec![wide("glossary")], tags: vec![], see_also: vec![wide("用語集")], info: vec![wide("rare")] },
        ],
    }
}

fn float_scaled(points: f64, dpi: u32) -> i32 {
    let pppt = dpi as f64 / 72.0;
    (points * pppt).round() as i32
}

#[test]
fn scale_matches_rounding_of_the_exact_product() {
    for dpi in 0..=4000u32 {
        for points in [250u32, 28, 12, 5, 24] {
            assert_eq!(scale(points, dpi), float_scaled(points as f64, dpi), "points {} dpi {}", points, dpi);
        }
    }
    for dpi in [u32::MAX, u32::MAX - 1, 1 << 31, 1 << 24, 1_000_000_007] {
        for points in [250u32, 28, 12, 5, 24] {
            assert_eq!(scale(points, dpi), float_scaled(points as f64, dpi), "points {} dpi {}", points, dpi);
        }
    }
}

#[test]
fn scale_rounds_halves_up() {
    assert_eq!(scale(5, 18), 1);
    assert_eq!(scale(250, 18), 63);
    assert_eq!(scale(12, 96), 16);
    assert_eq!(scale(250, u32::MAX), i32::MAX);
}

#[test]
fn metrics_at_common_dpis() {
    let m = metrics(72);
    assert_eq!((m.width, m.margin, m.header, m.line, m.button), (250, 5, 28, 12, 24));
    let m = metrics(96);
    assert_eq!((m.width, m.margin, m.header, m.line, m.button), (333, 7, 37, 16, 32));
    let m = metrics(144);
    assert_eq!((m.width, m.margin, m.header, m.line, m.button), (500, 10, 56, 24, 48));
}

fn place(b: &TextBox) -> (isize, Align, i32, i32, i32, i32) {
    (b.id, b.align, b.x, b.y, b.width, b.height)
}

#[test]
fn entry_layout_at_72_dpi() {
    let e = sample_entry();
    let l = lay_out_entry(&e, 0, 3, 72);
    assert!(!l.prev_enabled);
    assert!(l.next_enabled);
    assert_eq!(l.width, 250);
    let boxes: Vec<_> = l.boxes.iter().map(place).collect();
    assert_eq!(
        boxes,
        vec![
            (1024, Align::Center, 5, 34, 240, 28),
            (1025, Align::Center, 5, 62, 240, 28),
            (1026, Align::Left, 5, 95, 240, 12),
            (1026, Align::Left, 5, 107, 240, 12),
            (1026, Align::Right, 5, 119, 240, 12),
            (1027, Align::Left, 5, 136, 240, 12),
            (1027, Align::Right, 5, 148, 240, 12),
            (1027, Align::Right, 5, 160, 240, 12),
        ]
    );
    assert_eq!(l.height, 177);
    assert_eq!(l.boxes[0].text, wide("辞書"));
    assert_eq!(l.boxes[1].text, wide("じしょ"));
    assert_eq!(l.boxes[4].text, wide("Noun"));
    assert_eq!(l.boxes[6].text, wide("用語集"));
    assert_eq!(l.boxes[7].text, wide("rare"));
}

#[test]
fn boxes_do_not_overlap_and_fit() {
    let e = sample_entry();
    for dpi in [0u32, 1, 72, 96, 120, 144, 192, 288] {
        let l = lay_out_entry(&e, 1, 3, dpi);
        assert!(l.prev_enabled && l.next_enabled);
        for w in l.boxes.windows(2) {
            assert!(w[0].y + w[0].height <= w[1].y);
        }
        let last = l.boxes.last().unwrap();
        assert!(last.y + last.height <= l.height);
        assert!(l.boxes[0].y >= 0);
    }
}

#[test]
fn last_entry_disables_next() {
    let l = lay_out_entry(&sample_entry(), 2, 3, 96);
    assert!(l.prev_enabled);
    assert!(!l.next_enabled);
    let only = lay_out_entry(&sample_entry(), 0, 1, 96);
    assert!(!only.prev_enabled && !only.next_enabled);
}

#[test]
fn entry_without_senses_ends_below_the_reading() {
    let e = Entry { kanji: vec![], reading: vec![], senses: vec![] };
    let l = lay_out_entry(&e, 0, 1, 72);
    assert_eq!(l.boxes.len(), 2);
    assert_eq!(l.height, 5 + 24 + 5 + 28 + 28 + 5);
}

#[test]
fn height_fits_detects_overflow() {
    assert!(height_fits(&sample_entry(), 96));
    assert!(!height_fits(&sample_entry(), u32::MAX));
    let tall = Entry {
        kanji: vec![],
        reading: vec![],
        senses: vec![Sense { defs: vec![vec![]; 200_000], tags: vec![], see_also: vec![], info: vec![] }],
    };
    assert!(height_fits(&tall, 72));
    assert!(!height_fits(&tall, 72 * 1000));
}

#[test]
fn one_more_line_is_one_line_taller() {
    for dpi in [72u32, 96, 120, 144, 250] {
        let base = lay_out_entry(&sample_entry(), 0, 1, dpi);
        for list in 0..4 {
            let mut e = sample_entry();
            let s = &mut e.senses[1];
            match list {
                0 => s.defs.push(vec![0x41]),
                1 => s.tags.push(vec![0x41]),
                2 => s.see_also.push(vec![0x41]),
                _ => s.info.push(vec![0x41]),
            }
            let grown = lay_out_entry(&e, 0, 1, dpi);
            assert_eq!(grown.height, base.height + scale(12, dpi));
            assert_eq!(grown.width, base.width);
        }
        let mut e = sample_entry();
        e.senses.push(Sense { defs: vec![], tags: vec![], see_also: vec![], info: vec![] });
        let grown = lay_out_entry(&e, 0, 1, dpi);
        assert_eq!(grown.height, base.height + scale(5, dpi));
        assert_eq!(grown.width, base.width);
    }
}
