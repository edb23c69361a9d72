//! Where the popup places its controls, in pixels, for a given screen DPI.
//!
//! Sizes are given in points and scaled by `dpi / 72`, rounded to the nearest
//! pixel (halves away from zero). The popup shows, from the top: a row of icon
//! buttons, the written form and the reading in large type, then every sense
//! as one line per definition (left-aligned) followed by one line per tag,
//! related word and note (right-aligned), with a margin after each sense.

use vstd::prelude::*;
use crate::dictionary::{Entry, EntryView, SenseView, texts_view};

verus! {

/// Width of the popup, in points.
pub const WIDTH_POINTS: u32 = 250;
/// Height of the written form and of the reading, in points.
pub const HEADER_POINTS: u32 = 28;
/// Height of one line of a sense, in points.
pub const LINE_POINTS: u32 = 12;
/// Margin around and between the parts, in points.
pub const MARGIN_POINTS: u32 = 5;
/// Side of an icon button, in points.
pub const BUTTON_POINTS: u32 = 24;

/// Control id of the written form.
pub const KANJI_ID: isize = 1024;
/// Control id of the reading.
pub const READING_ID: isize = 1025;
/// Control id of the lines of the first sense; sense `i` has this plus `i`.
pub const FIRST_SENSE_ID: isize = 1026;

/// `points` scaled to `dpi`: the nearest whole pixel to `points * dpi / 72`,
/// halves rounded up, and no more than the largest `i32`.
pub open spec fn scaled(points: int, dpi: int) -> int {
    let v = (points * dpi + 36) / 72;
    if v > i32::MAX {
        i32::MAX as int
    } else {
        v
    }
}

/// The pixel sizes of the popup at one DPI.
#[derive(Clone, Copy)]
pub struct Metrics {
    pub width: i32,
    pub margin: i32,
    pub header: i32,
    pub line: i32,
    pub button: i32,
}

/// The sizes of the popup at `dpi`.
pub open spec fn metrics_at(dpi: int) -> Metrics {
    Metrics {
        width: scaled(WIDTH_POINTS as int, dpi) as i32,
        margin: scaled(MARGIN_POINTS as int, dpi) as i32,
        header: scaled(HEADER_POINTS as int, dpi) as i32,
        line: scaled(LINE_POINTS as int, dpi) as i32,
        button: scaled(BUTTON_POINTS as int, dpi) as i32,
    }
}

/// Scales `points` to `dpi`.
pub fn scale(points: u32, dpi: u32) -> (px: i32)
    ensures
        px == scaled(points as int, dpi as int),
{
    assert(points * dpi <= 0xffff_ffffu64 * 0xffff_ffffu64) by (nonlinear_arith)
        requires
            points <= 0xffff_ffffu64,
            dpi <= 0xffff_ffffu64,
    ;
    let v: u64 = (points as u64 * dpi as u64 + 36) / 72;
    if v > i32::MAX as u64 {
        i32::MAX
    } else {
        v as i32
    }
}

/// The sizes of the popup at `dpi`.
pub fn metrics(dpi: u32) -> (m: Metrics)
    ensures
        m == metrics_at(dpi as int),
{
    Metrics {
        width: scale(WIDTH_POINTS, dpi),
        margin: scale(MARGIN_POINTS, dpi),
        header: scale(HEADER_POINTS, dpi),
        line: scale(LINE_POINTS, dpi),
        button: scale(BUTTON_POINTS, dpi),
    }
}


/// How a line of text sits in its box.
#[derive(Clone, Copy, Debug, PartialEq, Eq, Structural)]
pub enum Align {
    Left,
    Center,
    Right,
}

/// A read-only text control: its id, text, alignment and place. Its font is
/// as tall as the box.
pub struct TextBox {
    pub id: isize,
    pub text: Vec<u16>,
    pub align: Align,
    pub x: i32,
    pub y: i32,
    pub width: i32,
    pub height: i32,
}

/// What a [`TextBox`] holds.
pub struct BoxView {
    pub id: int,
    pub text: Seq<u16>,
    pub align: Align,
    pub x: int,
    pub y: int,
    pub width: int,
    pub height: int,
}

impl View for TextBox {
    type V = BoxView;

    open spec fn view(&self) -> BoxView {
        BoxView {
            id: self.id as int,
            text: self.text@,
            align: self.align,
            x: self.x as int,
            y: self.y as int,
            width: self.width as int,
            height: self.height as int,
        }
    }
}

/// The views of a list of boxes.
pub open spec fn boxes_view(list: Seq<TextBox>) -> Seq<BoxView> {
    list.map_values(|b: TextBox| b@)
}

/// One box per text, stacked downwards from `y`, each `h` tall, all at `x`
/// and `w` wide.
pub open spec fn stacked_boxes(
    texts: Seq<Seq<u16>>,
    align: Align,
    id: int,
    x: int,
    y: int,
    w: int,
    h: int,
) -> Seq<BoxView> {
    Seq::new(
        texts.len(),
        |k: int| BoxView { id, text: texts[k], align, x, y: y + k * h, width: w, height: h },
    )
}

/// Appends one box per text, stacked downwards from `y`, and returns the
/// height below the last one.
fn push_stacked(
    out: &mut Vec<TextBox>,
    texts: &Vec<Vec<u16>>,
    align: Align,
    id: isize,
    x: i32,
    y: i32,
    w: i32,
    h: i32,
) -> (end: i32)
    requires
        0 <= h,
        y + texts@.len() * h <= i32::MAX,
        y >= 0,
    ensures
        boxes_view(final(out)@) == boxes_view(old(out)@) + stacked_boxes(
            texts_view(texts@),
            align,
            id as int,
            x as int,
            y as int,
            w as int,
            h as int,
        ),
        end == y + texts@.len() * h,
{
    let n = texts.len();
    let mut cur: i32 = y;
    let ghost start = boxes_view(out@);
    let ghost want = stacked_boxes(texts_view(texts@), align, id as int, x as int, y as int, w as int, h as int);
    assert(y + 0 * h == y) by (nonlinear_arith);
    for k in 0..n
        invariant
            n == texts@.len(),
            0 <= h,
            y >= 0,
            y + n * h <= i32::MAX,
            cur == y + k * h,
            want == stacked_boxes(texts_view(texts@), align, id as int, x as int, y as int, w as int, h as int),
            boxes_view(out@) == start + want.take(k as int),
    {
        assert(y + (k + 1) * h <= y + n * h) by (nonlinear_arith)
            requires
                k + 1 <= n,
                0 <= h,
        ;
        assert((k + 1) * h == k * h + h) by (nonlinear_arith);
        let b = TextBox { id, text: texts[k].clone(), align, x, y: cur, width: w, height: h };
        assert(b.text@ =~= texts@[k as int]@);
        let ghost before = out@;
        out.push(b);
        cur = cur + h;
        assert(boxes_view(out@) =~= boxes_view(before).push(b@));
        assert(want[k as int] == b@);
        assert(want.take(k + 1) =~= want.take(k as int).push(b@));
        assert(boxes_view(out@) =~= start + want.take(k + 1));
    }
    assert(want.take(n as int) =~= want);
    cur
}

/// The height of the lines of one sense, each `h` tall.
pub open spec fn sense_height(s: SenseView, h: int) -> int {
    s.defs.len() * h + s.tags.len() * h + s.see_also.len() * h + s.info.len() * h
}

/// The boxes of one sense whose first line is at `y`: its definitions,
/// left-aligned, then its tags, related words and notes, right-aligned.
pub open spec fn sense_boxes(s: SenseView, id: int, y: int, m: Metrics) -> Seq<BoxView> {
    let x = m.margin as int;
    let w = m.width - 2 * m.margin;
    let h = m.line as int;
    let y_tags = y + s.defs.len() * h;
    let y_see_also = y_tags + s.tags.len() * h;
    let y_info = y_see_also + s.see_also.len() * h;
    stacked_boxes(s.defs, Align::Left, id, x, y, w, h) + stacked_boxes(
        s.tags,
        Align::Right,
        id,
        x,
        y_tags,
        w,
        h,
    ) + stacked_boxes(s.see_also, Align::Right, id, x, y_see_also, w, h) + stacked_boxes(
        s.info,
        Align::Right,
        id,
        x,
        y_info,
        w,
        h,
    )
}

/// The top of the buttons' row is one margin down; the written form starts
/// one margin below the buttons.
pub open spec fn header_top(m: Metrics) -> int {
    m.margin + m.button + m.margin
}

/// Where sense `n` starts: below the written form, the reading and a margin,
/// and below each earlier sense and the margin after it.
pub open spec fn sense_top(senses: Seq<SenseView>, n: int, m: Metrics) -> int
    decreases n,
{
    if n <= 0 {
        header_top(m) + m.header + m.header + m.margin
    } else {
        sense_top(senses, n - 1, m) + sense_height(senses[n - 1], m.line as int) + m.margin
    }
}

/// The boxes of the first `n` senses.
pub open spec fn senses_boxes(senses: Seq<SenseView>, n: int, m: Metrics) -> Seq<BoxView>
    decreases n,
{
    if n <= 0 {
        Seq::empty()
    } else {
        senses_boxes(senses, n - 1, m) + sense_boxes(
            senses[n - 1],
            FIRST_SENSE_ID + n - 1,
            sense_top(senses, n - 1, m),
            m,
        )
    }
}

/// The height of the popup for an entry: everything above ends there.
pub open spec fn layout_height(e: EntryView, m: Metrics) -> int {
    sense_top(e.senses, e.senses.len() as int, m)
}

/// The controls of the popup for one entry, the state of the two arrow
/// buttons, and the popup's size.
pub struct EntryLayout {
    pub prev_enabled: bool,
    pub next_enabled: bool,
    pub width: i32,
    pub height: i32,
    pub boxes: Vec<TextBox>,
}

/// What an [`EntryLayout`] holds.
pub struct LayoutView {
    pub prev_enabled: bool,
    pub next_enabled: bool,
    pub width: int,
    pub height: int,
    pub boxes: Seq<BoxView>,
}

impl View for EntryLayout {
    type V = LayoutView;

    open spec fn view(&self) -> LayoutView {
        LayoutView {
            prev_enabled: self.prev_enabled,
            next_enabled: self.next_enabled,
            width: self.width as int,
            height: self.height as int,
            boxes: boxes_view(self.boxes@),
        }
    }
}

/// The layout of entry number `index` of `count`: the written form and the
/// reading, centered, then the senses; "previous" is enabled past the first
/// entry and "next" before the last.
pub open spec fn entry_layout(e: EntryView, index: int, count: int, m: Metrics) -> LayoutView {
    let x = m.margin as int;
    let w = m.width - 2 * m.margin;
    let top = header_top(m);
    LayoutView {
        prev_enabled: index > 0,
        next_enabled: index < count - 1,
        width: m.width as int,
        height: layout_height(e, m),
        boxes: seq![
            BoxView { id: KANJI_ID as int, text: e.kanji, align: Align::Center, x, y: top, width: w, height: m.header as int },
            BoxView { id: READING_ID as int, text: e.reading, align: Align::Center, x, y: top + m.header, width: w, height: m.header as int },
        ] + senses_boxes(e.senses, e.senses.len() as int, m),
    }
}

/// All sizes at a DPI are at least zero.
pub(crate) proof fn lemma_metrics_nonnegative(dpi: int)
    requires
        dpi >= 0,
    ensures
        metrics_at(dpi).width >= 0,
        metrics_at(dpi).margin >= 0,
        metrics_at(dpi).header >= 0,
        metrics_at(dpi).line >= 0,
        metrics_at(dpi).button >= 0,
{
    assert forall|p: int| p >= 0 implies #[trigger] scaled(p, dpi) >= 0 by {
        assert(p * dpi >= 0) by (nonlinear_arith)
            requires
                p >= 0,
                dpi >= 0,
        ;
    }
    assert(scaled(WIDTH_POINTS as int, dpi) >= 0);
    assert(scaled(MARGIN_POINTS as int, dpi) >= 0);
    assert(scaled(HEADER_POINTS as int, dpi) >= 0);
    assert(scaled(LINE_POINTS as int, dpi) >= 0);
    assert(scaled(BUTTON_POINTS as int, dpi) >= 0);
}

/// The lines of a sense take no negative height.
proof fn lemma_sense_height_parts(s: SenseView, h: int)
    requires
        h >= 0,
    ensures
        s.defs.len() * h >= 0,
        s.tags.len() * h >= 0,
        s.see_also.len() * h >= 0,
        s.info.len() * h >= 0,
{
    assert(s.defs.len() * h >= 0) by (nonlinear_arith)
        requires
            h >= 0,
    ;
    assert(s.tags.len() * h >= 0) by (nonlinear_arith)
        requires
            h >= 0,
    ;
    assert(s.see_also.len() * h >= 0) by (nonlinear_arith)
        requires
            h >= 0,
    ;
    assert(s.info.len() * h >= 0) by (nonlinear_arith)
        requires
            h >= 0,
    ;
}

/// Later senses start no higher than earlier ones.
proof fn lemma_sense_top_grows(senses: Seq<SenseView>, a: int, b: int, m: Metrics)
    requires
        0 <= a <= b <= senses.len(),
        m.line >= 0,
        m.margin >= 0,
    ensures
        sense_top(senses, a, m) <= sense_top(senses, b, m),
    decreases b - a,
{
    if a < b {
        lemma_sense_top_grows(senses, a, b - 1, m);
        lemma_sense_height_parts(senses[b - 1], m.line as int);
    }
}

/// Lays out entry number `index` of `count` at `dpi`.
pub fn lay_out_entry(entry: &Entry, index: usize, count: usize, dpi: u32) -> (r: EntryLayout)
    requires
        count >= 1,
        entry.senses@.len() + FIRST_SENSE_ID <= isize::MAX,
        layout_height(entry@, metrics_at(dpi as int)) <= i32::MAX,
    ensures
        r@ == entry_layout(entry@, index as int, count as int, metrics_at(dpi as int)),
{
    let m = metrics(dpi);
    let ghost senses = entry@.senses;
    let n = entry.senses.len();
    proof {
        lemma_metrics_nonnegative(dpi as int);
        lemma_sense_top_grows(senses, 0, n as int, m);
    }
    let x = m.margin;
    let w = m.width - m.margin * 2;
    let mut y = m.margin + m.button + m.margin;
    let mut boxes: Vec<TextBox> = Vec::new();
    let kanji = entry.kanji.clone();
    assert(kanji@ =~= entry.kanji@);
    boxes.push(TextBox { id: KANJI_ID, text: kanji, align: Align::Center, x, y, width: w, height: m.header });
    y = y + m.header;
    let reading = entry.reading.clone();
    assert(reading@ =~= entry.reading@);
    boxes.push(TextBox { id: READING_ID, text: reading, align: Align::Center, x, y, width: w, height: m.header });
    y = y + m.header + m.margin;
    let ghost head = boxes_view(boxes@);
    assert(head =~= entry_layout(entry@, index as int, count as int, m).boxes.take(2));
    for i in 0..n
        invariant
            n == entry.senses@.len(),
            senses == entry@.senses,
            n + FIRST_SENSE_ID <= isize::MAX,
            m == metrics_at(dpi as int),
            m.line >= 0,
            m.margin >= 0,
            m.header >= 0,
            m.button >= 0,
            x == m.margin,
            w == m.width - 2 * m.margin,
            sense_top(senses, n as int, m) <= i32::MAX,
            y == sense_top(senses, i as int, m),
            boxes_view(boxes@) == head + senses_boxes(senses, i as int, m),
    {
        let s = &entry.senses[i];
        let id: isize = FIRST_SENSE_ID + i as isize;
        let ghost sv = senses[i as int];
        assert(sv == s@);
        let ghost before = boxes_view(boxes@);
        proof {
            lemma_sense_height_parts(sv, m.line as int);
            lemma_sense_top_grows(senses, i + 1, n as int, m);
            lemma_sense_top_grows(senses, 0, i as int, m);
        }
        let y1 = push_stacked(&mut boxes, &s.defs, Align::Left, id, x, y, w, m.line);
        let y2 = push_stacked(&mut boxes, &s.tags, Align::Right, id, x, y1, w, m.line);
        let y3 = push_stacked(&mut boxes, &s.see_also, Align::Right, id, x, y2, w, m.line);
        let y4 = push_stacked(&mut boxes, &s.info, Align::Right, id, x, y3, w, m.line);
        y = y4 + m.margin;
        assert(boxes_view(boxes@) =~= before + sense_boxes(sv, id as int, sense_top(senses, i as int, m), m));
        assert(boxes_view(boxes@) =~= head + senses_boxes(senses, i + 1, m));
    }
    let r = EntryLayout {
        prev_enabled: index > 0,
        next_enabled: index < count - 1,
        width: m.width,
        height: y,
        boxes,
    };
    assert(r@.boxes =~= entry_layout(entry@, index as int, count as int, m).boxes);
    r
}

/// `acc + count * line`, when that is no more than the largest `i32`.
fn add_lines(acc: i64, count: usize, line: i32) -> (r: Option<i64>)
    requires
        0 <= acc <= i32::MAX,
        line >= 0,
    ensures
        match r {
            Some(v) => v == acc + count * line && v <= i32::MAX,
            None => acc + count * line > i32::MAX,
        },
{
    if line == 0 {
        assert(count * line == 0) by (nonlinear_arith)
            requires
                line == 0,
        ;
        return Some(acc);
    }
    if count > i32::MAX as usize {
        assert(count * line >= count) by (nonlinear_arith)
            requires
                line >= 1,
                count >= 0,
        ;
        return None;
    }
    assert(count * line <= 0x7fff_ffff * 0x7fff_ffff) by (nonlinear_arith)
        requires
            0 <= count <= 0x7fff_ffff,
            0 <= line <= 0x7fff_ffff,
    ;
    let v: i64 = acc + count as i64 * line as i64;
    if v > i32::MAX as i64 {
        None
    } else {
        Some(v)
    }
}

/// Whether the popup for `entry` at `dpi` is no taller than the largest `i32`.
pub fn height_fits(entry: &Entry, dpi: u32) -> (ok: bool)
    ensures
        ok == (layout_height(entry@, metrics_at(dpi as int)) <= i32::MAX),
{
    let m = metrics(dpi);
    let ghost senses = entry@.senses;
    let n = entry.senses.len();
    proof {
        lemma_metrics_nonnegative(dpi as int);
    }
    let first: i64 = m.margin as i64 + m.button as i64 + m.margin as i64 + m.header as i64
        + m.header as i64 + m.margin as i64;
    if first > i32::MAX as i64 {
        proof {
            lemma_sense_top_grows(senses, 0, n as int, m);
        }
        return false;
    }
    let mut acc: i64 = first;
    for i in 0..n
        invariant
            n == senses.len(),
            senses == entry@.senses,
            m == metrics_at(dpi as int),
            m.line >= 0,
            m.margin >= 0,
            0 <= acc <= i32::MAX,
            acc == sense_top(senses, i as int, m),
    {
        let s = &entry.senses[i];
        let ghost sv = senses[i as int];
        assert(sv == s@);
        proof {
            lemma_sense_height_parts(sv, m.line as int);
            lemma_sense_top_grows(senses, i + 1, n as int, m);
        }
        let a1 = match add_lines(acc, s.defs.len(), m.line) {
            Some(v) => v,
            None => return false,
        };
        let a2 = match add_lines(a1, s.tags.len(), m.line) {
            Some(v) => v,
            None => return false,
        };
        let a3 = match add_lines(a2, s.see_also.len(), m.line) {
            Some(v) => v,
            None => return false,
        };
        let a4 = match add_lines(a3, s.info.len(), m.line) {
            Some(v) => v,
            None => return false,
        };
        let next = a4 + m.margin as i64;
        if next > i32::MAX as i64 {
            return false;
        }
        acc = next;
    }
    true
}

/// The boxes run down the popup in order without overlapping, each between
/// heights `lo` and `hi`.
pub open spec fn stacks_within(boxes: Seq<BoxView>, lo: int, hi: int) -> bool {
    &&& forall|k: int| 0 <= k < boxes.len() ==> lo <= #[trigger] boxes[k].y && boxes[k].y + boxes[k].height <= hi
    &&& forall|j: int, k: int|
        0 <= j < k < boxes.len() ==> #[trigger] boxes[j].y + boxes[j].height <= #[trigger] boxes[k].y
}

proof fn lemma_stacked_within(
    texts: Seq<Seq<u16>>,
    align: Align,
    id: int,
    x: int,
    y: int,
    w: int,
    h: int,
)
    requires
        h >= 0,
    ensures
        stacks_within(stacked_boxes(texts, align, id, x, y, w, h), y, y + texts.len() * h),
{
    let b = stacked_boxes(texts, align, id, x, y, w, h);
    let n = texts.len() as int;
    assert forall|k: int| 0 <= k < b.len() implies y <= #[trigger] b[k].y && b[k].y + b[k].height
        <= y + n * h by {
        assert(0 <= k * h && k * h + h <= n * h) by (nonlinear_arith)
            requires
                0 <= k < n,
                h >= 0,
        ;
    }
    assert forall|j: int, k: int| 0 <= j < k < b.len() implies #[trigger] b[j].y + b[j].height
        <= #[trigger] b[k].y by {
        assert(j * h + h <= k * h) by (nonlinear_arith)
            requires
                0 <= j < k,
                h >= 0,
        ;
    }
}

proof fn lemma_concat_within(a: Seq<BoxView>, b: Seq<BoxView>, lo: int, mid: int, hi: int)
    requires
        stacks_within(a, lo, mid),
        stacks_within(b, mid, hi),
        lo <= mid <= hi,
    ensures
        stacks_within(a + b, lo, hi),
{
    let c = a + b;
    assert forall|k: int| 0 <= k < c.len() implies lo <= #[trigger] c[k].y && c[k].y + c[k].height
        <= hi by {
        if k < a.len() {
            assert(c[k] == a[k]);
        } else {
            assert(c[k] == b[k - a.len()]);
        }
    }
    assert forall|j: int, k: int| 0 <= j < k < c.len() implies #[trigger] c[j].y + c[j].height
        <= #[trigger] c[k].y by {
        if k < a.len() {
            assert(c[j] == a[j] && c[k] == a[k]);
        } else if j < a.len() {
            assert(c[j] == a[j] && c[k] == b[k - a.len()]);
        } else {
            assert(c[j] == b[j - a.len()] && c[k] == b[k - a.len()]);
        }
    }
}

proof fn lemma_sense_within(s: SenseView, id: int, y: int, m: Metrics)
    requires
        m.line >= 0,
    ensures
        stacks_within(sense_boxes(s, id, y, m), y, y + sense_height(s, m.line as int)),
{
    let x = m.margin as int;
    let w = m.width - 2 * m.margin;
    let h = m.line as int;
    lemma_sense_height_parts(s, h);
    let y1 = y + s.defs.len() * h;
    let y2 = y1 + s.tags.len() * h;
    let y3 = y2 + s.see_also.len() * h;
    let y4 = y3 + s.info.len() * h;
    let a = stacked_boxes(s.defs, Align::Left, id, x, y, w, h);
    let b = stacked_boxes(s.tags, Align::Right, id, x, y1, w, h);
    let c = stacked_boxes(s.see_also, Align::Right, id, x, y2, w, h);
    let d = stacked_boxes(s.info, Align::Right, id, x, y3, w, h);
    lemma_stacked_within(s.defs, Align::Left, id, x, y, w, h);
    lemma_stacked_within(s.tags, Align::Right, id, x, y1, w, h);
    lemma_stacked_within(s.see_also, Align::Right, id, x, y2, w, h);
    lemma_stacked_within(s.info, Align::Right, id, x, y3, w, h);
    lemma_concat_within(a, b, y, y1, y2);
    lemma_concat_within(a + b, c, y, y2, y3);
    lemma_concat_within(a + b + c, d, y, y3, y4);
}

proof fn lemma_senses_within(senses: Seq<SenseView>, n: int, m: Metrics)
    requires
        0 <= n <= senses.len(),
        m.line >= 0,
        m.margin >= 0,
    ensures
        stacks_within(senses_boxes(senses, n, m), sense_top(senses, 0, m), sense_top(senses, n, m)),
    decreases n,
{
    if n > 0 {
        lemma_senses_within(senses, n - 1, m);
        let top = sense_top(senses, n - 1, m);
        lemma_sense_within(senses[n - 1], FIRST_SENSE_ID + n - 1, top, m);
        lemma_sense_top_grows(senses, 0, n - 1, m);
        lemma_sense_height_parts(senses[n - 1], m.line as int);
        let inner = sense_boxes(senses[n - 1], FIRST_SENSE_ID + n - 1, top, m);
        let end = top + sense_height(senses[n - 1], m.line as int);
        assert(stacks_within(inner, top, sense_top(senses, n, m))) by {
            assert forall|k: int| 0 <= k < inner.len() implies top <= #[trigger] inner[k].y
                && inner[k].y + inner[k].height <= sense_top(senses, n, m) by {
                assert(inner[k].y + inner[k].height <= end);
            }
        }
        lemma_concat_within(senses_boxes(senses, n - 1, m), inner, sense_top(senses, 0, m), top, sense_top(senses, n, m));
    } else {
        assert(stacks_within(senses_boxes(senses, n, m), sense_top(senses, 0, m), sense_top(senses, n, m)));
    }
}

/// The controls of the popup run down it in order without overlapping, from
/// below the row of buttons to the popup's bottom edge.
pub proof fn layout_boxes_do_not_overlap(e: EntryView, index: int, count: int, dpi: int)
    requires
        dpi >= 0,
    ensures
        stacks_within(
            entry_layout(e, index, count, metrics_at(dpi)).boxes,
            header_top(metrics_at(dpi)),
            entry_layout(e, index, count, metrics_at(dpi)).height,
        ),
{
    let m = metrics_at(dpi);
    lemma_metrics_nonnegative(dpi);
    let l = entry_layout(e, index, count, m);
    let top = header_top(m);
    let x = m.margin as int;
    let w = m.width - 2 * m.margin;
    let head = seq![
        BoxView { id: KANJI_ID as int, text: e.kanji, align: Align::Center, x, y: top, width: w, height: m.header as int },
        BoxView { id: READING_ID as int, text: e.reading, align: Align::Center, x, y: top + m.header, width: w, height: m.header as int },
    ];
    let first = sense_top(e.senses, 0, m);
    assert(stacks_within(head, top, first));
    lemma_senses_within(e.senses, e.senses.len() as int, m);
    lemma_sense_top_grows(e.senses, 0, e.senses.len() as int, m);
    lemma_concat_within(head, senses_boxes(e.senses, e.senses.len() as int, m), top, first, l.height);
    assert(l.boxes == head + senses_boxes(e.senses, e.senses.len() as int, m));
}

/// Scaling rounds to the nearest pixel: unless it is capped at the largest
/// `i32`, the scaled size differs from `points * dpi / 72` by at most half a
/// pixel, with halves rounded up.
pub proof fn scaling_rounds_to_nearest(points: int, dpi: int)
    requires
        points >= 0,
        dpi >= 0,
        (points * dpi + 36) / 72 <= i32::MAX,
    ensures
        -36 <= points * dpi - 72 * scaled(points, dpi) < 36,
{
}

/// The number of lines a sense shows.
pub open spec fn sense_lines(s: SenseView) -> int {
    (s.defs.len() + s.tags.len() + s.see_also.len() + s.info.len()) as int
}

proof fn lemma_one_more_line(s: SenseView, t: SenseView, h: int)
    requires
        sense_lines(t) == sense_lines(s) + 1,
    ensures
        sense_height(t, h) == sense_height(s, h) + h,
{
    let (a, b, c, d) = (s.defs.len() as int, s.tags.len() as int, s.see_also.len() as int, s.info.len() as int);
    let (a2, b2, c2, d2) = (t.defs.len() as int, t.tags.len() as int, t.see_also.len() as int, t.info.len() as int);
    assert(a2 * h + b2 * h + c2 * h + d2 * h == a * h + b * h + c * h + d * h + h) by (nonlinear_arith)
        requires
            a2 + b2 + c2 + d2 == a + b + c + d + 1,
    ;
}

proof fn lemma_no_lines(s: SenseView, h: int)
    requires
        sense_lines(s) == 0,
    ensures
        sense_height(s, h) == 0,
{
    assert(s.defs.len() == 0 && s.tags.len() == 0 && s.see_also.len() == 0 && s.info.len() == 0);
    assert(0 * h == 0) by (nonlinear_arith);
}

proof fn lemma_sense_top_one_changed(a: Seq<SenseView>, b: Seq<SenseView>, i: int, n: int, m: Metrics, delta: int)
    requires
        a.len() == b.len(),
        0 <= i < a.len(),
        0 <= n <= a.len(),
        forall|j: int| 0 <= j < a.len() && j != i ==> a[j] == b[j],
        sense_height(b[i], m.line as int) == sense_height(a[i], m.line as int) + delta,
    ensures
        sense_top(b, n, m) == sense_top(a, n, m) + (if n > i { delta } else { 0 }),
    decreases n,
{
    if n > 0 {
        lemma_sense_top_one_changed(a, b, i, n - 1, m, delta);
    }
}

proof fn lemma_sense_top_prefix(a: Seq<SenseView>, b: Seq<SenseView>, n: int, m: Metrics)
    requires
        0 <= n <= a.len(),
        n <= b.len(),
        forall|j: int| 0 <= j < n ==> a[j] == b[j],
    ensures
        sense_top(b, n, m) == sense_top(a, n, m),
    decreases n,
{
    if n > 0 {
        lemma_sense_top_prefix(a, b, n - 1, m);
    }
}

/// One more line in one sense (a definition, tag, related word or note)
/// makes the popup exactly one line taller, and no wider.
pub proof fn one_more_line_one_line_taller(e: EntryView, f: EntryView, i: int, index: int, count: int, dpi: int)
    requires
        0 <= i < e.senses.len(),
        f.senses.len() == e.senses.len(),
        forall|j: int| 0 <= j < e.senses.len() && j != i ==> f.senses[j] == e.senses[j],
        sense_lines(f.senses[i]) == sense_lines(e.senses[i]) + 1,
    ensures
        entry_layout(f, index, count, metrics_at(dpi)).height == entry_layout(e, index, count, metrics_at(dpi)).height
            + metrics_at(dpi).line,
        entry_layout(f, index, count, metrics_at(dpi)).width == entry_layout(e, index, count, metrics_at(dpi)).width,
{
    let m = metrics_at(dpi);
    lemma_one_more_line(e.senses[i], f.senses[i], m.line as int);
    lemma_sense_top_one_changed(e.senses, f.senses, i, e.senses.len() as int, m, m.line as int);
}

/// One more sense without lines makes the popup exactly one margin taller,
/// and no wider.
pub proof fn one_more_sense_one_margin_taller(e: EntryView, f: EntryView, s: SenseView, index: int, count: int, dpi: int)
    requires
        f.senses == e.senses.push(s),
        sense_lines(s) == 0,
    ensures
        entry_layout(f, index, count, metrics_at(dpi)).height == entry_layout(e, index, count, metrics_at(dpi)).height
            + metrics_at(dpi).margin,
        entry_layout(f, index, count, metrics_at(dpi)).width == entry_layout(e, index, count, metrics_at(dpi)).width,
{
    let m = metrics_at(dpi);
    let n = e.senses.len() as int;
    lemma_sense_top_prefix(e.senses, f.senses, n, m);
    lemma_no_lines(s, m.line as int);
    assert(f.senses[n] == s);
}

/// The number of lines of the first `i` senses.
pub open spec fn lines_before(senses: Seq<SenseView>, i: int) -> int
    decreases i,
{
    if i <= 0 {
        0
    } else {
        lines_before(senses, i - 1) + sense_lines(senses[i - 1])
    }
}

/// A box of one line of a sense: full inner width, one line tall, its top at
/// `y`.
pub open spec fn line_box(m: Metrics, id: int, text: Seq<u16>, align: Align, y: int) -> BoxView {
    BoxView { id, text, align, x: m.margin as int, y, width: m.width - 2 * m.margin, height: m.line as int }
}

proof fn lemma_lines_before_grows(senses: Seq<SenseView>, a: int, b: int)
    requires
        0 <= a <= b,
    ensures
        lines_before(senses, a) <= lines_before(senses, b),
    decreases b - a,
{
    if a < b {
        lemma_lines_before_grows(senses, a, b - 1);
    }
}

proof fn lemma_senses_boxes_len(senses: Seq<SenseView>, n: int, m: Metrics)
    requires
        0 <= n <= senses.len(),
    ensures
        senses_boxes(senses, n, m).len() == lines_before(senses, n),
    decreases n,
{
    if n > 0 {
        lemma_senses_boxes_len(senses, n - 1, m);
    }
}

proof fn lemma_senses_boxes_index(senses: Seq<SenseView>, n: int, i: int, q: int, m: Metrics)
    requires
        0 <= i < n <= senses.len(),
        0 <= q < sense_lines(senses[i]),
    ensures
        senses_boxes(senses, n, m)[lines_before(senses, i) + q] == sense_boxes(
            senses[i],
            FIRST_SENSE_ID + i,
            sense_top(senses, i, m),
            m,
        )[q],
    decreases n,
{
    lemma_senses_boxes_len(senses, n - 1, m);
    let a = senses_boxes(senses, n - 1, m);
    let b = sense_boxes(senses[n - 1], FIRST_SENSE_ID + n - 1, sense_top(senses, n - 1, m), m);
    assert(senses_boxes(senses, n, m) == a + b);
    if i < n - 1 {
        lemma_senses_boxes_index(senses, n - 1, i, q, m);
        lemma_lines_before_grows(senses, i + 1, n - 1);
        assert(lines_before(senses, i + 1) == lines_before(senses, i) + sense_lines(senses[i]));
        lemma_lines_before_grows(senses, 0, i);
        assert((a + b)[lines_before(senses, i) + q] == a[lines_before(senses, i) + q]);
    } else {
        assert(b.len() == sense_lines(senses[i]));
        assert((a + b)[a.len() + q] == b[q]);
    }
}

proof fn lemma_sense_box_at(s: SenseView, id: int, y: int, m: Metrics, k: int)
    ensures
        ({
            let sb = sense_boxes(s, id, y, m);
            let d = s.defs.len() as int;
            let t = s.tags.len() as int;
            let a = s.see_also.len() as int;
            let h = m.line as int;
            &&& sb.len() == sense_lines(s)
            &&& 0 <= k < d ==> sb[k] == line_box(m, id, s.defs[k], Align::Left, y + k * h)
            &&& 0 <= k < t ==> sb[d + k] == line_box(m, id, s.tags[k], Align::Right, y + (d + k) * h)
            &&& 0 <= k < a ==> sb[d + t + k] == line_box(m, id, s.see_also[k], Align::Right, y + (d + t + k) * h)
            &&& 0 <= k < s.info.len() ==> sb[d + t + a + k] == line_box(m, id, s.info[k], Align::Right, y + (d + t + a + k) * h)
        }),
{
    let d = s.defs.len() as int;
    let t = s.tags.len() as int;
    let a = s.see_also.len() as int;
    let h = m.line as int;
    assert((d + k) * h == d * h + k * h) by (nonlinear_arith);
    assert((d + t + k) * h == d * h + t * h + k * h) by (nonlinear_arith);
    assert((d + t + a + k) * h == d * h + t * h + a * h + k * h) by (nonlinear_arith);
}

/// The boxes of the popup are the written form and the reading, centered,
/// then, sense after sense, one box per line: a sense's definitions,
/// left-aligned, then its tags, its related words and its notes,
/// right-aligned, in that order and each in its own order, one line below the
/// other from the sense's top. `k` is any position in one of the lists.
pub proof fn sense_lines_in_order(e: EntryView, index: int, count: int, dpi: int, i: int, k: int)
    requires
        0 <= i < e.senses.len(),
    ensures
        ({
            let m = metrics_at(dpi);
            let l = entry_layout(e, index, count, m);
            let s = e.senses[i];
            let p = 2 + lines_before(e.senses, i);
            let y = sense_top(e.senses, i, m);
            let id = FIRST_SENSE_ID + i;
            let d = s.defs.len() as int;
            let t = s.tags.len() as int;
            let a = s.see_also.len() as int;
            let h = m.line as int;
            &&& l.boxes.len() == 2 + lines_before(e.senses, e.senses.len() as int)
            &&& l.boxes[0] == BoxView { id: KANJI_ID as int, text: e.kanji, align: Align::Center, x: m.margin as int, y: header_top(m), width: m.width - 2 * m.margin, height: m.header as int }
            &&& l.boxes[1] == BoxView { id: READING_ID as int, text: e.reading, align: Align::Center, x: m.margin as int, y: header_top(m) + m.header, width: m.width - 2 * m.margin, height: m.header as int }
            &&& 0 <= k < d ==> l.boxes[p + k] == line_box(m, id, s.defs[k], Align::Left, y + k * h)
            &&& 0 <= k < t ==> l.boxes[p + d + k] == line_box(m, id, s.tags[k], Align::Right, y + (d + k) * h)
            &&& 0 <= k < a ==> l.boxes[p + d + t + k] == line_box(m, id, s.see_also[k], Align::Right, y + (d + t + k) * h)
            &&& 0 <= k < s.info.len() ==> l.boxes[p + d + t + a + k] == line_box(m, id, s.info[k], Align::Right, y + (d + t + a + k) * h)
        }),
{
    let m = metrics_at(dpi);
    let l = entry_layout(e, index, count, m);
    let s = e.senses[i];
    let n = e.senses.len() as int;
    let y = sense_top(e.senses, i, m);
    let id = FIRST_SENSE_ID + i;
    let d = s.defs.len() as int;
    let t = s.tags.len() as int;
    let a = s.see_also.len() as int;
    let f = s.info.len() as int;
    lemma_senses_boxes_len(e.senses, n, m);
    lemma_sense_box_at(s, id, y, m, k);
    let head = seq![
        BoxView { id: KANJI_ID as int, text: e.kanji, align: Align::Center, x: m.margin as int, y: header_top(m), width: m.width - 2 * m.margin, height: m.header as int },
        BoxView { id: READING_ID as int, text: e.reading, align: Align::Center, x: m.margin as int, y: header_top(m) + m.header, width: m.width - 2 * m.margin, height: m.header as int },
    ];
    let rest = senses_boxes(e.senses, n, m);
    assert(l.boxes == head + rest);
    if 0 <= k < d {
        lemma_layout_box_at(e, index, count, m, i, k);
    }
    if 0 <= k < t {
        lemma_layout_box_at(e, index, count, m, i, d + k);
    }
    if 0 <= k < a {
        lemma_layout_box_at(e, index, count, m, i, d + t + k);
    }
    if 0 <= k < f {
        lemma_layout_box_at(e, index, count, m, i, d + t + a + k);
    }
}

proof fn lemma_layout_box_at(e: EntryView, index: int, count: int, m: Metrics, i: int, q: int)
    requires
        0 <= i < e.senses.len(),
        0 <= q < sense_lines(e.senses[i]),
    ensures
        entry_layout(e, index, count, m).boxes[2 + lines_before(e.senses, i) + q] == sense_boxes(
            e.senses[i],
            FIRST_SENSE_ID + i,
            sense_top(e.senses, i, m),
            m,
        )[q],
{
    let n = e.senses.len() as int;
    let l = entry_layout(e, index, count, m);
    lemma_senses_boxes_len(e.senses, n, m);
    let head = seq![
        BoxView { id: KANJI_ID as int, text: e.kanji, align: Align::Center, x: m.margin as int, y: header_top(m), width: m.width - 2 * m.margin, height: m.header as int },
        BoxView { id: READING_ID as int, text: e.reading, align: Align::Center, x: m.margin as int, y: header_top(m) + m.header, width: m.width - 2 * m.margin, height: m.header as int },
    ];
    let rest = senses_boxes(e.senses, n, m);
    assert(l.boxes == head + rest);
    lemma_senses_boxes_index(e.senses, n, i, q, m);
    lemma_lines_before_grows(e.senses, i + 1, n);
    assert(lines_before(e.senses, i + 1) == lines_before(e.senses, i) + sense_lines(e.senses[i]));
    lemma_lines_before_grows(e.senses, 0, i);
    assert(lines_before(e.senses, i) + q < rest.len());
    assert(l.boxes[2 + lines_before(e.senses, i) + q] == rest[lines_before(e.senses, i) + q]);
}

/// The popup's sizes at a DPI are, in points, 250 wide, margins of 5, the
/// written form and the reading 28 tall, lines 12 tall and buttons 24 wide,
/// each scaled; a scaled size is never more than the largest `i32`, and is
/// that when the rounded size would exceed it.
pub proof fn sizes_in_points(dpi: int, points: int)
    requires
        dpi >= 0,
    ensures
        metrics_at(dpi).width == scaled(250, dpi),
        metrics_at(dpi).margin == scaled(5, dpi),
        metrics_at(dpi).header == scaled(28, dpi),
        metrics_at(dpi).line == scaled(12, dpi),
        metrics_at(dpi).button == scaled(24, dpi),
        scaled(points, dpi) <= i32::MAX,
        (points * dpi + 36) / 72 > i32::MAX ==> scaled(points, dpi) == i32::MAX,
{
    lemma_metrics_nonnegative(dpi);
}

} // verus!
