//! The popup that shows the entries of a search: which entry it shows, how it
//! moves between them, its row of icon buttons, how it fades as the cursor
//! moves away, and what it does on each window message.

use vstd::prelude::*;
use crate::dictionary::{Entry, EntryView, entries_view};
use crate::messages::{BN_CLICKED, WM_ACTIVATEAPP, WM_COMMAND, WM_CREATE, WM_INPUT};
use crate::layout::{
    EntryLayout, FIRST_SENSE_ID, Metrics, entry_layout, header_top, lay_out_entry, layout_height,
    metrics, metrics_at,
};

verus! {

/// Whether the entry at `index` can be laid out at `dpi`: its senses can be
/// numbered and its height fits in an `i32`. Nothing is laid out when there
/// are no entries.
pub open spec fn displayable(entries: Seq<EntryView>, index: int, dpi: int) -> bool {
    entries.len() > 0 ==> {
        &&& entries[index].senses.len() + FIRST_SENSE_ID <= isize::MAX
        &&& layout_height(entries[index], metrics_at(dpi)) <= i32::MAX
    }
}

/// What the popup shows for the entry at `index` at `dpi`: nothing when there
/// are no entries, else that entry's layout.
pub open spec fn shown(entries: Seq<EntryView>, index: int, dpi: int) -> Option<crate::layout::LayoutView> {
    if entries.len() == 0 {
        None
    } else {
        Some(entry_layout(entries[index], index, entries.len() as int, metrics_at(dpi)))
    }
}

/// The entry shown after "next": the following one (none when there are no
/// entries).
pub open spec fn next_index(count: int, index: int) -> int {
    if count == 0 {
        0
    } else {
        index + 1
    }
}

/// The entry shown after "previous": the one before.
pub open spec fn prev_index(index: int) -> int {
    index - 1
}

/// The entries of a search, and the one on show.
pub struct PopupWindow {
    entries: Vec<Entry>,
    index: usize,
}

impl PopupWindow {
    /// The entry on show is one of the entries; with none, it is the first.
    #[verifier::type_invariant]
    spec fn index_in_range(self) -> bool {
        if self.entries@.len() == 0 {
            self.index == 0
        } else {
            self.index < self.entries@.len()
        }
    }

    /// The entries, by their views.
    pub closed spec fn entries(self) -> Seq<EntryView> {
        entries_view(self.entries@)
    }

    /// The position of the entry on show.
    pub closed spec fn current(self) -> int {
        self.index as int
    }

    /// A popup for `entries`, showing the first.
    pub fn new(entries: Vec<Entry>) -> (p: PopupWindow)
        ensures
            p.entries() == entries_view(entries@),
            p.current() == 0,
    {
        PopupWindow { entries, index: 0 }
    }

    /// The position of the entry on show: `0` with no entries, else less than
    /// their number.
    pub fn index(&self) -> (i: usize)
        ensures
            i == self.current(),
            self.entries().len() == 0 ==> i == 0,
            self.entries().len() > 0 ==> i < self.entries().len(),
    {
        proof {
            use_type_invariant(self);
        }
        self.index
    }

    /// The number of entries.
    pub fn entry_count(&self) -> (n: usize)
        ensures
            n == self.entries().len(),
    {
        self.entries.len()
    }

    /// Whether the entry at `index` is one of the entries and can be laid out
    /// at `dpi`; with no entries, whether `index` is the first position.
    pub fn can_display(&self, index: usize, dpi: u32) -> (ok: bool)
        ensures
            ok == (if self.entries().len() == 0 {
                index == 0
            } else {
                index < self.entries().len() && displayable(self.entries(), index as int, dpi as int)
            }),
    {
        if self.entries.len() == 0 {
            return index == 0;
        }
        if index >= self.entries.len() {
            return false;
        }
        let e = &self.entries[index];
        assert(e@ == self.entries()[index as int]);
        if e.senses.len() > (isize::MAX - FIRST_SENSE_ID) as usize {
            return false;
        }
        crate::layout::height_fits(e, dpi)
    }

    /// Lays out the entry on show at `dpi`; nothing when there are no
    /// entries.
    pub fn display_entry(&self, dpi: u32) -> (r: Option<EntryLayout>)
        requires
            displayable(self.entries(), self.current(), dpi as int),
        ensures
            match r {
                Some(l) => shown(self.entries(), self.current(), dpi as int) == Some(l@),
                None => shown(self.entries(), self.current(), dpi as int) is None,
            },
    {
        proof {
            use_type_invariant(self);
        }
        if self.entries.len() == 0 {
            return None;
        }
        let e = &self.entries[self.index];
        assert(e@ == self.entries()[self.current()]);
        Some(lay_out_entry(e, self.index, self.entries.len(), dpi))
    }

    /// Moves to the next entry and lays it out. Defined while there is a next
    /// entry, or when there are none (then nothing moves or shows).
    pub fn display_next(&mut self, dpi: u32) -> (r: Option<EntryLayout>)
        requires
            old(self).entries().len() == 0 || old(self).current() + 1 < old(self).entries().len(),
            displayable(
                old(self).entries(),
                next_index(old(self).entries().len() as int, old(self).current()),
                dpi as int,
            ),
        ensures
            final(self).entries() == old(self).entries(),
            final(self).current() == next_index(old(self).entries().len() as int, old(self).current()),
            match r {
                Some(l) => shown(final(self).entries(), final(self).current(), dpi as int) == Some(l@),
                None => shown(final(self).entries(), final(self).current(), dpi as int) is None,
            },
    {
        proof {
            use_type_invariant(&*self);
        }
        let len = self.entries.len();
        let mut index = self.index + 1;
        if index >= len {
            index = len;
        }
        self.index = index;
        self.display_entry(dpi)
    }

    /// Moves to the previous entry and lays it out. Defined past the first
    /// entry.
    pub fn display_prev(&mut self, dpi: u32) -> (r: Option<EntryLayout>)
        requires
            old(self).current() > 0,
            displayable(old(self).entries(), prev_index(old(self).current()), dpi as int),
        ensures
            final(self).entries() == old(self).entries(),
            final(self).current() == prev_index(old(self).current()),
            match r {
                Some(l) => shown(final(self).entries(), final(self).current(), dpi as int) == Some(l@),
                None => shown(final(self).entries(), final(self).current(), dpi as int) is None,
            },
    {
        proof {
            use_type_invariant(&*self);
        }
        self.index = self.index - 1;
        self.display_entry(dpi)
    }
}

/// Control id of the button that opens the community link.
pub const BTN_KIDNEY: isize = 2048;
/// Control id of the button that opens the dictionary's site.
pub const BTN_JISHO: isize = 2049;
/// Control id of the "previous entry" button.
pub const BTN_PREV: isize = 2050;
/// Control id of the "next entry" button.
pub const BTN_NEXT: isize = 2051;

/// The icon on a button.
#[derive(Clone, Copy, Debug, PartialEq, Eq, Structural)]
pub enum ButtonIcon {
    Kidney,
    Jisho,
    Left,
    Right,
}

/// A square icon button: its control id, icon, top-left corner and side.
#[derive(Clone, Copy, Debug, PartialEq, Eq, Structural)]
pub struct IconButton {
    pub id: isize,
    pub icon: ButtonIcon,
    pub x: i32,
    pub y: i32,
    pub size: i32,
}

/// The row of buttons at the top of the popup: the two link buttons at the
/// left, one margin apart, and the two arrows around the middle, one margin
/// apart.
pub open spec fn button_row_at(m: Metrics) -> Seq<IconButton> {
    let y = m.margin;
    let b = m.button;
    let middle = m.width / 2;
    seq![
        IconButton { id: BTN_KIDNEY, icon: ButtonIcon::Kidney, x: m.margin, y, size: b },
        IconButton { id: BTN_JISHO, icon: ButtonIcon::Jisho, x: (m.margin + b + m.margin) as i32, y, size: b },
        IconButton { id: BTN_PREV, icon: ButtonIcon::Left, x: (middle - m.margin / 2 - b) as i32, y, size: b },
        IconButton { id: BTN_NEXT, icon: ButtonIcon::Right, x: (middle + m.margin / 2) as i32, y, size: b },
    ]
}

/// The buttons of the popup at `dpi`. Defined while the row, with its margins,
/// is no taller than the largest `i32`.
pub fn button_row(dpi: u32) -> (r: Vec<IconButton>)
    requires
        header_top(metrics_at(dpi as int)) <= i32::MAX,
    ensures
        r@ == button_row_at(metrics_at(dpi as int)),
{
    let m = metrics(dpi);
    proof {
        crate::layout::lemma_metrics_nonnegative(dpi as int);
    }
    let y = m.margin;
    let b = m.button;
    let middle = m.width / 2;
    let half_margin = m.margin / 2;
    let mut row: Vec<IconButton> = Vec::new();
    row.push(IconButton { id: BTN_KIDNEY, icon: ButtonIcon::Kidney, x: m.margin, y, size: b });
    row.push(IconButton { id: BTN_JISHO, icon: ButtonIcon::Jisho, x: m.margin + b + m.margin, y, size: b });
    row.push(IconButton { id: BTN_PREV, icon: ButtonIcon::Left, x: middle - half_margin - b, y, size: b });
    row.push(IconButton { id: BTN_NEXT, icon: ButtonIcon::Right, x: middle + half_margin, y, size: b });
    assert(row@ =~= button_row_at(m));
    row
}

/// A point on the screen.
#[derive(Clone, Copy, Debug, PartialEq, Eq, Structural)]
pub struct Point {
    pub x: i32,
    pub y: i32,
}

/// A rectangle on the screen, edges included.
#[derive(Clone, Copy, Debug, PartialEq, Eq, Structural)]
pub struct Rect {
    pub left: i32,
    pub top: i32,
    pub right: i32,
    pub bottom: i32,
}

/// How far `p` lies outside the span from `lo` to `hi`; `0` inside it.
pub open spec fn axis_gap(p: int, lo: int, hi: int) -> int {
    if p < lo {
        lo - p
    } else if p > hi {
        p - hi
    } else {
        0
    }
}

/// How far the cursor is from the window: the larger of its distances
/// outside the window across and down.
pub open spec fn cursor_distance(cursor: Point, window: Rect) -> int {
    let dx = axis_gap(cursor.x as int, window.left as int, window.right as int);
    let dy = axis_gap(cursor.y as int, window.top as int, window.bottom as int);
    if dx >= dy {
        dx
    } else {
        dy
    }
}

/// What becomes of the popup as the cursor moves.
#[derive(Clone, Copy, Debug, PartialEq, Eq, Structural)]
pub enum Fade {
    /// The cursor went too far: the popup closes.
    Close,
    /// The popup's opacity, from 0 (clear) to 255 (solid).
    Opacity(u8),
}

/// The popup fades by one step per pixel that the cursor is away from it, and
/// closes beyond 255 pixels.
pub open spec fn fade_at(distance: int) -> Fade {
    if distance > 255 {
        Fade::Close
    } else {
        Fade::Opacity((255 - distance) as u8)
    }
}

/// How far `p` lies outside the span from `lo` to `hi`.
fn gap(p: i32, lo: i32, hi: i32) -> (d: i32)
    requires
        axis_gap(p as int, lo as int, hi as int) <= i32::MAX,
    ensures
        d == axis_gap(p as int, lo as int, hi as int),
{
    if p < lo {
        lo - p
    } else if p > hi {
        p - hi
    } else {
        0
    }
}

/// The popup's fade for the cursor at `cursor` and the popup at `window`.
/// Defined while each distance outside the window fits in an `i32`.
pub fn fade(cursor: Point, window: Rect) -> (f: Fade)
    requires
        axis_gap(cursor.x as int, window.left as int, window.right as int) <= i32::MAX,
        axis_gap(cursor.y as int, window.top as int, window.bottom as int) <= i32::MAX,
    ensures
        f == fade_at(cursor_distance(cursor, window)),
{
    let dx = gap(cursor.x, window.left, window.right);
    let dy = gap(cursor.y, window.top, window.bottom);
    let dist = if dx >= dy {
        dx
    } else {
        dy
    };
    if dist > 0xFF {
        Fade::Close
    } else {
        Fade::Opacity(0xFF - dist as u8)
    }
}

/// The places the two link buttons open.
#[derive(Clone, Copy, Debug, PartialEq, Eq, Structural)]
pub enum Link {
    /// The community's invitation.
    Community,
    /// The dictionary's site.
    Dictionary,
}

/// The address behind a link button.
pub open spec fn link_address_of(link: Link) -> Seq<char> {
    match link {
        Link::Community => "https://discord.gg/jlss"@,
        Link::Dictionary => "https://jisho.org"@,
    }
}

/// The address behind a link button.
pub fn link_address(link: Link) -> (a: &'static str)
    ensures
        a@ == link_address_of(link),
{
    match link {
        Link::Community => "https://discord.gg/jlss",
        Link::Dictionary => "https://jisho.org",
    }
}

/// What the popup does with a window message.
#[derive(Clone, Copy, Debug, PartialEq, Eq, Structural)]
pub enum PopupAction {
    /// Keep the application state passed at creation with the window.
    StoreCreateParams,
    /// Read the cursor and the window's place, and [`fade`].
    TrackCursor,
    /// Open a link in the browser.
    OpenLink(Link),
    /// Show the previous entry.
    ShowPrevious,
    /// Show the next entry.
    ShowNext,
    /// Destroy the popup.
    Close,
    /// Nothing more to do; the message is handled.
    Handled,
    /// Leave the message to the default window procedure.
    Default,
}

/// The notification code of a command: bits 16 to 47 of its `wparam`.
pub open spec fn command_code(wparam: int) -> int {
    (wparam / 0x10000) % 0x1_0000_0000
}

/// What the popup does when a button with control id `id` is clicked.
pub open spec fn button_action(id: int) -> PopupAction {
    if id == BTN_KIDNEY {
        PopupAction::OpenLink(Link::Community)
    } else if id == BTN_JISHO {
        PopupAction::OpenLink(Link::Dictionary)
    } else if id == BTN_PREV {
        PopupAction::ShowPrevious
    } else if id == BTN_NEXT {
        PopupAction::ShowNext
    } else {
        PopupAction::Handled
    }
}

/// What the popup does with message `msg`: it keeps its creation state, tracks
/// raw mouse input, acts on a click of one of its buttons (whose id is the low
/// word of `wparam`), and closes when the application loses the focus.
pub open spec fn popup_action_for(msg: u32, wparam: usize) -> PopupAction {
    if msg == WM_CREATE {
        PopupAction::StoreCreateParams
    } else if msg == WM_INPUT {
        PopupAction::TrackCursor
    } else if msg == WM_COMMAND {
        if command_code(wparam as int) == BN_CLICKED {
            button_action(crate::messages::low_word(wparam as int))
        } else {
            PopupAction::Handled
        }
    } else if msg == WM_ACTIVATEAPP {
        if wparam == 0 {
            PopupAction::Close
        } else {
            PopupAction::Handled
        }
    } else {
        PopupAction::Default
    }
}

/// Decides what the popup does with message `msg`.
pub fn popup_action(msg: u32, wparam: usize) -> (a: PopupAction)
    ensures
        a == popup_action_for(msg, wparam),
{
    if msg == WM_CREATE {
        PopupAction::StoreCreateParams
    } else if msg == WM_INPUT {
        PopupAction::TrackCursor
    } else if msg == WM_COMMAND {
        let code = (wparam >> 16) as u32;
        assert(((wparam >> 16) as u32) as int == ((wparam as int) / 0x10000) % 0x1_0000_0000)
            by (bit_vector);
        if code == BN_CLICKED {
            let id = (wparam & 0xFFFF) as isize;
            assert(((wparam & 0xFFFF) as isize) as int == (wparam as int) % 0x10000) by (bit_vector);
            if id == BTN_KIDNEY {
                PopupAction::OpenLink(Link::Community)
            } else if id == BTN_JISHO {
                PopupAction::OpenLink(Link::Dictionary)
            } else if id == BTN_PREV {
                PopupAction::ShowPrevious
            } else if id == BTN_NEXT {
                PopupAction::ShowNext
            } else {
                PopupAction::Handled
            }
        } else {
            PopupAction::Handled
        }
    } else if msg == WM_ACTIVATEAPP {
        if wparam == 0 {
            PopupAction::Close
        } else {
            PopupAction::Handled
        }
    } else {
        PopupAction::Default
    }
}

/// The arrow buttons are enabled exactly when the move they make is defined:
/// "previous" past the first entry, "next" before the last one.
pub proof fn arrows_match_moves(entries: Seq<EntryView>, index: int, dpi: int)
    requires
        0 <= index < entries.len(),
    ensures
        shown(entries, index, dpi) is Some,
        shown(entries, index, dpi)->0.prev_enabled <==> index > 0,
        shown(entries, index, dpi)->0.next_enabled <==> index + 1 < entries.len(),
{
}

/// Going to the next entry and back returns to the same entry.
pub proof fn next_then_prev_returns(count: int, index: int)
    requires
        0 <= index,
        index + 1 < count,
    ensures
        next_index(count, index) > 0,
        prev_index(next_index(count, index)) == index,
{
}

/// While the cursor is over the popup, the popup is fully solid.
pub proof fn solid_under_cursor(cursor: Point, window: Rect)
    requires
        window.left <= cursor.x <= window.right,
        window.top <= cursor.y <= window.bottom,
    ensures
        fade_at(cursor_distance(cursor, window)) == Fade::Opacity(255),
{
}

/// The farther the cursor, the fainter the popup: it never gets more solid as
/// the distance grows, and once closed it stays closed.
pub proof fn fades_with_distance(near: int, far: int)
    requires
        0 <= near <= far,
    ensures
        fade_at(near) is Close ==> fade_at(far) is Close,
        fade_at(far) is Opacity ==> fade_at(near) is Opacity && fade_at(near)->0 >= fade_at(far)->0,
        fade_at(far) is Close <==> far > 255,
{
}

/// Going to the next entry and back shows the same layout as before.
pub proof fn next_then_prev_shows_the_same(entries: Seq<EntryView>, index: int, dpi: int)
    requires
        0 <= index,
        index + 1 < entries.len(),
    ensures
        shown(entries, prev_index(next_index(entries.len() as int, index)), dpi) == shown(entries, index, dpi),
{
}

/// The cursor's distance is the larger of its gaps outside the window across
/// and down: it is at least each gap and equal to one of them. So the popup
/// closes exactly when either gap exceeds 255 pixels, and otherwise its
/// opacity and that larger gap add up to 255.
pub proof fn distance_is_the_larger_gap(cursor: Point, window: Rect)
    ensures
        ({
            let dx = axis_gap(cursor.x as int, window.left as int, window.right as int);
            let dy = axis_gap(cursor.y as int, window.top as int, window.bottom as int);
            let d = cursor_distance(cursor, window);
            &&& d >= dx
            &&& d >= dy
            &&& d == dx || d == dy
            &&& (fade_at(d) is Close <==> dx > 255 || dy > 255)
            &&& (fade_at(d) matches Fade::Opacity(o) ==> o + d == 255)
        }),
{
}

/// How far a coordinate lies outside a span: nothing within it, else the
/// distance to the nearer edge.
pub proof fn gap_is_distance_to_the_span(p: int, lo: int, hi: int)
    requires
        lo <= hi,
    ensures
        axis_gap(p, lo, hi) >= 0,
        axis_gap(p, lo, hi) == 0 <==> lo <= p <= hi,
        p < lo ==> axis_gap(p, lo, hi) == lo - p,
        p > hi ==> axis_gap(p, lo, hi) == p - hi,
{
}

/// What the popup does with each message, by its number: creation (0x0001)
/// keeps the state; raw input (0x00FF) tracks the cursor; a command (0x0111)
/// whose notification code (bits 16 and up of `wparam`) is a click (0) acts on
/// the button whose id is the low word of `wparam` (2048 and 2049 open the two
/// links, 2050 shows the previous entry, 2051 the next), and any other command
/// is handled with nothing done; losing the focus (0x001C with `wparam` 0)
/// closes the popup; anything else goes to the default procedure.
pub proof fn popup_reactions(msg: u32, wparam: usize)
    ensures
        ({
            let a = popup_action_for(msg, wparam);
            let id = (wparam as int) % 0x10000;
            let code = ((wparam as int) / 0x10000) % 0x1_0000_0000;
            &&& msg == 0x0001 ==> a == PopupAction::StoreCreateParams
            &&& msg == 0x00FF ==> a == PopupAction::TrackCursor
            &&& msg == 0x0111 && code != 0 ==> a == PopupAction::Handled
            &&& msg == 0x0111 && code == 0 ==> a == (if id == 2048 {
                PopupAction::OpenLink(Link::Community)
            } else if id == 2049 {
                PopupAction::OpenLink(Link::Dictionary)
            } else if id == 2050 {
                PopupAction::ShowPrevious
            } else if id == 2051 {
                PopupAction::ShowNext
            } else {
                PopupAction::Handled
            })
            &&& msg == 0x001C ==> a == (if wparam == 0 {
                PopupAction::Close
            } else {
                PopupAction::Handled
            })
            &&& !(msg == 0x0001 || msg == 0x00FF || msg == 0x0111 || msg == 0x001C) ==> a == PopupAction::Default
        }),
{
}

/// The four buttons sit in one row, one margin from the top, all one button
/// wide: the community link at the left margin, the dictionary link one
/// margin to its right, and the two arrows on either side of the popup's
/// middle, "previous" to the left and "next" to the right, with twice half a
/// margin between them.
#[verifier::rlimit(40)]
pub proof fn buttons_sit_in_a_row(dpi: int)
    requires
        dpi >= 0,
        header_top(metrics_at(dpi)) <= i32::MAX,
    ensures
        ({
            let m = metrics_at(dpi);
            let r = button_row_at(m);
            &&& r.len() == 4
            &&& forall|k: int| 0 <= k < 4 ==> #[trigger] r[k].y == m.margin && r[k].size == m.button
            &&& r[0].id == 2048 && r[0].icon == ButtonIcon::Kidney && r[0].x == m.margin
            &&& r[1].id == 2049 && r[1].icon == ButtonIcon::Jisho && r[1].x == r[0].x + m.button + m.margin
            &&& r[2].id == 2050 && r[2].icon == ButtonIcon::Left
            &&& r[3].id == 2051 && r[3].icon == ButtonIcon::Right
            &&& r[2].x + m.button <= m.width / 2 <= r[3].x
            &&& r[3].x - (r[2].x + m.button) == 2 * (m.margin / 2)
        }),
{
    crate::layout::lemma_metrics_nonnegative(dpi);
    let m = metrics_at(dpi);
    let r = button_row_at(m);
    let middle = m.width / 2;
    assert(0 <= middle <= m.width);
    assert(0 <= m.margin / 2 <= m.margin);
    assert(r[0].x == m.margin);
    assert(r[1].x == m.margin + m.button + m.margin);
    assert(r[2].x == middle - m.margin / 2 - m.button);
    assert(r[3].x == middle + m.margin / 2);
}

/// "Next" shows the following entry and "previous" the one before: each move
/// changes the position by exactly one.
pub proof fn moves_go_one_entry(count: int, index: int)
    requires
        count > 0,
    ensures
        next_index(count, index) == index + 1,
        prev_index(index) == index - 1,
        next_index(0, index) == 0,
{
}

} // verus!
