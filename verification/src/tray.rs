//! The hidden main window that owns the tray icon: the shortcut that starts a
//! lookup, the search request it sends, the keystrokes that copy the
//! selection, and what the window does with each message.

use vstd::prelude::*;
use vstd::utf8::is_ascii_chars;
use crate::wide::{decode_lossy, utf16_decode_lossy};
use crate::messages::{
    NIN_SELECT, UWM_NOTIFYICONMESSAGE, VK_C, VK_CONTROL, VK_D, WM_COMMAND, WM_CREATE,
    WM_DESTROY, WM_HOTKEY, WM_RBUTTONUP, high_word, lparam_high, lparam_low, low_word,
};

verus! {

/// Modifiers of the lookup shortcut: Control.
pub const LOOKUP_MODIFIERS: u16 = 0x0002;
/// Key of the lookup shortcut: D.
pub const LOOKUP_KEY: u16 = VK_D;
/// Modifiers of the search shortcut: Control.
pub const SEARCH_MODIFIERS: u16 = 0x0002;
/// Key of the search shortcut: D.
pub const SEARCH_KEY: u16 = VK_D;

/// One key going down or up.
#[derive(Clone, Copy, Debug, PartialEq, Eq, Structural)]
pub struct Keystroke {
    pub key: u16,
    pub release: bool,
}

/// Control+C, pressed and released: what copies the selection of the
/// foreground window.
pub open spec fn copy_keystrokes_seq() -> Seq<Keystroke> {
    seq![
        Keystroke { key: VK_CONTROL, release: false },
        Keystroke { key: VK_C, release: false },
        Keystroke { key: VK_CONTROL, release: true },
        Keystroke { key: VK_C, release: true },
    ]
}

/// The keystrokes that copy the selection of the foreground window.
pub fn copy_keystrokes() -> (keys: Vec<Keystroke>)
    ensures
        keys@ == copy_keystrokes_seq(),
{
    let mut keys: Vec<Keystroke> = Vec::new();
    keys.push(Keystroke { key: VK_CONTROL, release: false });
    keys.push(Keystroke { key: VK_C, release: false });
    keys.push(Keystroke { key: VK_CONTROL, release: true });
    keys.push(Keystroke { key: VK_C, release: true });
    assert(keys@ =~= copy_keystrokes_seq());
    keys
}

/// A character with 'A' to 'Z' mapped to 'a' to 'z'.
pub open spec fn lower_ascii(c: char) -> char {
    if 'A' <= c <= 'Z' {
        ((c as int) + 32) as char
    } else {
        c
    }
}

/// A text with its ASCII capitals in lower case.
pub open spec fn ascii_lowercase_of(s: Seq<char>) -> Seq<char> {
    s.map_values(|c: char| lower_ascii(c))
}

/// The address of the dictionary's word search, up to the keyword.
pub open spec fn search_endpoint() -> Seq<char> {
    "https://jisho.org/api/v1/search/words?keyword="@
}

/// The search request for a selection: an ASCII selection goes in lower case
/// and in double quotes, any other as it is.
pub open spec fn lookup_url_of(selection: Seq<char>) -> Seq<char> {
    if is_ascii_chars(selection) {
        search_endpoint() + "\""@ + ascii_lowercase_of(selection) + "\""@
    } else {
        search_endpoint() + selection
    }
}

/// Calls `str::to_ascii_lowercase`. As its documentation says, it returns a
/// copy of `s` with 'A' to 'Z' mapped to 'a' to 'z' and every other character
/// unchanged; the contract claims that.
#[verifier::external_body]
fn to_ascii_lowercase(s: &str) -> (lower: String)
    ensures
        lower@ == ascii_lowercase_of(s@),
{
    s.to_ascii_lowercase()
}

/// The search request for `selection`.
pub fn lookup_url(selection: &str) -> (url: String)
    ensures
        url@ == lookup_url_of(selection@),
{
    let mut url = "https://jisho.org/api/v1/search/words?keyword=".to_owned();
    if selection.is_ascii() {
        let lower = to_ascii_lowercase(selection);
        url.append("\"");
        url.append(lower.as_str());
        url.append("\"");
    } else {
        url.append(selection);
    }
    url
}

/// The search request for the selection copied to the clipboard, given as
/// the clipboard's UTF-16 units before its terminating nul.
pub fn selection_lookup_url(clipboard: &[u16]) -> (url: String)
    ensures
        url@ == lookup_url_of(utf16_decode_lossy(clipboard@)),
{
    let selection = decode_lossy(clipboard);
    lookup_url(selection.as_str())
}

/// What the main window does with a message.
#[derive(Clone, Copy, Debug, PartialEq, Eq, Structural)]
pub enum MainAction {
    /// Copy the selection, search for it and show the results in a popup.
    LookUpSelection,
    /// The search shortcut: nothing is done for it.
    SearchShortcut,
    /// Keep the application state passed at creation with the window.
    StoreCreateParams,
    /// Post the quit message to the message loop.
    PostQuitMessage,
    /// The tray menu's quit command: post `WM_QUIT` to the window.
    QuitApplication,
    /// The tray icon was selected.
    TrayIconSelected,
    /// Show the tray menu at the cursor.
    ShowTrayMenu,
    /// Nothing more to do; the message is handled.
    Handled,
    /// Leave the message to the default window procedure.
    Default,
}

/// What a hot key with these modifiers and key does: the lookup shortcut
/// looks up; the search shortcut, checked after it, does nothing more.
pub open spec fn hotkey_action(modifiers: u16, key: u16) -> MainAction {
    if (modifiers & LOOKUP_MODIFIERS) == LOOKUP_MODIFIERS && key == LOOKUP_KEY {
        MainAction::LookUpSelection
    } else if (modifiers & SEARCH_MODIFIERS) == SEARCH_MODIFIERS && key == SEARCH_KEY {
        MainAction::SearchShortcut
    } else {
        MainAction::Handled
    }
}

/// What the main window does with message `msg`. A hot key packs its
/// modifiers in the low word of `lparam` and its key in the high word; a tray
/// icon event comes in the low word of `lparam`; a menu command's id is the
/// low 32 bits of `wparam`, and `quit_command` is the id of the menu's quit
/// command.
pub open spec fn main_action_for(msg: u32, wparam: usize, lparam: isize, quit_command: u32) -> MainAction {
    if msg == WM_HOTKEY {
        hotkey_action(low_word(lparam as int) as u16, high_word(lparam as int) as u16)
    } else if msg == WM_CREATE {
        MainAction::StoreCreateParams
    } else if msg == WM_DESTROY {
        MainAction::PostQuitMessage
    } else if msg == WM_COMMAND {
        if (wparam as int) % 0x1_0000_0000 == quit_command {
            MainAction::QuitApplication
        } else {
            MainAction::Handled
        }
    } else if msg == UWM_NOTIFYICONMESSAGE {
        let event = low_word(lparam as int);
        if event == NIN_SELECT {
            MainAction::TrayIconSelected
        } else if event == WM_RBUTTONUP {
            MainAction::ShowTrayMenu
        } else {
            MainAction::Handled
        }
    } else {
        MainAction::Default
    }
}

/// Decides what the main window does with message `msg`.
pub fn main_action(msg: u32, wparam: usize, lparam: isize, quit_command: u32) -> (a: MainAction)
    ensures
        a == main_action_for(msg, wparam, lparam, quit_command),
{
    if msg == WM_HOTKEY {
        let modifiers = lparam_low(lparam);
        let key = lparam_high(lparam);
        if (modifiers & LOOKUP_MODIFIERS) == LOOKUP_MODIFIERS && key == LOOKUP_KEY {
            MainAction::LookUpSelection
        } else if (modifiers & SEARCH_MODIFIERS) == SEARCH_MODIFIERS && key == SEARCH_KEY {
            MainAction::SearchShortcut
        } else {
            MainAction::Handled
        }
    } else if msg == WM_CREATE {
        MainAction::StoreCreateParams
    } else if msg == WM_DESTROY {
        MainAction::PostQuitMessage
    } else if msg == WM_COMMAND {
        let command = wparam as u32;
        assert((wparam as u32) as int == (wparam as int) % 0x1_0000_0000) by (bit_vector);
        if command == quit_command {
            MainAction::QuitApplication
        } else {
            MainAction::Handled
        }
    } else if msg == UWM_NOTIFYICONMESSAGE {
        let event = lparam_low(lparam) as u32;
        if event == NIN_SELECT {
            MainAction::TrayIconSelected
        } else if event == WM_RBUTTONUP {
            MainAction::ShowTrayMenu
        } else {
            MainAction::Handled
        }
    } else {
        MainAction::Default
    }
}

/// An ASCII selection sends the same request as its lower-case form: the
/// search does not depend on the case of ASCII letters.
pub proof fn lookup_ignores_ascii_case(selection: Seq<char>)
    requires
        is_ascii_chars(selection),
    ensures
        is_ascii_chars(ascii_lowercase_of(selection)),
        lookup_url_of(ascii_lowercase_of(selection)) == lookup_url_of(selection),
{
    let lower = ascii_lowercase_of(selection);
    assert forall|i: int| 0 <= i < lower.len() implies '\0' <= #[trigger] lower[i] <= '\u{7f}' by {
        assert(lower[i] == lower_ascii(selection[i]));
    }
    assert(ascii_lowercase_of(lower) =~= lower);
}

/// Pressing the registered shortcut, Control+D, with any other modifiers held
/// too, starts a lookup: the hot key message packs the modifiers in the low
/// word and the key in the high word of its `lparam`.
pub proof fn shortcut_starts_lookup(modifiers: u16, wparam: usize, quit_command: u32)
    requires
        modifiers & LOOKUP_MODIFIERS == LOOKUP_MODIFIERS,
    ensures
        main_action_for(
            WM_HOTKEY,
            wparam,
            (modifiers as int + LOOKUP_KEY as int * 0x10000) as isize,
            quit_command,
        ) == MainAction::LookUpSelection,
{
    let p = modifiers as int + LOOKUP_KEY as int * 0x10000;
    assert(p <= 0x7fff_ffff);
    assert(low_word(p) == modifiers as int);
    assert(high_word(p) == LOOKUP_KEY as int);
}

/// The search shortcut never acts: it is the same key chord as the lookup
/// shortcut, which is checked first.
pub proof fn search_shortcut_is_shadowed(modifiers: u16, key: u16)
    ensures
        hotkey_action(modifiers, key) != MainAction::SearchShortcut,
{
}

/// A selection holding any character outside ASCII is sent unchanged and
/// unquoted after the endpoint.
pub proof fn non_ascii_selection_is_sent_as_is(selection: Seq<char>, i: int)
    requires
        0 <= i < selection.len(),
        selection[i] > '\u{7f}',
    ensures
        lookup_url_of(selection) == search_endpoint() + selection,
{
}

/// An all-ASCII selection is sent in double quotes after the endpoint, with
/// the same length, each capital letter turned into its lower-case letter
/// and every other character unchanged.
pub proof fn ascii_selection_is_quoted_in_lower_case(selection: Seq<char>, i: int)
    requires
        forall|k: int| 0 <= k < selection.len() ==> '\0' <= #[trigger] selection[k] <= '\u{7f}',
    ensures
        ({
            let url = lookup_url_of(selection);
            let n = search_endpoint().len();
            &&& url.len() == n + selection.len() + 2
            &&& url.subrange(0, n as int) == search_endpoint()
            &&& url[n as int] == '"'
            &&& url[url.len() - 1] == '"'
            &&& (0 <= i < selection.len() && 'A' <= selection[i] <= 'Z') ==> url[n + 1 + i] as int == selection[i] as int + 32
            &&& (0 <= i < selection.len() && !('A' <= selection[i] <= 'Z')) ==> url[n + 1 + i] == selection[i]
        }),
{
    reveal_strlit("\"");
    let n = search_endpoint().len();
    let url = lookup_url_of(selection);
    assert(is_ascii_chars(selection));
    assert(url.subrange(0, n as int) =~= search_endpoint());
    if 0 <= i < selection.len() {
        assert(url[n + 1 + i] == ascii_lowercase_of(selection)[i]);
    }
}

/// What the main window does with each message, by its number: a hot key
/// (0x0312) looks up exactly when its modifiers, in the low word of `lparam`,
/// include Control (2) and its key, in the high word, is D (0x44), and is
/// otherwise handled with nothing done; creation (0x0001) keeps the state;
/// destruction (0x0002) posts the quit message; a command (0x0111) quits when
/// the low 32 bits of `wparam` are the quit command; a tray event (0x0400),
/// in the low word of `lparam`, reports a selection (0x0400) or shows the
/// menu on a right button release (0x0205); anything else goes to the default
/// procedure.
pub proof fn main_window_reactions(msg: u32, wparam: usize, lparam: isize, quit_command: u32)
    ensures
        ({
            let a = main_action_for(msg, wparam, lparam, quit_command);
            let low = (lparam as int) % 0x10000;
            let high = ((lparam as int) / 0x10000) % 0x10000;
            &&& msg == 0x0312 ==> (a == MainAction::LookUpSelection <==> ((low as u16) & 2u16) == 2u16 && high == 0x44)
            &&& msg == 0x0312 ==> (a == MainAction::LookUpSelection || a == MainAction::Handled)
            &&& msg == 0x0001 ==> a == MainAction::StoreCreateParams
            &&& msg == 0x0002 ==> a == MainAction::PostQuitMessage
            &&& msg == 0x0111 ==> a == (if (wparam as int) % 0x1_0000_0000 == quit_command {
                MainAction::QuitApplication
            } else {
                MainAction::Handled
            })
            &&& msg == 0x0400 ==> a == (if low == 0x0400 {
                MainAction::TrayIconSelected
            } else if low == 0x0205 {
                MainAction::ShowTrayMenu
            } else {
                MainAction::Handled
            })
            &&& !(msg == 0x0312 || msg == 0x0001 || msg == 0x0002 || msg == 0x0111 || msg == 0x0400) ==> a
                == MainAction::Default
        }),
{
    search_shortcut_is_shadowed(low_word(lparam as int) as u16, high_word(lparam as int) as u16);
}

} // verus!
