//! The window messages, notifications and keys that the windows react to, and
//! how a message's parameters pack their fields.

use vstd::prelude::*;

verus! {

/// A window is being created.
pub const WM_CREATE: u32 = 0x0001;
/// A window is being destroyed.
pub const WM_DESTROY: u32 = 0x0002;
/// The application is being activated or deactivated.
pub const WM_ACTIVATEAPP: u32 = 0x001C;
/// Raw input arrived.
pub const WM_INPUT: u32 = 0x00FF;
/// A command from a menu or a control.
pub const WM_COMMAND: u32 = 0x0111;
/// The right mouse button went up.
pub const WM_RBUTTONUP: u32 = 0x0205;
/// A registered hot key was pressed.
pub const WM_HOTKEY: u32 = 0x0312;
/// The first message number free for an application's own use.
pub const WM_USER: u32 = 0x0400;
/// The message the tray icon sends to the main window.
pub const UWM_NOTIFYICONMESSAGE: u32 = WM_USER;
/// The tray icon was selected.
pub const NIN_SELECT: u32 = WM_USER;
/// A button was clicked.
pub const BN_CLICKED: u32 = 0;

/// The Control modifier of a hot key.
pub const MOD_CONTROL: u32 = 0x0002;
/// A hot key that does not repeat while held.
pub const MOD_NOREPEAT: u32 = 0x4000;
/// The Control key.
pub const VK_CONTROL: u16 = 0x11;
/// The C key.
pub const VK_C: u16 = 0x43;
/// The D key.
pub const VK_D: u16 = 0x44;

/// The low 16 bits of a message parameter.
pub open spec fn low_word(p: int) -> int {
    p % 0x10000
}

/// The 16 bits above the low 16 bits of a message parameter.
pub open spec fn high_word(p: int) -> int {
    (p / 0x10000) % 0x10000
}

/// A signed parameter's low 16 bits.
pub fn lparam_low(p: isize) -> (w: u16)
    ensures
        w == low_word(p as int),
{
    let w = (p & 0xffff) as u16;
    assert(((p & 0xffff) as u16) as int == (p as int) % 0x10000) by (bit_vector);
    w
}

/// A signed parameter's second 16 bits, counted from the low end.
pub fn lparam_high(p: isize) -> (w: u16)
    ensures
        w == high_word(p as int),
{
    let w = ((p >> 16) & 0xffff) as u16;
    assert((((p >> 16) & 0xffff) as u16) as int == ((p as int) / 0x10000) % 0x10000)
        by (bit_vector);
    w
}

/// A parameter of 32 bits is its low word plus its high word times 0x10000,
/// each of them below 0x10000.
pub proof fn words_rebuild_parameter(p: int)
    requires
        0 <= p < 0x1_0000_0000,
    ensures
        0 <= low_word(p) < 0x10000,
        0 <= high_word(p) < 0x10000,
        p == low_word(p) + 0x10000 * high_word(p),
{
}

} // verus!
