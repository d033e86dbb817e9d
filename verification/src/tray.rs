//! The icon in the tray: its tip, its menu, and what the window behind it makes of messages.
use vstd::prelude::*;

use crate::utf16::{units, wide};

verus! {

/// The message that the tray icon sends.
pub const WM_TRAY: u32 = 0x8001;

/// The system's message of a chosen command.
pub const WM_COMMAND: u32 = 0x0111;

/// The system's message that the left button was let go.
pub const WM_LBUTTONUP: u32 = 0x0202;

/// The system's message that the right button was let go.
pub const WM_RBUTTONUP: u32 = 0x0205;

/// The system's message that the program is to end.
pub const WM_QUIT: u32 = 0x0012;

/// The menu's command that ends the service.
pub const ID_EXIT: u32 = 1001;

/// The text of the menu's command.
pub const EXIT_LABEL: &'static str = "退出 DSH 服务";

/// The tip of the icon.
pub const TRAY_TIP: &'static str = "DSH 启动器(右键退出服务)";

/// How many code units a tip may have, its zero counted.
pub const TIP_UNITS: usize = 128;

/// What the window behind the icon does with a message.
pub enum WindowAction {
    /// It shows the menu.
    ShowMenu,
    /// It asks the launcher to end.
    RequestExit,
    /// It does nothing.
    Nothing,
    /// It leaves the message to the system.
    PassOn,
}

/// What the window does with a message: a button let go over the icon shows the menu, the menu's
/// command asks for the end, and all that is not of the icon or of a menu goes to the system.
pub open spec fn window_action(msg: u32, wparam: usize, lparam: isize) -> WindowAction {
    if msg == WM_TRAY {
        if lparam as u32 == WM_RBUTTONUP || lparam as u32 == WM_LBUTTONUP {
            WindowAction::ShowMenu
        } else {
            WindowAction::Nothing
        }
    } else if msg == WM_COMMAND {
        if wparam % 0x10000 == ID_EXIT {
            WindowAction::RequestExit
        } else {
            WindowAction::Nothing
        }
    } else {
        WindowAction::PassOn
    }
}

/// What the window does with a message and its two parameters.
pub fn tray_wndproc(msg: u32, wparam: usize, lparam: isize) -> (r: WindowAction)
    ensures
        r == window_action(msg, wparam, lparam),
{
    if msg == WM_TRAY {
        #[verifier::truncate]
        let event: u32 = lparam as u32;
        if event == WM_RBUTTONUP || event == WM_LBUTTONUP {
            WindowAction::ShowMenu
        } else {
            WindowAction::Nothing
        }
    } else if msg == WM_COMMAND {
        #[verifier::truncate]
        let id: u32 = wparam as u32 & 0xffff;
        assert(wparam as u32 & 0xffff == wparam % 0x10000) by (bit_vector);
        if id == ID_EXIT {
            WindowAction::RequestExit
        } else {
            WindowAction::Nothing
        }
    } else {
        WindowAction::PassOn
    }
}

/// Whether a message taken from the queue asks the launcher to end.
pub fn pump_messages(message: u32) -> (r: bool)
    ensures
        r == (message == WM_QUIT),
{
    message == WM_QUIT
}

/// The first so many of a sequence's items, or all.
pub open spec fn at_most<T>(s: Seq<T>, n: int) -> Seq<T> {
    if s.len() <= n {
        s
    } else {
        s.take(n)
    }
}

/// The code units of a tip: the text and a zero behind it, as far as there is room.
pub fn tip_units(tip: &str) -> (r: Vec<u16>)
    ensures
        r@ == at_most(units(tip@).push(0), TIP_UNITS as int),
        r@.len() <= TIP_UNITS,
{
    let mut r: Vec<u16> = wide(tip);
    if r.len() > TIP_UNITS {
        r.truncate(TIP_UNITS);
    }
    r
}

/// The menu's command asks for the end whatever the upper part of its parameter says, and no other
/// command does.
pub proof fn exit_command_is_known_by_its_number(id: usize, upper: usize, lparam: isize)
    requires
        id < 65536,
        id + upper * 65536 <= usize::MAX,
    ensures
        window_action(0x0111, (id + upper * 65536) as usize, lparam) == (if id == 1001 {
            WindowAction::RequestExit
        } else {
            WindowAction::Nothing
        }),
{
    assert((id + upper * 65536) % 65536 == id) by (nonlinear_arith)
        requires
            id < 65536,
    ;
}

/// Either button let go over the icon shows the menu, and nothing else that the icon says does; what
/// is neither of the icon nor a command goes to the system.
pub proof fn buttons_show_the_menu(msg: u32, wparam: usize, event: u32, lparam: isize)
    requires
        lparam == event,
    ensures
        window_action(0x8001, wparam, lparam) == (if event == 0x0202 || event == 0x0205 {
            WindowAction::ShowMenu
        } else {
            WindowAction::Nothing
        }),
        msg != 0x8001 && msg != 0x0111 ==> window_action(msg, wparam, lparam) is PassOn,
{
}

/// A tip that has room is whole, and one that has not keeps as many units as there is room for.
pub proof fn tip_keeps_what_has_room(tip: Seq<char>)
    ensures
        ({
            let whole = units(tip).push(0);
            let kept = at_most(whole, 128);
            &&& kept.is_prefix_of(whole)
            &&& whole.len() <= 128 ==> kept == whole
            &&& whole.len() > 128 ==> kept.len() == 128
        }),
{
}

} // verus!
