//! The tray icon's decisions: the menu's labels and what each window message
//! or console event leads to. The window, the icon and the menu are the
//! caller's.

use vstd::prelude::*;

verus! {

/// `WM_APP`.
pub const WM_APP: u32 = 0x8000;
/// The tray icon's callback message.
pub const WM_TRAY: u32 = WM_APP + 1;
/// `WM_COMMAND`.
pub const WM_COMMAND: u32 = 0x0111;
/// `WM_DESTROY`.
pub const WM_DESTROY: u32 = 0x0002;
/// `WM_LBUTTONUP`.
pub const WM_LBUTTONUP: u32 = 0x0202;
/// `WM_RBUTTONUP`.
pub const WM_RBUTTONUP: u32 = 0x0205;
/// `CTRL_C_EVENT`, `CTRL_BREAK_EVENT`, `CTRL_CLOSE_EVENT`.
pub const CTRL_C_EVENT: u32 = 0;
pub const CTRL_BREAK_EVENT: u32 = 1;
pub const CTRL_CLOSE_EVENT: u32 = 2;

/// Menu command ids.
pub const ID_AUTOSTART: usize = 1001;
pub const ID_EXIT: usize = 1002;

/// The tray icon's tooltip.
pub const TRAY_TIP: &'static str = "NetEase Cloud Music DiscordRPC";

/// What the tray window does with a message.
#[derive(Clone, Copy, PartialEq, Eq, Debug, Structural)]
pub enum TrayAction {
    /// Show the context menu, then answer 0.
    ShowMenu,
    /// Toggle auto-start, then answer 0.
    ToggleAutoStart,
    /// Stop the poll loop, remove the icon, destroy the window; answer 0.
    Exit,
    /// Remove the icon, free the state and quit the message loop; answer 0.
    Destroy,
    /// Nothing to do; answer 0.
    Handled,
    /// Leave the message to the default window procedure.
    Default,
}

/// The action for window message `msg` with parameters `wparam`, `lparam`.
pub fn tray_action(msg: u32, wparam: usize, lparam: isize) -> (r: TrayAction)
    ensures
        r == (if msg == WM_TRAY {
            if lparam as u32 == WM_RBUTTONUP || lparam as u32 == WM_LBUTTONUP {
                TrayAction::ShowMenu
            } else {
                TrayAction::Handled
            }
        } else if msg == WM_COMMAND {
            if wparam == ID_AUTOSTART {
                TrayAction::ToggleAutoStart
            } else if wparam == ID_EXIT {
                TrayAction::Exit
            } else {
                TrayAction::Handled
            }
        } else if msg == WM_DESTROY {
            TrayAction::Destroy
        } else {
            TrayAction::Default
        }),
{
    if msg == WM_TRAY {
        let event = lparam as u32;
        if event == WM_RBUTTONUP || event == WM_LBUTTONUP {
            TrayAction::ShowMenu
        } else {
            TrayAction::Handled
        }
    } else if msg == WM_COMMAND {
        if wparam == ID_AUTOSTART {
            TrayAction::ToggleAutoStart
        } else if wparam == ID_EXIT {
            TrayAction::Exit
        } else {
            TrayAction::Handled
        }
    } else if msg == WM_DESTROY {
        TrayAction::Destroy
    } else {
        TrayAction::Default
    }
}

/// Whether a console control event asks to exit (Ctrl+C, Ctrl+Break, closing
/// the console): it is then routed through the tray's Exit.
pub fn console_event_exits(ctrl: u32) -> (r: bool)
    ensures
        r == (ctrl == CTRL_C_EVENT || ctrl == CTRL_BREAK_EVENT || ctrl == CTRL_CLOSE_EVENT),
{
    ctrl == CTRL_C_EVENT || ctrl == CTRL_BREAK_EVENT || ctrl == CTRL_CLOSE_EVENT
}

/// The auto-start menu entry, with a check mark when enabled.
pub fn auto_label(enabled: bool) -> (r: String)
    ensures
        r@ == (if enabled {
            "AutoStart    √"@
        } else {
            "AutoStart    ✘"@
        }),
{
    if enabled {
        String::from_str("AutoStart    √")
    } else {
        String::from_str("AutoStart    ✘")
    }
}

} // verus!
