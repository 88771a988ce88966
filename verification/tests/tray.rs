use windows_sys::Win32::System::Console as c;
use windows_sys::Win32::UI::WindowsAndMessaging as w;
use music_rpc::tray::{
    auto_label, console_event_exits, tray_action, TrayAction, CTRL_BREAK_EVENT, CTRL_CLOSE_EVENT,
    CTRL_C_EVENT, ID_AUTOSTART, ID_EXIT, WM_APP, WM_COMMAND, WM_DESTROY, WM_LBUTTONUP,
    WM_RBUTTONUP, WM_TRAY,
};

#[test]
fn menu_labels() {
    assert_eq!(auto_label(true), "AutoStart    √");
    assert_eq!(auto_label(false), "AutoStart    ✘");
}

#[test]
fn window_messages() {
    assert_eq!(tray_action(WM_TRAY, 0, WM_RBUTTONUP as isize), TrayAction::ShowMenu);
    assert_eq!(tray_action(WM_TRAY, 0, WM_LBUTTONUP as isize), TrayAction::ShowMenu);
    assert_eq!(tray_action(WM_TRAY, 0, 0x0200), TrayAction::Handled);
    assert_eq!(tray_action(WM_COMMAND, ID_AUTOSTART, 0), TrayAction::ToggleAutoStart);
    assert_eq!(tray_action(WM_COMMAND, ID_EXIT, 0), TrayAction::Exit);
    assert_eq!(tray_action(WM_COMMAND, 7, 0), TrayAction::Handled);
    assert_eq!(tray_action(WM_DESTROY, 0, 0), TrayAction::Destroy);
    assert_eq!(tray_action(0x000F, 0, 0), TrayAction::Default);
}

#[test]
fn console_events() {
    assert!(console_event_exits(CTRL_C_EVENT));
    assert!(console_event_exits(CTRL_BREAK_EVENT));
    assert!(console_event_exits(CTRL_CLOSE_EVENT));
    assert!(!console_event_exits(5));
    assert!(!console_event_exits(6));
}

#[test]
fn win32_message_constants_match() {
    assert_eq!(WM_APP, w::WM_APP);
    assert_eq!(WM_TRAY, w::WM_APP + 1);
    assert_eq!(WM_COMMAND, w::WM_COMMAND);
    assert_eq!(WM_DESTROY, w::WM_DESTROY);
    assert_eq!(WM_LBUTTONUP, w::WM_LBUTTONUP);
    assert_eq!(WM_RBUTTONUP, w::WM_RBUTTONUP);
    assert_eq!(CTRL_C_EVENT, c::CTRL_C_EVENT);
    assert_eq!(CTRL_BREAK_EVENT, c::CTRL_BREAK_EVENT);
    assert_eq!(CTRL_CLOSE_EVENT, c::CTRL_CLOSE_EVENT);
}
