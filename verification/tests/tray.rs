use dsh_launcher::tray::{
    pump_messages, tip_units, tray_wndproc, WindowAction, ID_EXIT, TIP_UNITS, TRAY_TIP, WM_COMMAND,
    WM_LBUTTONUP, WM_QUIT, WM_RBUTTONUP, WM_TRAY,
};
use dsh_launcher::ui::{err_popup, show_help, ERROR_TITLE, HELP_TEXT, HELP_TITLE};
use dsh_launcher::utf16::wide;

#[test]
fn buttons_over_the_icon_show_the_menu() {
    assert!(matches!(tray_wndproc(WM_TRAY, 0, WM_RBUTTONUP as isize), WindowAction::ShowMenu));
    assert!(matches!(tray_wndproc(WM_TRAY, 0, WM_LBUTTONUP as isize), WindowAction::ShowMenu));
    assert!(matches!(tray_wndproc(WM_TRAY, 0, 0x0200), WindowAction::Nothing));
    assert!(matches!(tray_wndproc(WM_TRAY, 0, -1), WindowAction::Nothing));
    assert!(matches!(tray_wndproc(WM_TRAY, 0, (1isize << 32) + 0x0205), WindowAction::ShowMenu));
}

#[test]
fn menu_command_asks_for_the_end() {
    assert!(matches!(tray_wndproc(WM_COMMAND, ID_EXIT as usize, 0), WindowAction::RequestExit));
    assert!(matches!(tray_wndproc(WM_COMMAND, 0x70000 + ID_EXIT as usize, 0), WindowAction::RequestExit));
    assert!(matches!(tray_wndproc(WM_COMMAND, 1002, 0), WindowAction::Nothing));
    assert!(matches!(tray_wndproc(0x000f, ID_EXIT as usize, 0x0205), WindowAction::PassOn));
}

#[test]
fn quit_is_told_from_other_messages() {
    assert!(pump_messages(WM_QUIT));
    assert!(!pump_messages(WM_COMMAND));
}

#[test]
fn tip_fits() {
    assert_eq!(tip_units(TRAY_TIP), wide(TRAY_TIP));
    let long = "x".repeat(200);
    let cut = tip_units(&long);
    assert_eq!(cut.len(), TIP_UNITS);
    assert_eq!(cut[TIP_UNITS - 1], 'x' as u16);
    let full = "x".repeat(127);
    assert_eq!(tip_units(&full), wide(&full));
}

#[test]
fn windows_with_messages() {
    let b = err_popup("坏了");
    assert_eq!(b.title, wide("DSH 启动器错误"));
    assert_eq!(b.text, wide("坏了"));
    let h = show_help();
    assert_eq!(h.title, wide(HELP_TITLE));
    assert_eq!(h.text, wide(HELP_TEXT));
    assert_eq!(ERROR_TITLE, "DSH 启动器错误");
    assert!(HELP_TEXT.starts_with("DSH-Launcher v0.1.0 — DeepSeek Harness (dsh) Web 启动器\n\n用法: dsh-launcher.exe [选项]\n"));
    assert!(HELP_TEXT.contains("  --args <\"a b c\">  dsh 启动参数(默认 \"web\";显式设置会覆盖 config.json)\n"));
    assert!(HELP_TEXT.ends_with("无需 config.json 即可直接运行。"));
}
