use dsh_launcher::browser::{browser_pids, has_pid, is_browser, open_browser_watch, Process};
use dsh_launcher::utf16::wide;

fn process(pid: u32, name: &str) -> Process {
    let mut exe = wide(name);
    exe.resize(260, 0);
    Process { pid, exe }
}

#[test]
fn browsers_are_found_whatever_their_case() {
    let ps = vec![
        process(1, "explorer.exe"),
        process(2, "MsEdge.EXE"),
        process(3, "chrome.exe"),
        process(4, "chrome.exe.bak"),
        process(5, "360SE.exe"),
        process(3, "iexplore.exe"),
        process(6, ""),
    ];
    assert_eq!(browser_pids(&ps), vec![2, 3, 5, 3]);
    assert!(browser_pids(&vec![]).is_empty());
}

#[test]
fn names_of_browsers() {
    for name in [
        "msedge.exe", "chrome.exe", "firefox.exe", "opera.exe", "brave.exe", "vivaldi.exe", "360se.exe",
        "360chrome.exe", "qqbrowser.exe", "sogouexplorer.exe", "iexplore.exe",
    ] {
        assert!(is_browser(name));
    }
    assert!(!is_browser("Chrome.exe"));
    assert!(!is_browser("dsh.exe"));
    assert!(!is_browser(""));
}

#[test]
fn opened_browser_is_watched_if_it_is_new() {
    let before = vec![10, 20];
    assert_eq!(open_browser_watch("u", Some(30), &before), ("[INFO] 已在浏览器打开: u".to_string(), true));
    assert!(!open_browser_watch("u", Some(20), &before).1);
    assert!(!open_browser_watch("u", Some(0), &before).1);
    let (m, fresh) = open_browser_watch("u", None, &before);
    assert_eq!(m, "[WARN] 打开浏览器失败,请手动访问: u (启动器将常驻,关闭窗口或按 Ctrl+C 关闭 DSH 服务)");
    assert!(!fresh);
    assert!(has_pid(&before, 10));
    assert!(!has_pid(&before, 11));
}
