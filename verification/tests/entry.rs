use dsh_launcher::entry::{
    entry_from_file, launchable, node_script, npm_ok, npx_package, print_entry, sibling_path,
    spawn_dsh, version_ok, where_line, CommandLine, Entry, FileStep,
};
use dsh_launcher::paths::file_facts;

fn line(c: &CommandLine) -> (String, Vec<String>) {
    (c.program.clone(), c.args.clone())
}

fn expect(program: &str, args: &[&str]) -> (String, Vec<String>) {
    (program.to_string(), args.iter().map(|s| s.to_string()).collect())
}

fn entry(path: &str, missing: usize) -> Entry {
    match entry_from_file(&file_facts(path, true), missing) {
        FileStep::Entry(e) => e,
        _ => panic!("no entry"),
    }
}

#[test]
fn scripts_need_the_interpreter() {
    for path in ["dsh.cmd", "dsh.BAT"] {
        let e = entry(path, 0);
        assert!(e.via_cmd);
        assert_eq!(e.program, path);
        assert!(e.args.is_empty());
        assert!(!e.skip_version);
        assert!(!e.slow_start);
    }
    assert!(!entry("dsh.exe", 0).via_cmd);
}

#[test]
fn file_without_extension_stands_for_its_siblings() {
    let f = file_facts("dsh", true);
    for (missing, path) in [(0, "dsh.cmd"), (1, "dsh.bat"), (2, "dsh.exe")] {
        match entry_from_file(&f, missing) {
            FileStep::Sibling(p) => assert_eq!(p, path),
            _ => panic!("no sibling"),
        }
        assert_eq!(sibling_path(&f, missing), path);
    }
    let e = entry("dsh", 3);
    assert!(!e.via_cmd);
    assert_eq!(e.program, "dsh");
}

#[test]
fn other_kinds_are_refused() {
    match entry_from_file(&file_facts("dsh.ps1", true), 0) {
        FileStep::Refused(m) => assert_eq!(m, "不支持的入口文件类型: dsh.ps1"),
        _ => panic!("not refused"),
    }
    assert!(launchable("bat"));
    assert!(!launchable(""));
    assert!(!launchable("EXE"));
}

#[test]
fn commands_of_an_entry() {
    let mut e = entry("dsh.cmd", 0);
    e.args.push("web".to_string());
    assert_eq!(line(&spawn_dsh(&e)), expect("cmd.exe", &["/C", "dsh.cmd", "web"]));
    assert_eq!(line(&version_ok(&e).unwrap()), expect("cmd.exe", &["/C", "dsh.cmd", "web", "--version"]));
    let n = node_script("main.js");
    assert_eq!(line(&spawn_dsh(&n)), expect("node", &["main.js"]));
    assert_eq!(line(&version_ok(&n).unwrap()), expect("node", &["main.js", "--version"]));
    let x = npx_package("dsh");
    assert!(x.skip_version);
    assert!(x.slow_start);
    assert!(version_ok(&x).is_none());
    assert_eq!(line(&spawn_dsh(&x)), expect("cmd.exe", &["/C", "npx", "--yes", "dsh"]));
    assert_eq!(line(&npm_ok()), expect("cmd.exe", &["/C", "npm --version"]));
    assert_eq!(line(&where_line("dsh")), expect("where.exe", &["dsh"]));
}

#[test]
fn entry_is_spoken_of() {
    let mut e = npx_package("dsh");
    e.args.push("web".to_string());
    assert_eq!(print_entry(&e), "[INFO] 使用入口: cmd /C \"npx\" --yes dsh web");
    assert_eq!(print_entry(&node_script("a b.js")), "[INFO] 使用入口: node a b.js");
    assert_eq!(print_entry(&entry("d.exe", 0)), "[INFO] 使用入口: d.exe ");
}
