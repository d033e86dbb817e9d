use dsh_launcher::entry::{node_script, CommandLine, Entry};
use dsh_launcher::paths::{file_facts, vendor_paths};
use dsh_launcher::resolve::{
    line_texts, resolve_entry, resolve_start, where_candidates, where_exe, Answer, Next, Probe, Stage,
};

/// A machine to search on.
struct Machine {
    exe_dir: Option<String>,
    dirs: Vec<String>,
    files: Vec<String>,
    runs: Vec<String>,
    listing: Option<Vec<u8>>,
}

struct Search {
    logs: Vec<String>,
    asked: Vec<String>,
    end: Result<Entry, String>,
}

fn bare() -> Machine {
    Machine { exe_dir: None, dirs: vec![], files: vec![], runs: vec![], listing: None }
}

fn list(v: &[&str]) -> Vec<String> {
    v.iter().map(|s| s.to_string()).collect()
}

fn typed(c: &CommandLine) -> String {
    format!("{} {}", c.program, c.args.join(" "))
}

fn search(m: &Machine, dsh_path: Option<&str>, pkg: &str) -> Search {
    let mut logs: Vec<String> = vec![];
    let mut asked: Vec<String> = vec![];
    let mut progress = resolve_start(&dsh_path.map(|p| p.to_string()));
    loop {
        logs.extend(progress.logs);
        let stage = match progress.next {
            Next::Ask(stage) => stage,
            Next::Done(end) => return Search { logs, asked, end },
        };
        let answer = match stage.probe(pkg) {
            Probe::File(p) => {
                asked.push(format!("file {}", p));
                let exists = m.files.contains(&p);
                Answer::File(file_facts(&p, exists))
            }
            Probe::ExeDir => {
                asked.push("exe dir".to_string());
                Answer::ExeDir(m.exe_dir.as_ref().map(|d| vendor_paths(d)))
            }
            Probe::IsDir(p) => {
                asked.push(format!("dir {}", p));
                Answer::Flag(m.dirs.contains(&p))
            }
            Probe::Runs(c) => {
                asked.push(format!("runs {}", typed(&c)));
                Answer::Flag(m.runs.contains(&typed(&c)))
            }
            Probe::Output(c) => {
                asked.push(format!("output {}", typed(&c)));
                Answer::Output(m.listing.clone())
            }
        };
        progress = resolve_entry(pkg, stage, answer);
        assert!(asked.len() < 100);
    }
}

fn program(s: &Search) -> String {
    match &s.end {
        Ok(e) => e.program.clone(),
        Err(m) => panic!("no entry: {}", m),
    }
}

fn failure(s: &Search) -> String {
    match &s.end {
        Ok(e) => panic!("an entry: {}", e.program),
        Err(m) => m.clone(),
    }
}

#[test]
fn configured_path_comes_first() {
    let mut m = bare();
    m.files = list(&["my/dsh.exe"]);
    m.runs = list(&["my/dsh.exe --version", "cmd.exe /C npm --version"]);
    let s = search(&m, Some("my/dsh.exe"), "dsh");
    assert_eq!(program(&s), "my/dsh.exe");
    assert_eq!(s.logs, list(&["[INFO] 命中配置路径: my/dsh.exe"]));
    assert_eq!(s.asked, list(&["file my/dsh.exe", "runs my/dsh.exe --version"]));
}

#[test]
fn configured_path_must_be_there() {
    let mut m = bare();
    m.runs = list(&["cmd.exe /C npm --version"]);
    let s = search(&m, Some("my/dsh.exe"), "dsh");
    assert_eq!(failure(&s), "配置的 dsh_path 不存在: my/dsh.exe");
    assert_eq!(s.asked, list(&["file my/dsh.exe"]));
}

#[test]
fn configured_file_must_be_of_a_known_kind() {
    let mut m = bare();
    m.files = list(&["my/dsh.ps1"]);
    let s = search(&m, Some("my/dsh.ps1"), "dsh");
    assert_eq!(failure(&s), "不支持的入口文件类型: my/dsh.ps1");
}

#[test]
fn configured_file_that_fails_ends_the_search() {
    let v = vendor_paths("/opt/l");
    let mut m = bare();
    m.exe_dir = Some("/opt/l".to_string());
    m.dirs = vec![v.dir.clone()];
    m.files = vec!["my/dsh.exe".to_string(), v.candidates[0].clone(), "/p/dsh.exe".to_string()];
    m.runs = vec![
        format!("{} --version", v.candidates[0]),
        "/p/dsh.exe --version".to_string(),
        "cmd.exe /C npm --version".to_string(),
    ];
    m.listing = Some(b"/p/dsh.exe".to_vec());
    let s = search(&m, Some("my/dsh.exe"), "dsh");
    assert_eq!(failure(&s), "配置路径 my/dsh.exe 版本校验失败");
    assert!(s.logs.is_empty());
    assert_eq!(s.asked, list(&["file my/dsh.exe", "runs my/dsh.exe --version"]));
}

#[test]
fn configured_path_may_stand_for_a_sibling() {
    let mut m = bare();
    m.files = list(&["my/dsh", "my/dsh.bat"]);
    m.runs = list(&["cmd.exe /C my/dsh.bat --version"]);
    let s = search(&m, Some("my/dsh"), "dsh");
    assert_eq!(program(&s), "my/dsh.bat");
    assert_eq!(s.logs, list(&["[INFO] 命中配置路径: my/dsh"]));
    m.runs = list(&["cmd.exe /C npm --version"]);
    assert_eq!(failure(&search(&m, Some("my/dsh"), "dsh")), "配置路径 my/dsh 版本校验失败");
}

#[test]
fn vendor_candidates_are_tried_in_order() {
    let v = vendor_paths("/opt/l");
    let mut m = bare();
    m.exe_dir = Some("/opt/l".to_string());
    m.dirs = vec![v.dir.clone()];
    m.files = vec![v.candidates[0].clone(), v.candidates[3].clone(), v.main_js.clone()];
    m.runs = vec![
        format!("cmd.exe /C {} --version", v.candidates[3]),
        format!("node {} --version", v.main_js),
    ];
    let s = search(&m, None, "dsh");
    assert_eq!(program(&s), v.candidates[3]);
    assert_eq!(s.logs, vec![format!("[INFO] 命中离线 vendor 包: {}", v.candidates[3])]);
    assert_eq!(
        s.asked,
        vec![
            "exe dir".to_string(),
            format!("dir {}", v.dir),
            format!("file {}", v.candidates[0]),
            format!("runs {} --version", v.candidates[0]),
            format!("file {}", v.candidates[1]),
            format!("file {}", v.candidates[2]),
            format!("file {}", v.candidates[3]),
            format!("runs cmd.exe /C {} --version", v.candidates[3]),
        ]
    );
}

#[test]
fn vendor_script_is_run_by_node() {
    let v = vendor_paths("/opt/l");
    let mut m = bare();
    m.exe_dir = Some("/opt/l".to_string());
    m.dirs = vec![v.dir.clone()];
    m.files = vec![v.main_js.clone()];
    m.runs = vec![format!("node {} --version", v.main_js)];
    let s = search(&m, None, "dsh");
    match &s.end {
        Ok(e) => {
            assert_eq!(e.program, "node");
            assert_eq!(e.args, vec![v.main_js.clone()]);
            assert!(!e.via_cmd && !e.slow_start && !e.skip_version);
        }
        Err(m) => panic!("no entry: {}", m),
    }
    assert_eq!(s.logs, vec![format!("[INFO] 命中离线 vendor 包(node): {}", v.main_js)]);
}

#[test]
fn vendor_files_without_their_directory_do_not_count() {
    let v = vendor_paths("/opt/l");
    let mut m = bare();
    m.exe_dir = Some("/opt/l".to_string());
    m.files = vec![v.main_js.clone()];
    m.runs = vec![format!("node {} --version", v.main_js)];
    let s = search(&m, None, "dsh");
    assert!(s.end.is_err());
    assert_eq!(s.asked[2], "output where.exe dsh");
}

#[test]
fn search_path_prefers_what_can_be_started() {
    let mut m = bare();
    m.files = list(&["/p/dsh", "/p/dsh.CMD", "/q/dsh.exe"]);
    m.runs = list(&["cmd.exe /C /p/dsh.CMD --version"]);
    m.listing = Some(b"/o/dsh.exe\r\n  /p/dsh \r\n/p/dsh.CMD\r\n/q/dsh.exe\r\n".to_vec());
    let s = search(&m, None, "dsh");
    assert_eq!(program(&s), "/p/dsh.CMD");
    assert_eq!(s.logs, list(&["[INFO] 命中 PATH 中的 dsh: /p/dsh.CMD"]));
    assert_eq!(
        s.asked,
        list(&[
            "exe dir",
            "output where.exe dsh",
            "file /o/dsh.exe",
            "file /p/dsh",
            "file /p/dsh.CMD",
            "runs cmd.exe /C /p/dsh.CMD --version",
        ])
    );
}

#[test]
fn first_file_on_the_search_path_is_the_fallback() {
    let mut m = bare();
    m.files = list(&["/p/dsh", "/p/dsh.bat", "/q/dsh"]);
    m.runs = list(&["cmd.exe /C /p/dsh.bat --version"]);
    m.listing = Some(b"/o/dsh\n/p/dsh\n/q/dsh".to_vec());
    let s = search(&m, None, "dsh");
    assert_eq!(program(&s), "/p/dsh.bat");
    assert_eq!(s.logs, list(&["[INFO] 命中 PATH 中的 dsh: /p/dsh"]));
}

#[test]
fn fallback_of_an_unknown_kind_ends_the_search() {
    let mut m = bare();
    m.files = list(&["/p/dsh.ps1"]);
    m.runs = list(&["cmd.exe /C npm --version"]);
    m.listing = Some(b"/p/dsh.ps1".to_vec());
    assert_eq!(failure(&search(&m, None, "dsh")), "不支持的入口文件类型: /p/dsh.ps1");
}

#[test]
fn file_that_fails_on_the_search_path_leaves_npx() {
    let mut m = bare();
    m.files = list(&["/p/dsh.exe", "/q/dsh.exe"]);
    m.runs = list(&["/q/dsh.exe --version", "cmd.exe /C npm --version"]);
    m.listing = Some(b"/p/dsh.exe\n/q/dsh.exe\n".to_vec());
    let s = search(&m, None, "dsh");
    assert_eq!(program(&s), "npx");
    assert_eq!(s.logs[0], "[WARN] PATH 中的 /p/dsh.exe 版本校验失败,继续解析");
    match &s.end {
        Ok(e) => {
            assert_eq!(e.args, list(&["--yes", "dsh"]));
            assert!(e.via_cmd && e.slow_start && e.skip_version);
        }
        Err(m) => panic!("no entry: {}", m),
    }
}

#[test]
fn nothing_is_found() {
    let s = search(&bare(), None, "tool");
    assert_eq!(
        failure(&s),
        "未找到 tool 命令,且本机无 npm/node,无法自动安装。\n  排查: 1) 安装 Node.js; 2) 将离线包放入 vendor\\dsh; 3) 或配置 dsh_path"
    );
    assert_eq!(s.asked, list(&["exe dir", "output where.exe tool", "runs cmd.exe /C npm --version"]));
}

#[test]
fn lines_of_a_listing() {
    for s in ["", "\n", "a", "a\n", "a\r\nb\r\n", "\n\nx", "a\n\r", " \u{3000}a \n b"] {
        let expected: Vec<String> = s.lines().map(|l| l.trim().to_string()).collect();
        assert_eq!(line_texts(s), expected);
    }
    assert_eq!(where_candidates(&b"C:\\\xff\r\n\xe4\xb8\xad".to_vec()), list(&["C:\\\u{fffd}", "中"]));
}

#[test]
fn listed_file_that_is_missing_is_skipped() {
    let p = where_exe("dsh", list(&["/a", "/b"]), 0, None, file_facts("/a", false));
    assert!(p.logs.is_empty());
    match p.next {
        Next::Ask(Stage::WhereFile(lines, i, fallback)) => {
            assert_eq!(lines, list(&["/a", "/b"]));
            assert_eq!(i, 1);
            assert!(fallback.is_none());
        }
        _ => panic!("another stage"),
    }
}

#[test]
fn answer_to_another_question_changes_nothing() {
    let p = resolve_entry("dsh", Stage::Npm, Answer::Output(None));
    assert!(p.logs.is_empty());
    assert!(matches!(p.next, Next::Ask(Stage::Npm)));
    assert_eq!(node_script("m.js").args, list(&["m.js"]));
}
