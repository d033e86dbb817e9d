use dsh_launcher::browser::Process;
use dsh_launcher::config::{Config, ConfigSource};
use dsh_launcher::entry::node_script;
use dsh_launcher::paths::file_facts;
use dsh_launcher::protocol::{ChildStatus, Effect, Reply, Request};
use dsh_launcher::resolve::{Answer, Probe};
use dsh_launcher::run::{any_pre_alive, cmd_check, launch, run, Phase, Watch};
use dsh_launcher::utf16::wide;

/// A machine to run on. The service of the package is on the search path unless it is missing.
struct Machine {
    missing: bool,
    npm: bool,
    ctrlc: Result<(), String>,
    up_at_first: bool,
    port_taken: bool,
    spawn: Result<(), String>,
    job: bool,
    assign: Result<(), String>,
    up_after: u32,
    round_secs: u64,
    wait_ends: Option<ChildStatus>,
    interrupted_after: u32,
    browsers: Vec<u32>,
    opened: Option<u32>,
    tray: Result<(), String>,
    tray_exit_after: u32,
    exited_after: u32,
    browser_ends_after: u32,
    browser_age: u128,
    alive: Vec<u32>,
}

struct Ran {
    did: Vec<String>,
    asked: Vec<String>,
    code: i32,
}

const NEVER: u32 = 1000;

fn machine() -> Machine {
    Machine {
        missing: false,
        npm: false,
        ctrlc: Ok(()),
        up_at_first: false,
        port_taken: false,
        spawn: Ok(()),
        job: true,
        assign: Ok(()),
        up_after: 1,
        round_secs: 1,
        wait_ends: None,
        interrupted_after: NEVER,
        browsers: vec![],
        opened: Some(77),
        tray: Ok(()),
        tray_exit_after: NEVER,
        exited_after: NEVER,
        browser_ends_after: NEVER,
        browser_age: 10_000_000_000,
        alive: vec![],
    }
}

fn texts(v: &[&str]) -> Vec<String> {
    v.iter().map(|s| s.to_string()).collect()
}

fn play(m: &mut Machine, source: ConfigSource, args: &[&str]) -> Ran {
    let (plan, mut step) = launch(source, &texts(args));
    let mut did: Vec<String> = vec![];
    let mut asked: Vec<String> = vec![];
    let mut https = 0;
    let mut rounds = 0;
    let mut flags = 0;
    let mut trays = 0;
    let mut polls = 0;
    let mut ends = 0;
    let mut waiting = false;
    loop {
        for e in step.effects {
            did.push(match e {
                Effect::Log(t) => t,
                Effect::Popup(t) => format!("popup: {}", t),
                Effect::Help => "help".to_string(),
                Effect::StartClock => {
                    waiting = true;
                    "clock".to_string()
                }
                Effect::KillJob => "kill job".to_string(),
                Effect::KillChild => "kill child".to_string(),
            });
        }
        let (name, reply) = match step.phase.request(&plan) {
            Request::Exit(code) => return Ran { did, asked, code },
            Request::InstallCtrlc => ("ctrlc".to_string(), Reply::Outcome(m.ctrlc.clone())),
            Request::HttpGet(port, _) => {
                let up = if waiting {
                    https += 1;
                    https > m.up_after
                } else {
                    m.up_at_first
                };
                (format!("http {}", port), Reply::Bytes(if up { b"HTTP/1.1 200".to_vec() } else { vec![1] }))
            }
            Request::TcpOpen(port) => (format!("tcp {}", port), Reply::Flag(m.port_taken)),
            Request::ListProcesses => {
                let ps = m.browsers.iter().map(|pid| Process { pid: *pid, exe: wide("Chrome.exe") }).collect();
                ("list".to_string(), Reply::Processes(ps))
            }
            Request::OpenUrl(url) => (format!("open {}", url), Reply::Opened(m.opened)),
            Request::Probe(p) => match p {
                Probe::ExeDir => ("probe".to_string(), Reply::Answer(Answer::ExeDir(None))),
                Probe::File(path) => ("probe".to_string(), Reply::Answer(Answer::File(file_facts(&path, true)))),
                Probe::IsDir(_) => ("probe".to_string(), Reply::Answer(Answer::Flag(false))),
                Probe::Runs(c) => {
                    let npm = c.args.iter().any(|a| a == "npm --version");
                    ("probe".to_string(), Reply::Answer(Answer::Flag(if npm { m.npm } else { true })))
                }
                Probe::Output(_) => {
                    let found = if m.missing { None } else { Some(b"/p/dsh.cmd\r\n".to_vec()) };
                    ("probe".to_string(), Reply::Answer(Answer::Output(found)))
                }
            },
            Request::Spawn(c) => (format!("spawn {} {}", c.program, c.args.join(" ")), Reply::Outcome(m.spawn.clone())),
            Request::CreateJob => ("job".to_string(), Reply::Flag(m.job)),
            Request::AssignJob => ("assign".to_string(), Reply::Outcome(m.assign.clone())),
            Request::Interrupted => {
                flags += 1;
                ("interrupted?".to_string(), Reply::Flag(flags > m.interrupted_after))
            }
            Request::ChildStatus => {
                polls += 1;
                let status = match m.wait_ends.take() {
                    Some(s) => s,
                    None if polls > m.exited_after => ChildStatus::Exited("exit code: 1".to_string()),
                    None => ChildStatus::Running,
                };
                ("child?".to_string(), Reply::Child(status))
            }
            Request::Waited => {
                rounds += 1;
                ("waited?".to_string(), Reply::Nanos(rounds as u128 * m.round_secs as u128 * 1_000_000_000))
            }
            Request::Sleep(ms) => (format!("sleep {}", ms), Reply::Done),
            Request::TrayInit => ("tray".to_string(), Reply::Outcome(m.tray.clone())),
            Request::PumpMessages => ("pump".to_string(), Reply::Done),
            Request::TrayExit => {
                trays += 1;
                ("tray exit?".to_string(), Reply::Flag(trays > m.tray_exit_after))
            }
            Request::BrowserEnds(ms) => {
                ends += 1;
                (format!("browser {}", ms), Reply::Flag(ends > m.browser_ends_after))
            }
            Request::BrowserAge => ("age?".to_string(), Reply::Nanos(m.browser_age)),
            Request::ProcessAlive(pid) => (format!("alive {}?", pid), Reply::Flag(m.alive.contains(&pid))),
        };
        asked.push(name);
        step = run(&plan, step.phase, reply);
        assert!(asked.len() < 10_000);
    }
}

fn begin() -> Vec<String> {
    texts(&[
        "[INFO] DSH-Launcher v0.1.0",
        "[INFO] 目标地址: http://127.0.0.1:3080",
        "[INFO] 探测端口: 3080",
    ])
}

fn started() -> Vec<String> {
    let mut v = begin();
    v.extend(texts(&[
        "[INFO] 命中 PATH 中的 dsh: /p/dsh.cmd",
        "[INFO] 使用入口: cmd /C \"/p/dsh.cmd\" web",
        "[INFO] 已绑定 JobObject,启动器退出将自动清理 dsh 进程树",
        "clock",
    ]));
    v
}

fn with(mut v: Vec<String>, more: &[&str]) -> Vec<String> {
    v.extend(texts(more));
    v
}

#[test]
fn help_is_shown_and_nothing_done() {
    let r = play(&mut machine(), ConfigSource::Missing, &["--check", "-h"]);
    assert_eq!(r.did, texts(&["help"]));
    assert!(r.asked.is_empty());
    assert_eq!(r.code, 0);
}

#[test]
fn wrong_command_line_ends_the_run() {
    let r = play(&mut machine(), ConfigSource::Missing, &["--help", "--port", "x"]);
    assert_eq!(r.did, texts(&["[ERROR] 命令行参数错误: --port 非法数值: x", "popup: --port 非法数值: x"]));
    assert!(r.asked.is_empty());
    assert_eq!(r.code, 1);
}

#[test]
fn malformed_file_is_warned_of() {
    let r = play(&mut machine(), ConfigSource::Malformed("bad".to_string()), &["-h"]);
    assert_eq!(r.did, texts(&["[WARN] config.json 解析失败,使用默认配置: bad", "help"]));
}

#[test]
fn check_finds_an_entry() {
    let r = play(&mut machine(), ConfigSource::Missing, &["--check"]);
    assert_eq!(
        r.did,
        with(
            begin(),
            &[
                "[INFO] 命中 PATH 中的 dsh: /p/dsh.cmd",
                "[INFO] 使用入口: cmd /C \"/p/dsh.cmd\" ",
                "[INFO] dsh 命令解析成功,可直接启动",
            ]
        )
    );
    assert!(r.asked.iter().all(|a| a == "probe"));
    assert_eq!(r.code, 0);
}

#[test]
fn check_finds_none() {
    let mut m = machine();
    m.missing = true;
    let r = play(&mut m, ConfigSource::Missing, &["--check", "--package", "t"]);
    assert_eq!(r.did.len(), 4);
    assert!(r.did[3].starts_with("[ERROR] 未找到 t 命令"));
    assert_eq!(r.code, 5);
    let (logs, code) = cmd_check(&Err("x".to_string()));
    assert_eq!(logs, texts(&["[ERROR] x"]));
    assert_eq!(code, 5);
    let (logs, code) = cmd_check(&Ok(node_script("m.js")));
    assert_eq!(logs, texts(&["[INFO] 使用入口: node m.js", "[INFO] dsh 命令解析成功,可直接启动"]));
    assert_eq!(code, 0);
}

#[test]
fn running_service_is_only_opened() {
    let mut m = machine();
    m.up_at_first = true;
    let r = play(&mut m, ConfigSource::Missing, &[]);
    assert_eq!(
        r.did,
        with(begin(), &["[INFO] 服务已在运行,直接打开浏览器", "[INFO] 已在浏览器打开: http://127.0.0.1:3080"])
    );
    assert_eq!(r.asked, texts(&["ctrlc", "http 3080", "list", "open http://127.0.0.1:3080"]));
    assert_eq!(r.code, 0);
}

#[test]
fn run_without_an_entry_fails() {
    let mut m = machine();
    m.missing = true;
    m.port_taken = true;
    m.ctrlc = Err("busy".to_string());
    let r = play(&mut m, ConfigSource::Missing, &[]);
    assert_eq!(r.did[3], "[WARN] 注册 Ctrl+C 处理器失败: busy");
    assert_eq!(r.did[4], "[WARN] 端口 3080 已被占用但未响应 HTTP,启动 dsh 后需自行确认");
    assert!(r.did[5].starts_with("[ERROR] 未找到 dsh 命令"));
    assert!(r.did[6].starts_with("popup: 无法启动 dsh:\n\n未找到 dsh 命令"));
    assert_eq!(r.did.len(), 7);
    assert_eq!(r.code, 5);
}

#[test]
fn failed_start_ends_the_run() {
    let mut m = machine();
    m.spawn = Err("denied".to_string());
    let r = play(&mut m, ConfigSource::Missing, &[]);
    let n = r.did.len();
    assert_eq!(r.did[n - 2], "[ERROR] 启动 dsh 失败: denied");
    assert_eq!(r.did[n - 1], "popup: 启动 dsh 失败:\n\ndenied");
    assert_eq!(r.asked[r.asked.len() - 1], "spawn cmd.exe /C /p/dsh.cmd web");
    assert_eq!(r.code, 1);
}

#[test]
fn tray_ends_the_service() {
    let mut m = machine();
    m.tray_exit_after = 1;
    let r = play(&mut m, ConfigSource::Missing, &[]);
    assert_eq!(
        r.did,
        with(
            started(),
            &[
                "[INFO] 服务已就绪",
                "[INFO] 已在浏览器打开: http://127.0.0.1:3080",
                "[INFO] 关闭浏览器将自动关闭 DSH 服务;或通过托盘图标退出",
                "[INFO] 托盘:正在关闭 DSH 服务...",
                "kill job",
                "kill child",
            ]
        )
    );
    assert_eq!(
        r.asked,
        texts(&[
            "ctrlc", "http 3080", "tcp 3080", "probe", "probe", "probe", "probe",
            "spawn cmd.exe /C /p/dsh.cmd web", "job", "assign",
            "http 3080", "tcp 3080", "interrupted?", "child?", "waited?", "sleep 500", "http 3080",
            "list", "open http://127.0.0.1:3080", "tray",
            "pump", "tray exit?", "interrupted?", "child?", "browser 500", "sleep 200",
            "pump", "tray exit?",
        ])
    );
    assert_eq!(r.code, 0);
}

#[test]
fn interruption_ends_the_service() {
    let mut m = machine();
    m.interrupted_after = 2;
    m.tray = Err("no shell".to_string());
    let r = play(&mut m, ConfigSource::Missing, &[]);
    let n = r.did.len();
    assert_eq!(
        r.did[n - 4..],
        texts(&[
            "[WARN] 托盘图标创建失败(可通过任务管理器结束 dsh): no shell",
            "\n[INFO] 正在关闭 DSH 服务...",
            "kill job",
            "kill child",
        ])[..]
    );
    assert_eq!(r.code, 0);
    let mut m = machine();
    m.interrupted_after = 0;
    let r = play(&mut m, ConfigSource::Missing, &[]);
    assert_eq!(r.did, with(started(), &["\n[INFO] 正在关闭 DSH 服务...", "kill job", "kill child"]));
    assert_eq!(r.code, 0);
}

#[test]
fn service_that_ends_is_an_error() {
    let mut m = machine();
    m.exited_after = 3;
    let r = play(&mut m, ConfigSource::Missing, &[]);
    let n = r.did.len();
    assert_eq!(r.did[n - 2..], texts(&["[ERROR] dsh 进程意外退出: exit code: 1", "kill job"])[..]);
    assert_eq!(r.code, 4);
    let mut m = machine();
    m.wait_ends = Some(ChildStatus::Exited("exit code: 9".to_string()));
    let r = play(&mut m, ConfigSource::Missing, &[]);
    let said = "dsh 进程提前退出: exit code: 9\n\n若为参数/缺参错误,请检查 config.json 的 args 字段\n(DSH-Web 示例: [\"web\", \"--port\", \"8899\"])";
    let error = format!("[ERROR] {}", said);
    let popup = format!("popup: {}", said);
    assert_eq!(r.did, with(started(), &[&error, "kill job", &popup]));
    assert_eq!(r.code, 4);
}

#[test]
fn late_service_is_ended() {
    for (open, code) in [(true, 2), (false, 3)] {
        let mut m = machine();
        m.up_after = NEVER;
        m.port_taken = open;
        let r = play(&mut m, ConfigSource::Missing, &["--timeout", "2"]);
        let n = r.did.len();
        assert_eq!(
            r.did[n - 4..],
            texts(&[
                "[ERROR] 等待服务就绪超时(2s)\n\n详情见 dsh-launcher.log",
                "kill job",
                "kill child",
                "popup: 等待服务就绪超时(2s)\n\n详情见 dsh-launcher.log",
            ])[..]
        );
        assert_eq!(r.code, code);
    }
}

#[test]
fn every_entry_is_waited_for_as_long_as_is_set() {
    for (args, secs) in [(&["--timeout", "2"][..], 2), (&["--timeout", "90"][..], 90), (&[][..], 30)] {
        for missing in [true, false] {
            let mut m = machine();
            m.missing = missing;
            m.npm = true;
            m.up_after = NEVER;
            let r = play(&mut m, ConfigSource::Missing, args);
            let n = r.did.len();
            assert_eq!(r.did[n - 1], format!("popup: 等待服务就绪超时({}s)\n\n详情见 dsh-launcher.log", secs));
            assert_eq!(r.asked.iter().filter(|a| *a == "waited?").count(), secs);
            assert_eq!(r.asked.contains(&"spawn cmd.exe /C npx --yes dsh web".to_string()), missing);
        }
    }
}

#[test]
fn service_without_a_job_is_still_ended() {
    let mut m = machine();
    m.job = false;
    m.tray_exit_after = 0;
    let r = play(&mut m, ConfigSource::Missing, &[]);
    assert_eq!(r.did[5], "[WARN] JobObject 创建失败(进程退出时可能残留)");
    assert_eq!(r.did[r.did.len() - 1], "kill child");
    let mut m = machine();
    m.assign = Err("code 5".to_string());
    m.tray_exit_after = 0;
    let r = play(&mut m, ConfigSource::Missing, &[]);
    assert_eq!(r.did[5], "[WARN] JobObject 绑定失败(进程退出时可能残留): code 5");
    assert_eq!(r.did[r.did.len() - 1], "kill child");
}

#[test]
fn closed_browser_ends_the_service() {
    let mut m = machine();
    m.browser_ends_after = 2;
    let r = play(&mut m, ConfigSource::Missing, &[]);
    let n = r.did.len();
    assert_eq!(
        r.did[n - 3..],
        texts(&["[INFO] 浏览器已关闭,正在关闭 DSH 服务...", "kill job", "kill child"])[..]
    );
    assert_eq!(r.asked[r.asked.len() - 1], "age?");
    assert_eq!(r.code, 0);
}

#[test]
fn short_lived_browser_is_a_go_between_where_another_is_there() {
    let mut m = machine();
    m.browsers = vec![11, 12, 13];
    m.alive = vec![12];
    m.browser_ends_after = 0;
    m.browser_age = 2_999_999_999;
    m.tray_exit_after = 2;
    let r = play(&mut m, ConfigSource::Missing, &[]);
    assert!(r.did.contains(&"[WARN] 浏览器已存在实例(新进程为握手代理),改为常驻模式;通过托盘图标退出 DSH 服务".to_string()));
    let asked: Vec<&String> = r.asked.iter().filter(|a| a.starts_with("alive") || a.starts_with("browser")).collect();
    assert_eq!(asked, ["browser 500", "alive 11?", "alive 12?"]);
    assert_eq!(r.did[r.did.len() - 3], "[INFO] 托盘:正在关闭 DSH 服务...");
    m.browser_age = 3_000_000_000;
    let r = play(&mut m, ConfigSource::Missing, &[]);
    assert_eq!(r.did[r.did.len() - 3], "[INFO] 浏览器已关闭,正在关闭 DSH 服务...");
    m.browser_age = 0;
    m.alive = vec![99];
    let r = play(&mut m, ConfigSource::Missing, &[]);
    assert_eq!(r.asked[r.asked.len() - 1], "alive 13?");
    assert_eq!(r.did[r.did.len() - 3], "[INFO] 浏览器已关闭,正在关闭 DSH 服务...");
}

#[test]
fn shared_browser_is_not_watched() {
    let mut m = machine();
    m.browsers = vec![77];
    m.browser_ends_after = 0;
    m.tray_exit_after = 3;
    let r = play(&mut m, ConfigSource::Missing, &[]);
    assert!(r.did.contains(&"[INFO] 浏览器已在前台运行(共享实例),通过托盘图标退出 DSH 服务".to_string()));
    assert!(!r.asked.contains(&"browser 500".to_string()));
    assert_eq!(r.code, 0);
}

#[test]
fn configuration_reaches_the_run() {
    let mut c = Config::default();
    c.url = Some("http://127.0.0.1:9000".to_string());
    c.args = texts(&["web", "--port", "9000"]);
    let mut m = machine();
    m.tray_exit_after = 0;
    let r = play(&mut m, ConfigSource::Parsed(c), &["--port", "9001"]);
    assert!(r.asked.contains(&"spawn cmd.exe /C /p/dsh.cmd web --port 9000".to_string()));
    assert!(r.asked.contains(&"http 9001".to_string()));
    assert!(r.asked.contains(&"open http://127.0.0.1:9000".to_string()));
}

#[test]
fn end_of_a_run_stays() {
    let (plan, _) = launch(ConfigSource::Missing, &vec![]);
    let s = run(&plan, Phase::Finished(3), Reply::Done);
    assert!(s.effects.is_empty());
    assert!(matches!(s.phase, Phase::Finished(3)));
    let s = any_pre_alive(Watch { watching: true, before: vec![5] }, 0);
    assert!(matches!(s.phase, Phase::BrowserAlive(_, 0)));
    let s = any_pre_alive(Watch { watching: true, before: vec![5] }, 1);
    assert_eq!(s.effects.len(), 3);
    assert!(matches!(s.phase, Phase::Finished(0)));
}
