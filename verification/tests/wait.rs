use dsh_launcher::protocol::{ChildStatus, Reply, Request};
use dsh_launcher::wait::{wait_ready, wait_start, ProbeOutcome, WaitNext, WaitPhase, WaitState};

/// A wait in which every round takes some milliseconds, and the service comes up in none.
struct Scene {
    round_ms: u64,
    timeout_secs: u64,
    up_in: Option<usize>,
    open_in: Option<usize>,
    interrupted_in: Option<usize>,
    exited_in: Option<usize>,
    unknown_in: Option<usize>,
}

struct Waited {
    logs: Vec<String>,
    sleeps: Vec<u64>,
    end: ProbeOutcome,
}

fn scene(round_ms: u64, timeout_secs: u64) -> Scene {
    Scene {
        round_ms,
        timeout_secs,
        up_in: None,
        open_in: None,
        interrupted_in: None,
        exited_in: None,
        unknown_in: None,
    }
}

fn play(s: &Scene) -> Waited {
    let mut logs: Vec<String> = vec![];
    let mut sleeps: Vec<u64> = vec![];
    let mut round = 0;
    let mut state = wait_start();
    loop {
        let reply = match state.request(3080) {
            Request::HttpGet(port, text) => {
                assert_eq!(port, 3080);
                assert!(text.starts_with("GET / HTTP/1.1\r\nHost: 127.0.0.1:3080\r\n"));
                Reply::Bytes(if s.up_in == Some(round) { b"HTTP/1.0 500".to_vec() } else { vec![] })
            }
            Request::TcpOpen(port) => {
                assert_eq!(port, 3080);
                Reply::Flag(s.open_in == Some(round))
            }
            Request::Interrupted => Reply::Flag(s.interrupted_in == Some(round)),
            Request::ChildStatus => Reply::Child(if s.exited_in == Some(round) {
                ChildStatus::Exited("exit code: 7".to_string())
            } else if s.unknown_in == Some(round) {
                ChildStatus::Unknown("denied".to_string())
            } else {
                ChildStatus::Running
            }),
            Request::Waited => Reply::Nanos(s.round_ms as u128 * round as u128 * 1_000_000),
            Request::Sleep(ms) => {
                sleeps.push(ms);
                round += 1;
                Reply::Done
            }
            _ => panic!("another request"),
        };
        let step = wait_ready(state, reply, s.timeout_secs);
        logs.extend(step.logs);
        match step.next {
            WaitNext::Go(next) => state = next,
            WaitNext::Over(end) => return Waited { logs, sleeps, end },
        }
    }
}

#[test]
fn service_comes_up() {
    let mut s = scene(500, 30);
    s.up_in = Some(6);
    s.interrupted_in = Some(6);
    let w = play(&s);
    assert!(matches!(w.end, ProbeOutcome::Ready));
    assert_eq!(w.sleeps, vec![500, 500, 500, 500, 500, 1000]);
    assert!(w.logs.is_empty());
}

#[test]
fn wait_runs_out_of_time() {
    let w = play(&scene(2000, 12));
    assert!(matches!(w.end, ProbeOutcome::Timeout { ever_tcp: false }));
    assert_eq!(w.sleeps.len(), 6);
    assert_eq!(w.logs, vec!["[INFO] 等待服务就绪... (6/12)"]);
}

#[test]
fn reports_come_five_seconds_apart() {
    let w = play(&scene(2500, 20));
    assert_eq!(
        w.logs,
        vec![
            "[INFO] 等待服务就绪... (5/20)",
            "[INFO] 等待服务就绪... (10/20)",
            "[INFO] 等待服务就绪... (15/20)",
        ]
    );
}

#[test]
fn open_port_is_remembered() {
    let mut s = scene(1000, 3);
    s.open_in = Some(0);
    let w = play(&s);
    assert!(matches!(w.end, ProbeOutcome::Timeout { ever_tcp: true }));
    assert_eq!(w.sleeps, vec![500, 500, 500]);
}

#[test]
fn no_time_at_all_is_one_round() {
    let mut s = scene(1000, 0);
    s.open_in = Some(0);
    let w = play(&s);
    assert!(matches!(w.end, ProbeOutcome::Timeout { ever_tcp: true }));
    assert!(w.sleeps.is_empty());
}

#[test]
fn service_ends_early() {
    let mut s = scene(500, 30);
    s.exited_in = Some(2);
    s.unknown_in = Some(1);
    let w = play(&s);
    match w.end {
        ProbeOutcome::ChildExited(how) => assert_eq!(how, "exit code: 7"),
        _ => panic!("another end"),
    }
    assert_eq!(w.logs, vec!["[WARN] 读取 dsh 进程状态失败: denied"]);
}

#[test]
fn interruption_precedes_the_end_of_the_service() {
    let mut s = scene(500, 30);
    s.exited_in = Some(1);
    s.interrupted_in = Some(1);
    assert!(matches!(play(&s).end, ProbeOutcome::Interrupted));
}

#[test]
fn count_of_rounds_stays_in_range() {
    let s = WaitState { phase: WaitPhase::Clock, tries: u32::MAX, last_report: 9, ever_tcp: false };
    let step = wait_ready(s, Reply::Nanos(3), 1);
    match step.next {
        WaitNext::Go(next) => {
            assert_eq!(next.tries, u32::MAX);
            assert_eq!(next.last_report, 9);
            assert!(matches!(next.phase, WaitPhase::Sleep(1000)));
        }
        WaitNext::Over(_) => panic!("the wait is over"),
    }
}

#[test]
fn reply_to_another_request_changes_nothing_in_the_wait() {
    let step = wait_ready(wait_start(), Reply::Nanos(u128::MAX), 0);
    assert!(step.logs.is_empty());
    match step.next {
        WaitNext::Go(next) => assert!(matches!(next.phase, WaitPhase::Http)),
        WaitNext::Over(_) => panic!("the wait is over"),
    }
}
