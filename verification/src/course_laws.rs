//! The course of a run: what each reply leads to.
use vstd::prelude::*;

use crate::browser::{browser_ids, ProcessView};
use crate::config::{command_line, ConfigView};
use crate::config_laws::{command_line_prevails, last_value, settings_have_an_order_of_precedence};
use crate::entry::EntryView;
use crate::entry_laws::{every_argument_is_handed_over, message_names_program_and_arguments};
use crate::net::{port_of, request_text};
use crate::protocol::{log_all, ChildView, EffectView, ReplyView, RequestView};
use crate::resolve::{resolve_next, AnswerView, NextView, ProbeView, StageView};
use crate::run::{run_first, run_next, PhaseView, PlanView, StepView, WatchView};
use crate::text::{decimal, joined, number, words};
use crate::wait::{wait_first, WaitState};
use crate::wait_laws::{holds_http, http_is_known_by_its_name, with_http};

verus! {

// ---------------------------------------------------------------------------
// The start
// ---------------------------------------------------------------------------

/// A run goes by what it is told: by the path and the arguments that the command line gives last,
/// else by those of the configuration; and so for its address, its port, its time and its package.
pub proof fn run_goes_by_what_it_is_told(cfg: ConfigView, args: Seq<Seq<char>>)
    requires
        command_line(cfg, args, false).1 is Ok,
    ensures
        ({
            let plan = run_first(cfg, args).0;
            &&& plan.dsh_path == command_line(cfg, args, false).0.dsh_path
            &&& plan.args == command_line(cfg, args, false).0.args
            &&& plan.dsh_path == (match last_value(args, "--dsh-path"@) {
                Some(v) => Some(v),
                None => cfg.dsh_path,
            })
            &&& plan.args == (match last_value(args, "--args"@) {
                Some(v) => words(v),
                None => cfg.args,
            })
            &&& plan.settings.url == (match (last_value(args, "--url"@), cfg.url) {
                (Some(v), _) => v,
                (None, Some(v)) => v,
                (None, None) => "http://127.0.0.1:3080"@,
            })
            &&& plan.settings.package == (match (last_value(args, "--package"@), cfg.package) {
                (Some(v), _) => v,
                (None, Some(v)) => v,
                (None, None) => "dsh"@,
            })
            &&& plan.settings.port == (match (last_value(args, "--port"@), cfg.port) {
                (Some(v), _) => number(v, 65535)->Some_0 as u16,
                (None, Some(n)) => n,
                (None, None) => port_of(plan.settings.url),
            })
            &&& plan.settings.timeout_secs == (match (
                last_value(args, "--timeout"@),
                cfg.timeout_secs,
            ) {
                (Some(v), _) => number(v, 18446744073709551615)->Some_0 as u64,
                (None, Some(n)) => n,
                (None, None) => 30,
            })
        }),
{
    command_line_prevails(cfg, args);
    settings_have_an_order_of_precedence(cfg, args);
}

/// The last value of a flag is found wherever it stands among other flags: behind flags and values
/// that give it none, with a line behind it that does not give it again.
pub proof fn last_value_is_found(
    args: Seq<Seq<char>>,
    flag: Seq<char>,
    v: Seq<char>,
    rest: Seq<Seq<char>>,
)
    requires
        flag == "--url"@ || flag == "--port"@ || flag == "--timeout"@ || flag == "--package"@ || flag
            == "--args"@ || flag == "--dsh-path"@,
        last_value(rest, flag) is None,
        crate::config_laws::read_len(args) == args.len(),
    ensures
        last_value(args + (seq![flag, v] + rest), flag) == Some(v),
        last_value(Seq::<Seq<char>>::empty(), flag) is None,
    decreases args.len(),
{
    let tail = seq![flag, v] + rest;
    let all = args + tail;
    crate::config_laws::lemma_flags_differ();
    if args.len() == 0 {
        assert(all == tail);
        assert(tail[0] == flag && tail[1] == v);
        assert(tail.skip(2) == rest);
    } else if crate::config::takes_value(args[0]) {
        assert(all[0] == args[0] && all[1] == args[1]);
        assert(all.skip(2) == args.skip(2) + tail);
        last_value_is_found(args.skip(2), flag, v, rest);
    } else {
        assert(all[0] == args[0]);
        assert(all.skip(1) == args.skip(1) + tail);
        last_value_is_found(args.skip(1), flag, v, rest);
    }
}

/// A run or a check with a path asks for the file at that path before anything else is searched, and
/// one without asks for the launcher's own directory. A check begins with that at once.
pub proof fn check_asks_for_the_path_first(cfg: ConfigView, args: Seq<Seq<char>>)
    requires
        command_line(cfg, args, false).1 == Ok::<bool, Seq<char>>(false),
        args.contains("--check"@),
    ensures
        ({
            let (plan, step) = run_first(cfg, args);
            step.phase.asked(plan) == RequestView::Probe(
                match plan.dsh_path {
                    Some(p) => ProbeView::File(p),
                    None => ProbeView::ExeDir,
                },
            )
        }),
{
}

/// A run says who it is, which address it is for and which port it looks at, and then has
/// interruptions noted.
pub proof fn run_begins_with_its_settings(cfg: ConfigView, args: Seq<Seq<char>>)
    requires
        command_line(cfg, args, false).1 == Ok::<bool, Seq<char>>(false),
        !args.contains("--check"@),
    ensures
        ({
            let (plan, step) = run_first(cfg, args);
            &&& step.effects == seq![
                EffectView::Log("[INFO] DSH-Launcher v0.1.0"@),
                EffectView::Log("[INFO] 目标地址: "@ + plan.settings.url),
                EffectView::Log("[INFO] 探测端口: "@ + decimal(plan.settings.port as nat)),
            ]
            &&& step.phase.asked(plan) is InstallCtrlc
        }),
{
    let (plan, step) = run_first(cfg, args);
    assert(step.effects =~= seq![
        EffectView::Log("[INFO] DSH-Launcher v0.1.0"@),
        EffectView::Log("[INFO] 目标地址: "@ + plan.settings.url),
        EffectView::Log("[INFO] 探测端口: "@ + decimal(plan.settings.port as nat)),
    ]);
}

/// Whether interruptions are noted or not, the run goes on to ask whether the service is up, at the
/// port that is set.
pub proof fn service_is_looked_for_first(plan: PlanView, e: Seq<char>)
    ensures
        ({
            let noted = run_next(plan, PhaseView::Ctrlc, ReplyView::Outcome(Ok(())));
            let failed = run_next(plan, PhaseView::Ctrlc, ReplyView::Outcome(Err(e)));
            let port = plan.settings.port;
            &&& noted.effects.len() == 0
            &&& failed.effects == seq![EffectView::Log("[WARN] 注册 Ctrl+C 处理器失败: "@ + e)]
            &&& noted.phase is FirstHttp && failed.phase is FirstHttp
            &&& noted.phase.asked(plan) == RequestView::HttpGet(port, request_text(port))
        }),
{
}

/// A service that is up is only opened, whatever its reply holds around `HTTP/`: the run goes on to
/// the browsers, and starts nothing. With any other reply the run goes on to the port.
pub proof fn service_that_is_up_is_only_opened(
    plan: PlanView,
    before: Seq<u8>,
    after: Seq<u8>,
    other: Seq<u8>,
)
    requires
        !holds_http(other),
    ensures
        run_next(plan, PhaseView::FirstHttp, ReplyView::Bytes(with_http(before, after))) == (StepView {
            effects: seq![EffectView::Log("[INFO] 服务已在运行,直接打开浏览器"@)],
            phase: PhaseView::Listing(true),
        }),
        run_next(plan, PhaseView::FirstHttp, ReplyView::Bytes(other)) == (StepView {
            effects: Seq::empty(),
            phase: PhaseView::FirstTcp,
        }),
        PhaseView::FirstTcp.asked(plan) == RequestView::TcpOpen(plan.settings.port),
{
    http_is_known_by_its_name(with_http(before, after));
    http_is_known_by_its_name(other);
    assert(run_next(plan, PhaseView::FirstHttp, ReplyView::Bytes(with_http(before, after))).effects
        =~= seq![EffectView::Log("[INFO] 服务已在运行,直接打开浏览器"@)]);
}

/// Whether the port is taken or not, the search for an entry begins, with the file at the path where
/// there is one; a port that is taken is warned of.
pub proof fn search_begins_with_the_path(plan: PlanView, open: bool)
    ensures
        ({
            let step = run_next(plan, PhaseView::FirstTcp, ReplyView::Flag(open));
            &&& step.phase.asked(plan) == RequestView::Probe(
                match plan.dsh_path {
                    Some(p) => ProbeView::File(p),
                    None => ProbeView::ExeDir,
                },
            )
            &&& step.phase is Resolving
            &&& step.effects == (if open {
                seq![
                    EffectView::Log(
                        "[WARN] 端口 "@ + decimal(plan.settings.port as nat)
                            + " 已被占用但未响应 HTTP,启动 dsh 后需自行确认"@,
                    ),
                ]
            } else {
                Seq::<EffectView>::empty()
            })
        }),
{
    let step = run_next(plan, PhaseView::FirstTcp, ReplyView::Flag(open));
    if open {
        assert(step.effects =~= seq![
            EffectView::Log(
                "[WARN] 端口 "@ + decimal(plan.settings.port as nat)
                    + " 已被占用但未响应 HTTP,启动 dsh 后需自行确认"@,
            ),
        ]);
    } else {
        assert(step.effects =~= Seq::<EffectView>::empty());
    }
}

// ---------------------------------------------------------------------------
// The service
// ---------------------------------------------------------------------------

/// What the search finds is started with all of its own arguments and then all of those that are
/// set, in order and none left out: as they are where it is a program, and behind `/C` and its path
/// where the command interpreter starts it. It is logged with all of them.
pub proof fn found_entry_is_started_with_all_arguments(
    plan: PlanView,
    stage: StageView,
    answer: AnswerView,
    e: EntryView,
)
    requires
        resolve_next(plan.settings.package, stage, answer).next == NextView::Done(
            Ok::<EntryView, Seq<char>>(e),
        ),
    ensures
        ({
            let step = run_next(plan, PhaseView::Resolving(stage), ReplyView::Answer(answer));
            &&& step.phase is Spawning
            &&& step.phase.asked(plan) matches RequestView::Spawn(c) && {
                if e.via_cmd {
                    c.program == "cmd.exe"@ && c.args == seq!["/C"@, e.program] + (e.args + plan.args)
                } else {
                    c.program == e.program && c.args == e.args + plan.args
                }
            }
            &&& step.effects.len() > 0
            &&& step.effects.last() == EffectView::Log(
                "[INFO] 使用入口: "@ + (if e.via_cmd {
                    "cmd /C \""@ + e.program + "\""@
                } else {
                    e.program
                }) + " "@ + joined(e.args + plan.args, " "@),
            )
        }),
{
    let full = EntryView { args: e.args + plan.args, ..e };
    let step = run_next(plan, PhaseView::Resolving(stage), ReplyView::Answer(answer));
    every_argument_is_handed_over(full);
    message_names_program_and_arguments(full);
    if e.via_cmd {
        let c = step.phase->Spawning_0;
        assert(c.args =~= seq!["/C"@, e.program] + c.args.skip(2));
    }
}

/// Where the search finds nothing the run ends with the code 5, and shows why.
pub proof fn run_without_an_entry_ends(
    plan: PlanView,
    stage: StageView,
    answer: AnswerView,
    m: Seq<char>,
)
    requires
        resolve_next(plan.settings.package, stage, answer) == (crate::resolve::ProgressView {
            logs: Seq::empty(),
            next: NextView::Done(Err::<EntryView, Seq<char>>(m)),
        }),
    ensures
        run_next(plan, PhaseView::Resolving(stage), ReplyView::Answer(answer)) == (StepView {
            effects: seq![
                EffectView::Log("[ERROR] "@ + m),
                EffectView::Popup("无法启动 dsh:\n\n"@ + m),
            ],
            phase: PhaseView::Finished(5),
        }),
        run_next(plan, PhaseView::Checking(stage), ReplyView::Answer(answer)) == (StepView {
            effects: seq![EffectView::Log("[ERROR] "@ + m)],
            phase: PhaseView::Finished(5),
        }),
{
    assert(log_all(Seq::empty()) =~= Seq::<EffectView>::empty());
    assert(run_next(plan, PhaseView::Resolving(stage), ReplyView::Answer(answer)).effects =~= seq![
        EffectView::Log("[ERROR] "@ + m),
        EffectView::Popup("无法启动 dsh:\n\n"@ + m),
    ]);
    assert(run_next(plan, PhaseView::Checking(stage), ReplyView::Answer(answer)).effects =~= seq![
        EffectView::Log("[ERROR] "@ + m),
    ]);
}

/// A check that finds an entry logs it, after what the search says, and that it can be started, and
/// ends with the code 0.
pub proof fn check_that_finds_an_entry_says_so(
    plan: PlanView,
    stage: StageView,
    answer: AnswerView,
    e: EntryView,
)
    requires
        resolve_next(plan.settings.package, stage, answer).next == NextView::Done(
            Ok::<EntryView, Seq<char>>(e),
        ),
    ensures
        ({
            let said = resolve_next(plan.settings.package, stage, answer).logs;
            let step = run_next(plan, PhaseView::Checking(stage), ReplyView::Answer(answer));
            &&& step.phase == PhaseView::Finished(0)
            &&& step.effects == log_all(said) + seq![
                EffectView::Log(
                    "[INFO] 使用入口: "@ + (if e.via_cmd {
                        "cmd /C \""@ + e.program + "\""@
                    } else {
                        e.program
                    }) + " "@ + joined(e.args, " "@),
                ),
                EffectView::Log("[INFO] dsh 命令解析成功,可直接启动"@),
            ]
        }),
{
    message_names_program_and_arguments(e);
    let said = resolve_next(plan.settings.package, stage, answer).logs;
    let step = run_next(plan, PhaseView::Checking(stage), ReplyView::Answer(answer));
    assert(step.effects =~= log_all(said) + seq![
        EffectView::Log(crate::entry::entry_message(e)),
        EffectView::Log("[INFO] dsh 命令解析成功,可直接启动"@),
    ]);
}

/// While the search goes on the run goes on with it, in the stage that the search has come to, and
/// logs all that the search says.
pub proof fn run_goes_on_with_the_search(
    plan: PlanView,
    stage: StageView,
    answer: AnswerView,
    next: StageView,
)
    requires
        resolve_next(plan.settings.package, stage, answer).next == NextView::Ask(next),
    ensures
        ({
            let said = resolve_next(plan.settings.package, stage, answer).logs;
            let step = run_next(plan, PhaseView::Resolving(stage), ReplyView::Answer(answer));
            let check = run_next(plan, PhaseView::Checking(stage), ReplyView::Answer(answer));
            &&& step.phase == PhaseView::Resolving(next)
            &&& check.phase == PhaseView::Checking(next)
            &&& step.phase.asked(plan) == RequestView::Probe(next.asked(plan.settings.package))
            &&& check.phase.asked(plan) == RequestView::Probe(next.asked(plan.settings.package))
            &&& step.effects.len() == said.len() && check.effects.len() == said.len()
            &&& forall|i: int|
                0 <= i < said.len() ==> step.effects[i] == EffectView::Log(#[trigger] said[i])
                    && check.effects[i] == EffectView::Log(said[i])
        }),
{
}

/// A service that starts is put into a job, and waited for whether that works or not, for as long as
/// is set and from its start; one that does not start ends the run with the code 1, and it is shown
/// why.
pub proof fn started_service_is_waited_for(
    plan: PlanView,
    c: crate::entry::CommandView,
    e: Seq<char>,
)
    ensures
        run_next(plan, PhaseView::Spawning(c), ReplyView::Outcome(Ok(()))) == (StepView {
            effects: Seq::empty(),
            phase: PhaseView::CreatingJob,
        }),
        run_next(plan, PhaseView::Spawning(c), ReplyView::Outcome(Err(e))) == (StepView {
            effects: seq![
                EffectView::Log("[ERROR] 启动 dsh 失败: "@ + e),
                EffectView::Popup("启动 dsh 失败:\n\n"@ + e),
            ],
            phase: PhaseView::Finished(1),
        }),
        PhaseView::CreatingJob.asked(plan) is CreateJob,
        run_next(plan, PhaseView::CreatingJob, ReplyView::Flag(true)) == (StepView {
            effects: Seq::empty(),
            phase: PhaseView::AssigningJob,
        }),
        PhaseView::AssigningJob.asked(plan) is AssignJob,
        ({
            let wait = PhaseView::Waiting(wait_first(), plan.settings.timeout_secs);
            let unmade = run_next(plan, PhaseView::CreatingJob, ReplyView::Flag(false));
            let bound = run_next(plan, PhaseView::AssigningJob, ReplyView::Outcome(Ok(())));
            let unbound = run_next(plan, PhaseView::AssigningJob, ReplyView::Outcome(Err(e)));
            &&& unmade.phase == wait && bound.phase == wait && unbound.phase == wait
            &&& unmade.effects == seq![
                EffectView::Log("[WARN] JobObject 创建失败(进程退出时可能残留)"@),
                EffectView::StartClock,
            ]
            &&& bound.effects == seq![
                EffectView::Log("[INFO] 已绑定 JobObject,启动器退出将自动清理 dsh 进程树"@),
                EffectView::StartClock,
            ]
            &&& unbound.effects == seq![
                EffectView::Log("[WARN] JobObject 绑定失败(进程退出时可能残留): "@ + e),
                EffectView::StartClock,
            ]
        }),
        wait_first() == (WaitState {
            phase: crate::wait::WaitPhase::Http,
            tries: 0,
            last_report: 0,
            ever_tcp: false,
        }),
{
    let unmade = run_next(plan, PhaseView::CreatingJob, ReplyView::Flag(false));
    let bound = run_next(plan, PhaseView::AssigningJob, ReplyView::Outcome(Ok(())));
    let unbound = run_next(plan, PhaseView::AssigningJob, ReplyView::Outcome(Err(e)));
    assert(unmade.effects =~= seq![
        EffectView::Log("[WARN] JobObject 创建失败(进程退出时可能残留)"@),
        EffectView::StartClock,
    ]);
    assert(bound.effects =~= seq![
        EffectView::Log("[INFO] 已绑定 JobObject,启动器退出将自动清理 dsh 进程树"@),
        EffectView::StartClock,
    ]);
    assert(unbound.effects =~= seq![
        EffectView::Log("[WARN] JobObject 绑定失败(进程退出时可能残留): "@ + e),
        EffectView::StartClock,
    ]);
    assert(run_next(plan, PhaseView::Spawning(c), ReplyView::Outcome(Err(e))).effects =~= seq![
        EffectView::Log("[ERROR] 启动 dsh 失败: "@ + e),
        EffectView::Popup("启动 dsh 失败:\n\n"@ + e),
    ]);
}

/// A service that answers with `HTTP/` anywhere in its reply, however long that is, is up: the run
/// goes on to open its address.
pub proof fn service_that_answers_is_up(
    plan: PlanView,
    w: WaitState,
    secs: u64,
    before: Seq<u8>,
    after: Seq<u8>,
)
    requires
        w.phase is Http,
    ensures
        run_next(
            plan,
            PhaseView::Waiting(w, secs),
            ReplyView::Bytes(with_http(before, after)),
        ) == (StepView {
            effects: seq![EffectView::Log("[INFO] 服务已就绪"@)],
            phase: PhaseView::Listing(false),
        }),
        PhaseView::Waiting(w, secs).asked(plan) == RequestView::HttpGet(
            plan.settings.port,
            request_text(plan.settings.port),
        ),
{
    http_is_known_by_its_name(with_http(before, after));
    let step = run_next(
        plan,
        PhaseView::Waiting(w, secs),
        ReplyView::Bytes(with_http(before, after)),
    );
    assert(step.effects =~= seq![EffectView::Log("[INFO] 服务已就绪"@)]);
}

/// A wait that runs out of time ends the job, the service and the run, and shows how long was
/// waited; the code is 2 where the port was ever open, and 3 where it never was. Before that time the
/// run waits on.
pub proof fn late_service_is_ended(plan: PlanView, w: WaitState, secs: u64, elapsed: u128)
    requires
        w.phase is Clock,
    ensures
        ({
            let step = run_next(plan, PhaseView::Waiting(w, secs), ReplyView::Nanos(elapsed));
            let m = "等待服务就绪超时("@ + decimal(secs as nat) + "s)\n\n详情见 dsh-launcher.log"@;
            if elapsed >= secs * 1_000_000_000 {
                step == (StepView {
                    effects: seq![
                        EffectView::Log("[ERROR] "@ + m),
                        EffectView::KillJob,
                        EffectView::KillChild,
                        EffectView::Popup(m),
                    ],
                    phase: PhaseView::Finished(
                        if w.ever_tcp {
                            2
                        } else {
                            3
                        },
                    ),
                })
            } else {
                step.phase matches PhaseView::Waiting(t, s) && s == secs && t.phase is Sleep
            }
        }),
{
    let step = run_next(plan, PhaseView::Waiting(w, secs), ReplyView::Nanos(elapsed));
    let m = "等待服务就绪超时("@ + decimal(secs as nat) + "s)\n\n详情见 dsh-launcher.log"@;
    if elapsed >= secs * 1_000_000_000 {
        assert(step.effects =~= seq![
            EffectView::Log("[ERROR] "@ + m),
            EffectView::KillJob,
            EffectView::KillChild,
            EffectView::Popup(m),
        ]);
    }
}

/// A service that ends before it is up ends the run with the code 4, and how it ended is shown; an
/// interruption ends the job, the service and the run, with the code 0.
pub proof fn wait_that_is_cut_short_ends_the_run(
    plan: PlanView,
    w: WaitState,
    secs: u64,
    how: Seq<char>,
)
    ensures
        ({
            let m = "dsh 进程提前退出: "@ + how
                + "\n\n若为参数/缺参错误,请检查 config.json 的 args 字段\n(DSH-Web 示例: [\"web\", \"--port\", \"8899\"])"@;
            w.phase is Child ==> run_next(
                plan,
                PhaseView::Waiting(w, secs),
                ReplyView::Child(ChildView::Exited(how)),
            ) == (StepView {
                effects: seq![
                    EffectView::Log("[ERROR] "@ + m),
                    EffectView::KillJob,
                    EffectView::Popup(m),
                ],
                phase: PhaseView::Finished(4),
            })
        }),
        w.phase is Interrupt ==> run_next(
            plan,
            PhaseView::Waiting(w, secs),
            ReplyView::Flag(true),
        ) == (StepView {
            effects: seq![
                EffectView::Log("\n[INFO] 正在关闭 DSH 服务..."@),
                EffectView::KillJob,
                EffectView::KillChild,
            ],
            phase: PhaseView::Finished(0),
        }),
{
    let m = "dsh 进程提前退出: "@ + how
        + "\n\n若为参数/缺参错误,请检查 config.json 的 args 字段\n(DSH-Web 示例: [\"web\", \"--port\", \"8899\"])"@;
    if w.phase is Child {
        let step = run_next(
            plan,
            PhaseView::Waiting(w, secs),
            ReplyView::Child(ChildView::Exited(how)),
        );
        assert(step.effects =~= seq![
            EffectView::Log("[ERROR] "@ + m),
            EffectView::KillJob,
            EffectView::Popup(m),
        ]);
    }
    if w.phase is Interrupt {
        let step = run_next(plan, PhaseView::Waiting(w, secs), ReplyView::Flag(true));
        assert(step.effects =~= seq![
            EffectView::Log("\n[INFO] 正在关闭 DSH 服务..."@),
            EffectView::KillJob,
            EffectView::KillChild,
        ]);
    }
}

/// As long as the wait goes on the run goes on with it, for the same time.
pub proof fn run_goes_on_with_the_wait(
    plan: PlanView,
    w: WaitState,
    secs: u64,
    reply: ReplyView,
    next: WaitState,
)
    requires
        crate::wait::wait_next(w, reply, secs).next == crate::wait::WaitNextView::Go(next),
    ensures
        ({
            let said = crate::wait::wait_next(w, reply, secs).logs;
            let step = run_next(plan, PhaseView::Waiting(w, secs), reply);
            &&& step.phase == PhaseView::Waiting(next, secs)
            &&& step.phase.asked(plan) == next.asked(plan.settings.port)
            &&& step.effects.len() == said.len()
            &&& forall|i: int|
                0 <= i < said.len() ==> step.effects[i] == EffectView::Log(#[trigger] said[i])
        }),
{
}

// ---------------------------------------------------------------------------
// The browser
// ---------------------------------------------------------------------------

/// The browsers that are there are kept in mind, and then the address that is set is opened.
pub proof fn address_that_is_set_is_opened(plan: PlanView, leave: bool, ps: Seq<ProcessView>)
    ensures
        PhaseView::Listing(leave).asked(plan) is ListProcesses,
        run_next(plan, PhaseView::Listing(leave), ReplyView::Processes(ps)) == (StepView {
            effects: Seq::empty(),
            phase: PhaseView::Opening(browser_ids(ps), leave),
        }),
        PhaseView::Opening(browser_ids(ps), leave).asked(plan) == RequestView::OpenUrl(
            plan.settings.url,
        ),
{
}

/// A browser that was opened for a service of the run is watched exactly where its process is known
/// and was not there before, however many browsers there were: it is not watched where it was there,
/// where its process is not known (zero), or where none was opened. Whom the run watches it tells.
pub proof fn new_browser_is_watched(
    plan: PlanView,
    before: Seq<u32>,
    pid: u32,
)
    ensures
        ({
            let opened = run_next(
                plan,
                PhaseView::Opening(before, false),
                ReplyView::Opened(Some(pid)),
            );
            let new = pid != 0 && forall|i: int| 0 <= i < before.len() ==> before[i] != pid;
            &&& opened.phase == PhaseView::TrayStarting(WatchView { watching: new, before })
            &&& opened.effects == seq![
                EffectView::Log("[INFO] 已在浏览器打开: "@ + plan.settings.url),
                EffectView::Log(
                    if new {
                        "[INFO] 关闭浏览器将自动关闭 DSH 服务;或通过托盘图标退出"@
                    } else {
                        "[INFO] 浏览器已在前台运行(共享实例),通过托盘图标退出 DSH 服务"@
                    },
                ),
            ]
        }),
        ({
            let none = run_next(plan, PhaseView::Opening(before, false), ReplyView::Opened(None));
            &&& none.phase == PhaseView::TrayStarting(WatchView { watching: false, before })
            &&& none.effects == seq![
                EffectView::Log(
                    "[WARN] 打开浏览器失败,请手动访问: "@ + plan.settings.url
                        + " (启动器将常驻,关闭窗口或按 Ctrl+C 关闭 DSH 服务)"@,
                ),
                EffectView::Log("[INFO] 浏览器已在前台运行(共享实例),通过托盘图标退出 DSH 服务"@),
            ]
        }),
{
    crate::browser::browser_is_fresh_where_it_is_new(pid, before);
    let opened = run_next(plan, PhaseView::Opening(before, false), ReplyView::Opened(Some(pid)));
    let new = pid != 0 && forall|i: int| 0 <= i < before.len() ==> before[i] != pid;
    assert(opened.effects =~= seq![
        EffectView::Log("[INFO] 已在浏览器打开: "@ + plan.settings.url),
        EffectView::Log(
            if new {
                "[INFO] 关闭浏览器将自动关闭 DSH 服务;或通过托盘图标退出"@
            } else {
                "[INFO] 浏览器已在前台运行(共享实例),通过托盘图标退出 DSH 服务"@
            },
        ),
    ]);
    let none = run_next(plan, PhaseView::Opening(before, false), ReplyView::Opened(None));
    assert(none.effects =~= seq![
        EffectView::Log(
            "[WARN] 打开浏览器失败,请手动访问: "@ + plan.settings.url
                + " (启动器将常驻,关闭窗口或按 Ctrl+C 关闭 DSH 服务)"@,
        ),
        EffectView::Log("[INFO] 浏览器已在前台运行(共享实例),通过托盘图标退出 DSH 服务"@),
    ]);
}

/// A run that found the service up ends with the opening of its address, with the code 0, whatever
/// came of it.
pub proof fn run_for_a_running_service_ends_with_the_opening(
    plan: PlanView,
    before: Seq<u32>,
    opened: Option<u32>,
)
    ensures
        ({
            let step = run_next(plan, PhaseView::Opening(before, true), ReplyView::Opened(opened));
            &&& step.phase == PhaseView::Finished(0)
            &&& step.effects == seq![
                EffectView::Log(
                    if opened is Some {
                        "[INFO] 已在浏览器打开: "@ + plan.settings.url
                    } else {
                        "[WARN] 打开浏览器失败,请手动访问: "@ + plan.settings.url
                            + " (启动器将常驻,关闭窗口或按 Ctrl+C 关闭 DSH 服务)"@
                    },
                ),
            ]
        }),
{
    let step = run_next(plan, PhaseView::Opening(before, true), ReplyView::Opened(opened));
    assert(step.effects =~= seq![
        EffectView::Log(
            if opened is Some {
                "[INFO] 已在浏览器打开: "@ + plan.settings.url
            } else {
                "[WARN] 打开浏览器失败,请手动访问: "@ + plan.settings.url
                    + " (启动器将常驻,关闭窗口或按 Ctrl+C 关闭 DSH 服务)"@
            },
        ),
    ]);
}

/// Whether there is an icon in the tray or not, the service is looked after, with the browser that
/// is watched; the lack of an icon is warned of.
pub proof fn service_is_looked_after(plan: PlanView, w: WatchView, e: Seq<char>)
    ensures
        PhaseView::TrayStarting(w).asked(plan) is TrayInit,
        run_next(plan, PhaseView::TrayStarting(w), ReplyView::Outcome(Ok(()))) == (StepView {
            effects: Seq::empty(),
            phase: PhaseView::Pumping(w),
        }),
        run_next(plan, PhaseView::TrayStarting(w), ReplyView::Outcome(Err(e))) == (StepView {
            effects: seq![
                EffectView::Log("[WARN] 托盘图标创建失败(可通过任务管理器结束 dsh): "@ + e),
            ],
            phase: PhaseView::Pumping(w),
        }),
        PhaseView::Pumping(w).asked(plan) is PumpMessages,
        PhaseView::TrayFlag(w).asked(plan) is TrayExit,
        PhaseView::CtrlcFlag(w).asked(plan) is Interrupted,
        PhaseView::Polling(w).asked(plan) is ChildStatus,
        PhaseView::BrowserEnd(w).asked(plan) == RequestView::BrowserEnds(500),
        PhaseView::BrowserAge(w).asked(plan) is BrowserAge,
        PhaseView::Napping(w).asked(plan) == RequestView::Sleep(200),
{
    assert(run_next(plan, PhaseView::TrayStarting(w), ReplyView::Outcome(Err(e))).effects =~= seq![
        EffectView::Log("[WARN] 托盘图标创建失败(可通过任务管理器结束 dsh): "@ + e),
    ]);
}

/// What ends a run on purpose says so, and ends the job and the service with it: the tray, an
/// interruption, and the end of a browser that has lived three seconds or has no elder. The service's
/// own end is an error, and ends the job.
pub proof fn ends_of_a_run_end_the_service(plan: PlanView, w: WatchView, how: Seq<char>, age: u128)
    ensures
        run_next(plan, PhaseView::TrayFlag(w), ReplyView::Flag(true)) == ended(
            "[INFO] 托盘:正在关闭 DSH 服务..."@,
        ),
        run_next(plan, PhaseView::CtrlcFlag(w), ReplyView::Flag(true)) == ended(
            "\n[INFO] 正在关闭 DSH 服务..."@,
        ),
        age >= 3_000_000_000 || w.before.len() == 0 ==> run_next(
            plan,
            PhaseView::BrowserAge(w),
            ReplyView::Nanos(age),
        ) == ended("[INFO] 浏览器已关闭,正在关闭 DSH 服务..."@),
        run_next(plan, PhaseView::Polling(w), ReplyView::Child(ChildView::Exited(how))) == (StepView {
            effects: seq![EffectView::Log("[ERROR] dsh 进程意外退出: "@ + how), EffectView::KillJob],
            phase: PhaseView::Finished(4),
        }),
{
    assert(run_next(plan, PhaseView::TrayFlag(w), ReplyView::Flag(true)).effects =~= ended(
        "[INFO] 托盘:正在关闭 DSH 服务..."@,
    ).effects);
    assert(run_next(plan, PhaseView::CtrlcFlag(w), ReplyView::Flag(true)).effects =~= ended(
        "\n[INFO] 正在关闭 DSH 服务..."@,
    ).effects);
    if age >= 3_000_000_000 || w.before.len() == 0 {
        assert(run_next(plan, PhaseView::BrowserAge(w), ReplyView::Nanos(age)).effects =~= ended(
            "[INFO] 浏览器已关闭,正在关闭 DSH 服务..."@,
        ).effects);
    }
    assert(run_next(plan, PhaseView::Polling(w), ReplyView::Child(ChildView::Exited(how))).effects
        =~= seq![EffectView::Log("[ERROR] dsh 进程意外退出: "@ + how), EffectView::KillJob]);
}

/// The end of a run on purpose: it is logged, and the job and the service are ended.
pub open spec fn ended(m: Seq<char>) -> StepView {
    StepView {
        effects: seq![EffectView::Log(m), EffectView::KillJob, EffectView::KillChild],
        phase: PhaseView::Finished(0),
    }
}

/// Where nothing ends a round, the round goes on with the browser that is watched, and all is kept;
/// a service of which nothing is known is taken for one that runs, and that is logged.
pub proof fn round_goes_on(plan: PlanView, w: WatchView, e: Seq<char>)
    ensures
        ({
            let on = if w.watching {
                PhaseView::BrowserEnd(w)
            } else {
                PhaseView::Napping(w)
            };
            &&& run_next(plan, PhaseView::Pumping(w), ReplyView::Done) == still(
                PhaseView::TrayFlag(w),
            )
            &&& run_next(plan, PhaseView::TrayFlag(w), ReplyView::Flag(false)) == still(
                PhaseView::CtrlcFlag(w),
            )
            &&& run_next(plan, PhaseView::CtrlcFlag(w), ReplyView::Flag(false)) == still(
                PhaseView::Polling(w),
            )
            &&& run_next(plan, PhaseView::Polling(w), ReplyView::Child(ChildView::Running)) == still(
                on,
            )
            &&& run_next(plan, PhaseView::Polling(w), ReplyView::Child(ChildView::Unknown(e))) == (
            StepView {
                effects: seq![EffectView::Log("[WARN] 读取 dsh 进程状态失败: "@ + e)],
                phase: on,
            })
            &&& run_next(plan, PhaseView::BrowserEnd(w), ReplyView::Flag(true)) == still(
                PhaseView::BrowserAge(w),
            )
            &&& run_next(plan, PhaseView::BrowserEnd(w), ReplyView::Flag(false)) == still(
                PhaseView::Napping(w),
            )
            &&& run_next(plan, PhaseView::Napping(w), ReplyView::Done) == still(
                PhaseView::Pumping(w),
            )
        }),
{
    assert(run_next(plan, PhaseView::Polling(w), ReplyView::Child(ChildView::Unknown(e))).effects
        =~= seq![EffectView::Log("[WARN] 读取 dsh 进程状态失败: "@ + e)]);
}

/// A step to a phase, with nothing done.
pub open spec fn still(phase: PhaseView) -> StepView {
    StepView { effects: Seq::empty(), phase }
}

/// The elder browsers are asked for one by one where the opened one ended before three seconds: the
/// first that is still there leaves the service running and nothing watched, and where none is the
/// service ends.
pub proof fn elder_browsers_are_asked_for(plan: PlanView, w: WatchView, i: int, age: u128)
    requires
        0 <= i < w.before.len(),
    ensures
        age < 3_000_000_000 ==> run_next(plan, PhaseView::BrowserAge(w), ReplyView::Nanos(age))
            == still(PhaseView::BrowserAlive(w, 0)),
        PhaseView::BrowserAlive(w, i).asked(plan) == RequestView::ProcessAlive(w.before[i]),
        run_next(plan, PhaseView::BrowserAlive(w, i), ReplyView::Flag(true)) == (StepView {
            effects: seq![
                EffectView::Log(
                    "[WARN] 浏览器已存在实例(新进程为握手代理),改为常驻模式;通过托盘图标退出 DSH 服务"@,
                ),
            ],
            phase: PhaseView::Napping(WatchView { watching: false, before: w.before }),
        }),
        run_next(plan, PhaseView::BrowserAlive(w, i), ReplyView::Flag(false)) == (if i + 1
            < w.before.len() {
            still(PhaseView::BrowserAlive(w, i + 1))
        } else {
            ended("[INFO] 浏览器已关闭,正在关闭 DSH 服务..."@)
        }),
{
    assert(run_next(plan, PhaseView::BrowserAlive(w, i), ReplyView::Flag(true)).effects =~= seq![
        EffectView::Log(
            "[WARN] 浏览器已存在实例(新进程为握手代理),改为常驻模式;通过托盘图标退出 DSH 服务"@,
        ),
    ]);
    let step = run_next(plan, PhaseView::BrowserAlive(w, i), ReplyView::Flag(false));
    if i + 1 >= w.before.len() {
        assert(step.effects =~= ended("[INFO] 浏览器已关闭,正在关闭 DSH 服务..."@).effects);
    }
}

} // verus!
