//! A run of the launcher, from its start to its exit code.
//!
//! The run is a machine: it says what the system is to do, asks for one thing at a time, and goes
//! on with the reply.
use vstd::prelude::*;

use crate::browser::{browser_ids, browser_pids, is_fresh, open_browser_watch, open_message};
use crate::config::{
    apply_cli, command_line, load_config, settings, settings_of, standard_config,
    ConfigSource, ConfigView, Settings, SettingsView,
};
use crate::entry::{
    entry_message, print_entry, spawn_dsh, start_command, CommandLine, CommandView, Entry, EntryView,
};
use crate::net::{http_ok, http_request, request_text};
use crate::protocol::{
    effects, log_all, ChildStatus, ChildView, Effect, EffectView, Reply, ReplyView, Request,
    RequestView,
};
use crate::resolve::{
    found, resolve_entry, resolve_first, resolve_next, resolve_start, Next, NextView, Progress,
    ProgressView, Stage, StageView,
};
use crate::text::{cat2, cat3, copy_texts, decimal, has_text, texts, to_decimal};
use crate::wait::{
    speaks_http, unknown_message, wait_first, wait_next, wait_ready, wait_start, OutcomeView,
    ProbeOutcome, WaitNext, WaitNextView, WaitState, WaitStep, WaitStepView, SECOND,
};

verus! {

/// How long a browser that was closed by its user has lived at least, in seconds.
pub const BROWSER_SECS: u128 = 3;

/// How long the end of the browser is waited for at a time, in milliseconds.
pub const BROWSER_WAIT_MS: u32 = 500;

/// How long the launcher sleeps between two looks at the service, in milliseconds.
pub const NAP_MS: u64 = 200;

// ---------------------------------------------------------------------------
// The state of a run
// ---------------------------------------------------------------------------

/// What is known of the browser while the service runs.
pub struct Watch {
    /// Whether the end of the browser ends the service.
    pub watching: bool,
    /// The browsers that were there before it.
    pub before: Vec<u32>,
}

/// The content of a [`Watch`].
#[verifier::ext_equal]
pub struct WatchView {
    pub watching: bool,
    pub before: Seq<u32>,
}

impl View for Watch {
    type V = WatchView;

    open spec fn view(&self) -> WatchView {
        WatchView { watching: self.watching, before: self.before@ }
    }
}

/// What a run has asked last, and what must be kept for the reply.
pub enum Phase {
    /// The search for an entry goes on, and nothing is to be started.
    Checking(Stage),
    /// Asked to note interruptions.
    Ctrlc,
    /// Asked whether the service is already up.
    FirstHttp,
    /// Asked whether its port is taken.
    FirstTcp,
    /// The search for the entry to start goes on.
    Resolving(Stage),
    /// Asked to start the service.
    Spawning(CommandLine),
    /// Asked for a job.
    CreatingJob,
    /// Asked to put the service into the job.
    AssigningJob,
    /// Waits for the service, for so many seconds at most.
    Waiting(WaitState, u64),
    /// Asked for the processes; where the service was already up, the run ends with the opening.
    Listing(bool),
    /// Asked to open the address, with these browsers already there.
    Opening(Vec<u32>, bool),
    /// Asked for the tray icon.
    TrayStarting(Watch),
    /// Asked to handle messages.
    Pumping(Watch),
    /// Asked for the menu's word.
    TrayFlag(Watch),
    /// Asked for an interruption.
    CtrlcFlag(Watch),
    /// Asked for the service's state.
    Polling(Watch),
    /// Asked for the browser's end.
    BrowserEnd(Watch),
    /// Asked for the age of the browser that has ended.
    BrowserAge(Watch),
    /// Asked for the browser (of this number) of those that were there before.
    BrowserAlive(Watch, usize),
    /// Sleeps.
    Napping(Watch),
    /// The run is over.
    Finished(i32),
}

/// The content of a [`Phase`].
#[verifier::ext_equal]
pub enum PhaseView {
    Checking(StageView),
    Ctrlc,
    FirstHttp,
    FirstTcp,
    Resolving(StageView),
    Spawning(CommandView),
    CreatingJob,
    AssigningJob,
    Waiting(WaitState, u64),
    Listing(bool),
    Opening(Seq<u32>, bool),
    TrayStarting(WatchView),
    Pumping(WatchView),
    TrayFlag(WatchView),
    CtrlcFlag(WatchView),
    Polling(WatchView),
    BrowserEnd(WatchView),
    BrowserAge(WatchView),
    BrowserAlive(WatchView, int),
    Napping(WatchView),
    Finished(i32),
}

impl View for Phase {
    type V = PhaseView;

    open spec fn view(&self) -> PhaseView {
        match self {
            Phase::Checking(s) => PhaseView::Checking(s@),
            Phase::Ctrlc => PhaseView::Ctrlc,
            Phase::FirstHttp => PhaseView::FirstHttp,
            Phase::FirstTcp => PhaseView::FirstTcp,
            Phase::Resolving(s) => PhaseView::Resolving(s@),
            Phase::Spawning(c) => PhaseView::Spawning(c@),
            Phase::CreatingJob => PhaseView::CreatingJob,
            Phase::AssigningJob => PhaseView::AssigningJob,
            Phase::Waiting(s, secs) => PhaseView::Waiting(*s, *secs),
            Phase::Listing(leave) => PhaseView::Listing(*leave),
            Phase::Opening(before, leave) => PhaseView::Opening(before@, *leave),
            Phase::TrayStarting(w) => PhaseView::TrayStarting(w@),
            Phase::Pumping(w) => PhaseView::Pumping(w@),
            Phase::TrayFlag(w) => PhaseView::TrayFlag(w@),
            Phase::CtrlcFlag(w) => PhaseView::CtrlcFlag(w@),
            Phase::Polling(w) => PhaseView::Polling(w@),
            Phase::BrowserEnd(w) => PhaseView::BrowserEnd(w@),
            Phase::BrowserAge(w) => PhaseView::BrowserAge(w@),
            Phase::BrowserAlive(w, i) => PhaseView::BrowserAlive(w@, *i as int),
            Phase::Napping(w) => PhaseView::Napping(w@),
            Phase::Finished(code) => PhaseView::Finished(*code),
        }
    }
}

impl PhaseView {
    /// Every number is in range.
    pub open spec fn wf(self) -> bool {
        match self {
            PhaseView::Checking(s) => s.wf(),
            PhaseView::Resolving(s) => s.wf(),
            PhaseView::BrowserAlive(w, i) => 0 <= i < w.before.len(),
            _ => true,
        }
    }
}

/// What a run goes by.
pub struct Plan {
    /// The path of the entry, where one is configured: no other place is then tried.
    pub dsh_path: Option<String>,
    /// What the entry is started with.
    pub args: Vec<String>,
    pub settings: Settings,
}

/// The content of a [`Plan`].
#[verifier::ext_equal]
pub struct PlanView {
    pub dsh_path: Option<Seq<char>>,
    pub args: Seq<Seq<char>>,
    pub settings: SettingsView,
}

impl View for Plan {
    type V = PlanView;

    open spec fn view(&self) -> PlanView {
        PlanView {
            dsh_path: crate::text::opt_text(self.dsh_path),
            args: texts(self.args@),
            settings: self.settings@,
        }
    }
}

/// A step of a run: what the system is told to do, and the phase after it.
pub struct Step {
    pub effects: Vec<Effect>,
    pub phase: Phase,
}

/// The content of a [`Step`].
#[verifier::ext_equal]
pub struct StepView {
    pub effects: Seq<EffectView>,
    pub phase: PhaseView,
}

impl View for Step {
    type V = StepView;

    open spec fn view(&self) -> StepView {
        StepView { effects: effects(self.effects@), phase: self.phase@ }
    }
}

/// A step that does nothing.
pub open spec fn go(phase: PhaseView) -> StepView {
    StepView { effects: Seq::empty(), phase }
}

/// A step with something done before it.
pub open spec fn first(e: EffectView, s: StepView) -> StepView {
    StepView { effects: seq![e] + s.effects, phase: s.phase }
}

/// A step with a message logged before it.
pub open spec fn log(m: Seq<char>, s: StepView) -> StepView {
    first(EffectView::Log(m), s)
}

/// A step with messages logged before it.
pub open spec fn logs(ms: Seq<Seq<char>>, s: StepView) -> StepView {
    StepView { effects: log_all(ms) + s.effects, phase: s.phase }
}

fn step(phase: Phase) -> (r: Step)
    ensures
        r@ == go(phase@),
{
    let v: Vec<Effect> = Vec::new();
    assert(effects(v@) == Seq::<EffectView>::empty());
    Step { effects: v, phase }
}

fn doing(e: Effect, s: Step) -> (r: Step)
    ensures
        r@ == first(e@, s@),
{
    let mut v: Vec<Effect> = Vec::new();
    v.push(e);
    let mut rest: Vec<Effect> = s.effects;
    v.append(&mut rest);
    assert(effects(v@) == seq![e@] + effects(s.effects@));
    Step { effects: v, phase: s.phase }
}

fn logging(m: String, s: Step) -> (r: Step)
    ensures
        r@ == log(m@, s@),
{
    doing(Effect::Log(m), s)
}

fn logging_all(ms: Vec<String>, s: Step) -> (r: Step)
    ensures
        r@ == logs(texts(ms@), s@),
{
    let mut v: Vec<Effect> = Vec::new();
    let mut i: usize = 0;
    while i < ms.len()
        invariant
            i <= ms@.len(),
            v@.len() == i,
            forall|j: int| 0 <= j < i ==> (#[trigger] v@[j])@ == EffectView::Log(ms@[j]@),
        decreases ms@.len() - i,
    {
        v.push(Effect::Log(ms[i].clone()));
        i = i + 1;
    }
    assert(effects(v@) == log_all(texts(ms@)));
    let ghost said = v@;
    let mut rest: Vec<Effect> = s.effects;
    v.append(&mut rest);
    assert(effects(v@) == effects(said) + effects(s.effects@));
    Step { effects: v, phase: s.phase }
}

// ---------------------------------------------------------------------------
// The ends of a run
// ---------------------------------------------------------------------------

/// The end of a run with nothing more to do.
pub open spec fn finish(code: i32) -> StepView {
    go(PhaseView::Finished(code))
}

/// The end of a run whose service is ended with it.
pub open spec fn shut_down(m: Seq<char>) -> StepView {
    log(m, first(EffectView::KillJob, first(EffectView::KillChild, finish(0))))
}

fn shutting_down(m: &str) -> (r: Step)
    ensures
        r@ == shut_down(m@),
{
    logging(
        m.to_owned(),
        doing(Effect::KillJob, doing(Effect::KillChild, step(Phase::Finished(0)))),
    )
}

// ---------------------------------------------------------------------------
// The search for the entry
// ---------------------------------------------------------------------------

/// What is logged of a search that nothing is started after, and its exit code.
pub open spec fn check_result(r: Result<EntryView, Seq<char>>) -> (Seq<Seq<char>>, i32) {
    match r {
        Ok(e) => (seq![entry_message(e), "[INFO] dsh 命令解析成功,可直接启动"@], 0),
        Err(m) => (seq!["[ERROR] "@ + m], 5),
    }
}

/// What is logged of a search that nothing is started after, and its exit code.
pub fn cmd_check(r: &Result<Entry, String>) -> (out: (Vec<String>, i32))
    ensures
        (texts(out.0@), out.1) == check_result(found(*r)),
{
    let mut said: Vec<String> = Vec::new();
    match r {
        Ok(e) => {
            said.push(print_entry(e));
            said.push("[INFO] dsh 命令解析成功,可直接启动".to_owned());
            assert(texts(said@) == check_result(found(*r)).0);
            (said, 0)
        },
        Err(m) => {
            said.push(cat2("[ERROR] ", m.as_str()));
            assert(texts(said@) == check_result(found(*r)).0);
            (said, 5)
        },
    }
}

/// An entry with more arguments.
pub open spec fn with_args(e: EntryView, args: Seq<Seq<char>>) -> EntryView {
    EntryView { args: e.args + args, ..e }
}

/// The run after the search: the found entry is started with the configured arguments, or the run
/// ends.
pub open spec fn after_search(plan: PlanView, r: Result<EntryView, Seq<char>>) -> StepView {
    match r {
        Ok(e) => {
            let e = with_args(e, plan.args);
            log(
                entry_message(e),
                go(PhaseView::Spawning(start_command(e))),
            )
        },
        Err(m) => log(
            "[ERROR] "@ + m,
            first(EffectView::Popup("无法启动 dsh:\n\n"@ + m), finish(5)),
        ),
    }
}

/// The check with a step of its search.
pub open spec fn checking(p: ProgressView) -> StepView {
    match p.next {
        NextView::Ask(s) => logs(p.logs, go(PhaseView::Checking(s))),
        NextView::Done(r) => logs(p.logs, logs(check_result(r).0, finish(check_result(r).1))),
    }
}

/// The run with a step of its search.
pub open spec fn resolving(plan: PlanView, p: ProgressView) -> StepView {
    match p.next {
        NextView::Ask(s) => logs(p.logs, go(PhaseView::Resolving(s))),
        NextView::Done(r) => logs(p.logs, after_search(plan, r)),
    }
}

fn check_step(p: Progress) -> (r: Step)
    requires
        p@.wf(),
    ensures
        r@ == checking(p@),
        r@.phase.wf(),
{
    match p.next {
        Next::Ask(s) => logging_all(p.logs, step(Phase::Checking(s))),
        Next::Done(r) => {
            let (said, code) = cmd_check(&r);
            logging_all(p.logs, logging_all(said, step(Phase::Finished(code))))
        },
    }
}

fn search_over(plan: &Plan, r: Result<Entry, String>) -> (out: Step)
    ensures
        out@ == after_search(plan@, found(r)),
        out@.phase.wf(),
{
    match r {
        Ok(e) => {
            let mut args: Vec<String> = e.args;
            let mut more: Vec<String> = copy_texts(&plan.args);
            args.append(&mut more);
            let full: Entry = Entry {
                via_cmd: e.via_cmd,
                program: e.program,
                args,
                skip_version: e.skip_version,
                slow_start: e.slow_start,
            };
            assert(full@ == with_args(found(r)->Ok_0, plan@.args));
            logging(
                print_entry(&full),
                step(Phase::Spawning(spawn_dsh(&full))),
            )
        },
        Err(m) => {
            let popup: String = cat2("无法启动 dsh:\n\n", m.as_str());
            logging(
                cat2("[ERROR] ", m.as_str()),
                doing(Effect::Popup(popup), step(Phase::Finished(5))),
            )
        },
    }
}

fn resolve_step(plan: &Plan, p: Progress) -> (r: Step)
    requires
        p@.wf(),
    ensures
        r@ == resolving(plan@, p@),
        r@.phase.wf(),
{
    match p.next {
        Next::Ask(s) => logging_all(p.logs, step(Phase::Resolving(s))),
        Next::Done(r) => logging_all(p.logs, search_over(plan, r)),
    }
}

// ---------------------------------------------------------------------------
// The wait for the service
// ---------------------------------------------------------------------------

/// The run at the start of the wait, which takes as many seconds at most as are set.
pub open spec fn begin_wait(plan: PlanView) -> StepView {
    first(
        EffectView::StartClock,
        go(PhaseView::Waiting(wait_first(), plan.settings.timeout_secs)),
    )
}

fn beginning_wait(plan: &Plan) -> (r: Step)
    ensures
        r@ == begin_wait(plan@),
        r@.phase.wf(),
{
    doing(Effect::StartClock, step(Phase::Waiting(wait_start(), plan.settings.timeout_secs)))
}

/// What is said of a service that has ended before it was up.
pub open spec fn early_exit(how: Seq<char>) -> Seq<char> {
    "dsh 进程提前退出: "@ + how
        + "\n\n若为参数/缺参错误,请检查 config.json 的 args 字段\n(DSH-Web 示例: [\"web\", \"--port\", \"8899\"])"@
}

/// What is said of a wait that took too long.
pub open spec fn too_late(secs: u64) -> Seq<char> {
    "等待服务就绪超时("@ + decimal(secs as nat) + "s)\n\n详情见 dsh-launcher.log"@
}

/// The run after the wait.
pub open spec fn after_wait(o: OutcomeView, secs: u64) -> StepView {
    match o {
        OutcomeView::Ready => log("[INFO] 服务已就绪"@, go(PhaseView::Listing(false))),
        OutcomeView::ChildExited(how) => log(
            "[ERROR] "@ + early_exit(how),
            first(
                EffectView::KillJob,
                first(EffectView::Popup(early_exit(how)), finish(4)),
            ),
        ),
        OutcomeView::Timeout { ever_tcp } => log(
            "[ERROR] "@ + too_late(secs),
            first(
                EffectView::KillJob,
                first(
                    EffectView::KillChild,
                    first(
                        EffectView::Popup(too_late(secs)),
                        finish(
                            if ever_tcp {
                                2
                            } else {
                                3
                            },
                        ),
                    ),
                ),
            ),
        ),
        OutcomeView::Interrupted => shut_down("\n[INFO] 正在关闭 DSH 服务..."@),
    }
}

fn wait_over(o: ProbeOutcome, secs: u64) -> (r: Step)
    ensures
        r@ == after_wait(o@, secs),
        r@.phase.wf(),
{
    match o {
        ProbeOutcome::Ready => logging("[INFO] 服务已就绪".to_owned(), step(Phase::Listing(false))),
        ProbeOutcome::ChildExited(how) => {
            let m: String = cat3(
                "dsh 进程提前退出: ",
                how.as_str(),
                "\n\n若为参数/缺参错误,请检查 config.json 的 args 字段\n(DSH-Web 示例: [\"web\", \"--port\", \"8899\"])",
            );
            logging(
                cat2("[ERROR] ", m.as_str()),
                doing(Effect::KillJob, doing(Effect::Popup(m), step(Phase::Finished(4)))),
            )
        },
        ProbeOutcome::Timeout { ever_tcp } => {
            let m: String = cat3(
                "等待服务就绪超时(",
                to_decimal(secs).as_str(),
                "s)\n\n详情见 dsh-launcher.log",
            );
            let code: i32 = if ever_tcp {
                2
            } else {
                3
            };
            logging(
                cat2("[ERROR] ", m.as_str()),
                doing(
                    Effect::KillJob,
                    doing(
                        Effect::KillChild,
                        doing(Effect::Popup(m), step(Phase::Finished(code))),
                    ),
                ),
            )
        },
        ProbeOutcome::Interrupted => shutting_down("\n[INFO] 正在关闭 DSH 服务..."),
    }
}

/// The run with a step of the wait.
pub open spec fn waiting(p: WaitStepView, secs: u64) -> StepView {
    match p.next {
        WaitNextView::Go(s) => logs(p.logs, go(PhaseView::Waiting(s, secs))),
        WaitNextView::Over(o) => logs(p.logs, after_wait(o, secs)),
    }
}

fn wait_step(p: WaitStep, secs: u64) -> (r: Step)
    ensures
        r@ == waiting(p@, secs),
        r@.phase.wf(),
{
    match p.next {
        WaitNext::Go(s) => logging_all(p.logs, step(Phase::Waiting(s, secs))),
        WaitNext::Over(o) => logging_all(p.logs, wait_over(o, secs)),
    }
}

// ---------------------------------------------------------------------------
// The service and its browser
// ---------------------------------------------------------------------------

/// What is said of the browser once the service is up.
pub open spec fn watch_message(watching: bool) -> Seq<char> {
    if watching {
        "[INFO] 关闭浏览器将自动关闭 DSH 服务;或通过托盘图标退出"@
    } else {
        "[INFO] 浏览器已在前台运行(共享实例),通过托盘图标退出 DSH 服务"@
    }
}

/// The run after the address was opened.
pub open spec fn after_open(
    plan: PlanView,
    before: Seq<u32>,
    leave: bool,
    opened: Option<u32>,
) -> StepView {
    let watching = is_fresh(opened, before);
    log(
        open_message(plan.settings.url, opened),
        if leave {
            finish(0)
        } else {
            log(
                watch_message(watching),
                go(PhaseView::TrayStarting(WatchView { watching, before })),
            )
        },
    )
}

/// The run after a look at a service that runs.
pub open spec fn after_poll(w: WatchView) -> StepView {
    if w.watching {
        go(PhaseView::BrowserEnd(w))
    } else {
        go(PhaseView::Napping(w))
    }
}

/// The run where the browser was closed.
pub open spec fn browser_closed() -> StepView {
    shut_down("[INFO] 浏览器已关闭,正在关闭 DSH 服务..."@)
}

/// The run with the browsers of before, from one on, still to be asked for.
pub open spec fn alive_from(w: WatchView, i: int) -> StepView {
    if i < w.before.len() {
        go(PhaseView::BrowserAlive(w, i))
    } else {
        browser_closed()
    }
}

fn opening(plan: &Plan, before: Vec<u32>, leave: bool, opened: Option<u32>) -> (r: Step)
    ensures
        r@ == after_open(plan@, before@, leave, opened),
        r@.phase.wf(),
{
    let (m, watching) = open_browser_watch(plan.settings.url.as_str(), opened, &before);
    if leave {
        logging(m, step(Phase::Finished(0)))
    } else {
        let said: &str = if watching {
            "[INFO] 关闭浏览器将自动关闭 DSH 服务;或通过托盘图标退出"
        } else {
            "[INFO] 浏览器已在前台运行(共享实例),通过托盘图标退出 DSH 服务"
        };
        logging(
            m,
            logging(said.to_owned(), step(Phase::TrayStarting(Watch { watching, before }))),
        )
    }
}

fn polled(w: Watch) -> (r: Step)
    ensures
        r@ == after_poll(w@),
        r@.phase.wf(),
{
    if w.watching {
        step(Phase::BrowserEnd(w))
    } else {
        step(Phase::Napping(w))
    }
}

/// Goes on with the question whether one of the browsers of before is still there: from the one of
/// this number, or, where there are no more, with the browser that was closed.
pub fn any_pre_alive(w: Watch, i: usize) -> (r: Step)
    ensures
        r@ == alive_from(w@, i as int),
        r@.phase.wf(),
{
    if i < w.before.len() {
        step(Phase::BrowserAlive(w, i))
    } else {
        shutting_down("[INFO] 浏览器已关闭,正在关闭 DSH 服务...")
    }
}

// ---------------------------------------------------------------------------
// The run
// ---------------------------------------------------------------------------

impl PhaseView {
    /// What is asked.
    pub open spec fn asked(self, plan: PlanView) -> RequestView {
        let port = plan.settings.port;
        match self {
            PhaseView::Checking(s) => RequestView::Probe(s.asked(plan.settings.package)),
            PhaseView::Ctrlc => RequestView::InstallCtrlc,
            PhaseView::FirstHttp => RequestView::HttpGet(port, request_text(port)),
            PhaseView::FirstTcp => RequestView::TcpOpen(port),
            PhaseView::Resolving(s) => RequestView::Probe(s.asked(plan.settings.package)),
            PhaseView::Spawning(c) => RequestView::Spawn(c),
            PhaseView::CreatingJob => RequestView::CreateJob,
            PhaseView::AssigningJob => RequestView::AssignJob,
            PhaseView::Waiting(s, _) => s.asked(port),
            PhaseView::Listing(_) => RequestView::ListProcesses,
            PhaseView::Opening(_, _) => RequestView::OpenUrl(plan.settings.url),
            PhaseView::TrayStarting(_) => RequestView::TrayInit,
            PhaseView::Pumping(_) => RequestView::PumpMessages,
            PhaseView::TrayFlag(_) => RequestView::TrayExit,
            PhaseView::CtrlcFlag(_) => RequestView::Interrupted,
            PhaseView::Polling(_) => RequestView::ChildStatus,
            PhaseView::BrowserEnd(_) => RequestView::BrowserEnds(BROWSER_WAIT_MS),
            PhaseView::BrowserAge(_) => RequestView::BrowserAge,
            PhaseView::BrowserAlive(w, i) => RequestView::ProcessAlive(w.before[i]),
            PhaseView::Napping(_) => RequestView::Sleep(NAP_MS),
            PhaseView::Finished(code) => RequestView::Exit(code),
        }
    }
}

impl Phase {
    /// What to ask.
    pub fn request(&self, plan: &Plan) -> (r: Request)
        requires
            self@.wf(),
        ensures
            r@ == self@.asked(plan@),
    {
        let port: u16 = plan.settings.port;
        match self {
            Phase::Checking(s) => Request::Probe(s.probe(plan.settings.package.as_str())),
            Phase::Ctrlc => Request::InstallCtrlc,
            Phase::FirstHttp => Request::HttpGet(port, http_request(port)),
            Phase::FirstTcp => Request::TcpOpen(port),
            Phase::Resolving(s) => Request::Probe(s.probe(plan.settings.package.as_str())),
            Phase::Spawning(c) => Request::Spawn(
                CommandLine { program: c.program.clone(), args: copy_texts(&c.args) },
            ),
            Phase::CreatingJob => Request::CreateJob,
            Phase::AssigningJob => Request::AssignJob,
            Phase::Waiting(s, _) => s.request(port),
            Phase::Listing(_) => Request::ListProcesses,
            Phase::Opening(_, _) => Request::OpenUrl(plan.settings.url.clone()),
            Phase::TrayStarting(_) => Request::TrayInit,
            Phase::Pumping(_) => Request::PumpMessages,
            Phase::TrayFlag(_) => Request::TrayExit,
            Phase::CtrlcFlag(_) => Request::Interrupted,
            Phase::Polling(_) => Request::ChildStatus,
            Phase::BrowserEnd(_) => Request::BrowserEnds(BROWSER_WAIT_MS),
            Phase::BrowserAge(_) => Request::BrowserAge,
            Phase::BrowserAlive(w, i) => Request::ProcessAlive(w.before[*i]),
            Phase::Napping(_) => Request::Sleep(NAP_MS),
            Phase::Finished(code) => Request::Exit(*code),
        }
    }
}

/// The first step of a run, by its configuration, and what it goes by.
pub open spec fn run_first(cfg: ConfigView, args: Seq<Seq<char>>) -> (PlanView, StepView) {
    let (cfg, help) = command_line(cfg, args, false);
    let plan = PlanView { dsh_path: cfg.dsh_path, args: cfg.args, settings: settings_of(cfg) };
    (
        plan,
        match help {
            Ok(true) => first(EffectView::Help, finish(0)),
            Ok(false) => log(
                "[INFO] DSH-Launcher v0.1.0"@,
                log(
                    "[INFO] 目标地址: "@ + plan.settings.url,
                    log(
                        "[INFO] 探测端口: "@ + decimal(plan.settings.port as nat),
                        if args.contains("--check"@) {
                            checking(resolve_first(plan.dsh_path))
                        } else {
                            go(PhaseView::Ctrlc)
                        },
                    ),
                ),
            ),
            Err(m) => log(
                "[ERROR] 命令行参数错误: "@ + m,
                first(EffectView::Popup(m), finish(1)),
            ),
        },
    )
}

/// The step of a run that a reply leads to.
pub open spec fn run_next(plan: PlanView, phase: PhaseView, reply: ReplyView) -> StepView {
    let pkg = plan.settings.package;
    match (phase, reply) {
        (PhaseView::Checking(s), ReplyView::Answer(a)) => checking(resolve_next(pkg, s, a)),
        (PhaseView::Ctrlc, ReplyView::Outcome(Ok(_))) => go(PhaseView::FirstHttp),
        (PhaseView::Ctrlc, ReplyView::Outcome(Err(e))) => log(
            "[WARN] 注册 Ctrl+C 处理器失败: "@ + e,
            go(PhaseView::FirstHttp),
        ),
        (PhaseView::FirstHttp, ReplyView::Bytes(b)) => if speaks_http(b) {
            log("[INFO] 服务已在运行,直接打开浏览器"@, go(PhaseView::Listing(true)))
        } else {
            go(PhaseView::FirstTcp)
        },
        (PhaseView::FirstTcp, ReplyView::Flag(open)) => if open {
            log(
                "[WARN] 端口 "@ + decimal(plan.settings.port as nat)
                    + " 已被占用但未响应 HTTP,启动 dsh 后需自行确认"@,
                resolving(plan, resolve_first(plan.dsh_path)),
            )
        } else {
            resolving(plan, resolve_first(plan.dsh_path))
        },
        (PhaseView::Resolving(s), ReplyView::Answer(a)) => resolving(plan, resolve_next(pkg, s, a)),
        (PhaseView::Spawning(_), ReplyView::Outcome(Ok(_))) => go(PhaseView::CreatingJob),
        (PhaseView::Spawning(_), ReplyView::Outcome(Err(e))) => log(
            "[ERROR] 启动 dsh 失败: "@ + e,
            first(EffectView::Popup("启动 dsh 失败:\n\n"@ + e), finish(1)),
        ),
        (PhaseView::CreatingJob, ReplyView::Flag(made)) => if made {
            go(PhaseView::AssigningJob)
        } else {
            log("[WARN] JobObject 创建失败(进程退出时可能残留)"@, begin_wait(plan))
        },
        (PhaseView::AssigningJob, ReplyView::Outcome(Ok(_))) => log(
            "[INFO] 已绑定 JobObject,启动器退出将自动清理 dsh 进程树"@,
            begin_wait(plan),
        ),
        (PhaseView::AssigningJob, ReplyView::Outcome(Err(e))) => log(
            "[WARN] JobObject 绑定失败(进程退出时可能残留): "@ + e,
            begin_wait(plan),
        ),
        (PhaseView::Waiting(s, secs), reply) => waiting(wait_next(s, reply, secs), secs),
        (PhaseView::Listing(leave), ReplyView::Processes(ps)) => go(
            PhaseView::Opening(browser_ids(ps), leave),
        ),
        (PhaseView::Opening(before, leave), ReplyView::Opened(opened)) => after_open(
            plan,
            before,
            leave,
            opened,
        ),
        (PhaseView::TrayStarting(w), ReplyView::Outcome(Ok(_))) => go(PhaseView::Pumping(w)),
        (PhaseView::TrayStarting(w), ReplyView::Outcome(Err(e))) => log(
            "[WARN] 托盘图标创建失败(可通过任务管理器结束 dsh): "@ + e,
            go(PhaseView::Pumping(w)),
        ),
        (PhaseView::Pumping(w), ReplyView::Done) => go(PhaseView::TrayFlag(w)),
        (PhaseView::TrayFlag(w), ReplyView::Flag(hit)) => if hit {
            shut_down("[INFO] 托盘:正在关闭 DSH 服务..."@)
        } else {
            go(PhaseView::CtrlcFlag(w))
        },
        (PhaseView::CtrlcFlag(w), ReplyView::Flag(hit)) => if hit {
            shut_down("\n[INFO] 正在关闭 DSH 服务..."@)
        } else {
            go(PhaseView::Polling(w))
        },
        (PhaseView::Polling(w), ReplyView::Child(ChildView::Exited(how))) => log(
            "[ERROR] dsh 进程意外退出: "@ + how,
            first(EffectView::KillJob, finish(4)),
        ),
        (PhaseView::Polling(w), ReplyView::Child(ChildView::Running)) => after_poll(w),
        (PhaseView::Polling(w), ReplyView::Child(ChildView::Unknown(e))) => log(
            unknown_message(e),
            after_poll(w),
        ),
        (PhaseView::BrowserEnd(w), ReplyView::Flag(ended)) => if ended {
            go(PhaseView::BrowserAge(w))
        } else {
            go(PhaseView::Napping(w))
        },
        (PhaseView::BrowserAge(w), ReplyView::Nanos(age)) => if age < BROWSER_SECS * SECOND {
            alive_from(w, 0)
        } else {
            browser_closed()
        },
        (PhaseView::BrowserAlive(w, i), ReplyView::Flag(alive)) => if alive {
            log(
                "[WARN] 浏览器已存在实例(新进程为握手代理),改为常驻模式;通过托盘图标退出 DSH 服务"@,
                go(PhaseView::Napping(WatchView { watching: false, ..w })),
            )
        } else {
            alive_from(w, i + 1)
        },
        (PhaseView::Napping(w), ReplyView::Done) => go(PhaseView::Pumping(w)),
        _ => go(phase),
    }
}

/// Begins a run with what became of the configuration file, and the command line.
pub fn launch(source: ConfigSource, args: &Vec<String>) -> (r: (Plan, Step))
    ensures
        r.0@ == run_first(
            match source {
                ConfigSource::Parsed(c) => c@,
                _ => standard_config(),
            },
            texts(args@),
        ).0,
        r.1@ == ({
            let begun = run_first(
                match source {
                    ConfigSource::Parsed(c) => c@,
                    _ => standard_config(),
                },
                texts(args@),
            ).1;
            match source {
                ConfigSource::Malformed(e) => log(
                    "[WARN] config.json 解析失败,使用默认配置: "@ + e@,
                    begun,
                ),
                _ => begun,
            }
        }),
        r.1@.phase.wf(),
{
    let (mut cfg, warning) = load_config(source);
    let help: Result<bool, String> = apply_cli(&mut cfg, args.as_slice());
    let plan: Plan = Plan {
        settings: settings(&cfg),
        dsh_path: cfg.dsh_path,
        args: cfg.args,
    };
    let begun: Step = match help {
        Ok(true) => doing(Effect::Help, step(Phase::Finished(0))),
        Ok(false) => {
            let address: String = cat2("[INFO] 目标地址: ", plan.settings.url.as_str());
            let port: String = cat2(
                "[INFO] 探测端口: ",
                to_decimal(plan.settings.port as u64).as_str(),
            );
            let on: Step = if has_text(args, "--check") {
                check_step(resolve_start(&plan.dsh_path))
            } else {
                step(Phase::Ctrlc)
            };
            logging(
                "[INFO] DSH-Launcher v0.1.0".to_owned(),
                logging(address, logging(port, on)),
            )
        },
        Err(m) => logging(
            cat2("[ERROR] 命令行参数错误: ", m.as_str()),
            doing(Effect::Popup(m), step(Phase::Finished(1))),
        ),
    };
    match warning {
        Some(m) => (plan, logging(m, begun)),
        None => (plan, begun),
    }
}

/// Goes on with a run from the reply to what was asked last.
///
/// A reply to another request leaves the run where it is.
pub fn run(plan: &Plan, phase: Phase, reply: Reply) -> (r: Step)
    requires
        phase@.wf(),
    ensures
        r@ == run_next(plan@, phase@, reply@),
        r@.phase.wf(),
{
    let pkg: &str = plan.settings.package.as_str();
    match (phase, reply) {
        (Phase::Checking(s), Reply::Answer(a)) => check_step(resolve_entry(pkg, s, a)),
        (Phase::Ctrlc, Reply::Outcome(r)) => match r {
            Ok(_) => step(Phase::FirstHttp),
            Err(e) => logging(
                cat2("[WARN] 注册 Ctrl+C 处理器失败: ", e.as_str()),
                step(Phase::FirstHttp),
            ),
        },
        (Phase::FirstHttp, Reply::Bytes(b)) => if http_ok(b.as_slice()) {
            logging("[INFO] 服务已在运行,直接打开浏览器".to_owned(), step(Phase::Listing(true)))
        } else {
            step(Phase::FirstTcp)
        },
        (Phase::FirstTcp, Reply::Flag(open)) => {
            let on: Step = resolve_step(plan, resolve_start(&plan.dsh_path));
            if open {
                logging(
                    cat3(
                        "[WARN] 端口 ",
                        to_decimal(plan.settings.port as u64).as_str(),
                        " 已被占用但未响应 HTTP,启动 dsh 后需自行确认",
                    ),
                    on,
                )
            } else {
                on
            }
        },
        (Phase::Resolving(s), Reply::Answer(a)) => resolve_step(plan, resolve_entry(pkg, s, a)),
        (Phase::Spawning(_), Reply::Outcome(r)) => match r {
            Ok(_) => step(Phase::CreatingJob),
            Err(e) => {
                let popup: String = cat2("启动 dsh 失败:\n\n", e.as_str());
                logging(
                    cat2("[ERROR] 启动 dsh 失败: ", e.as_str()),
                    doing(Effect::Popup(popup), step(Phase::Finished(1))),
                )
            },
        },
        (Phase::CreatingJob, Reply::Flag(made)) => if made {
            step(Phase::AssigningJob)
        } else {
            logging(
                "[WARN] JobObject 创建失败(进程退出时可能残留)".to_owned(),
                beginning_wait(plan),
            )
        },
        (Phase::AssigningJob, Reply::Outcome(r)) => match r {
            Ok(_) => logging(
                "[INFO] 已绑定 JobObject,启动器退出将自动清理 dsh 进程树".to_owned(),
                beginning_wait(plan),
            ),
            Err(e) => logging(
                cat2("[WARN] JobObject 绑定失败(进程退出时可能残留): ", e.as_str()),
                beginning_wait(plan),
            ),
        },
        (Phase::Waiting(s, secs), reply) => wait_step(wait_ready(s, reply, secs), secs),
        (Phase::Listing(leave), Reply::Processes(ps)) => step(
            Phase::Opening(browser_pids(&ps), leave),
        ),
        (Phase::Opening(before, leave), Reply::Opened(opened)) => opening(
            plan,
            before,
            leave,
            opened,
        ),
        (Phase::TrayStarting(w), Reply::Outcome(r)) => match r {
            Ok(_) => step(Phase::Pumping(w)),
            Err(e) => logging(
                cat2("[WARN] 托盘图标创建失败(可通过任务管理器结束 dsh): ", e.as_str()),
                step(Phase::Pumping(w)),
            ),
        },
        (Phase::Pumping(w), Reply::Done) => step(Phase::TrayFlag(w)),
        (Phase::TrayFlag(w), Reply::Flag(hit)) => if hit {
            shutting_down("[INFO] 托盘:正在关闭 DSH 服务...")
        } else {
            step(Phase::CtrlcFlag(w))
        },
        (Phase::CtrlcFlag(w), Reply::Flag(hit)) => if hit {
            shutting_down("\n[INFO] 正在关闭 DSH 服务...")
        } else {
            step(Phase::Polling(w))
        },
        (Phase::Polling(w), Reply::Child(status)) => match status {
            ChildStatus::Exited(how) => logging(
                cat2("[ERROR] dsh 进程意外退出: ", how.as_str()),
                doing(Effect::KillJob, step(Phase::Finished(4))),
            ),
            ChildStatus::Running => polled(w),
            ChildStatus::Unknown(e) => logging(
                cat2("[WARN] 读取 dsh 进程状态失败: ", e.as_str()),
                polled(w),
            ),
        },
        (Phase::BrowserEnd(w), Reply::Flag(ended)) => if ended {
            step(Phase::BrowserAge(w))
        } else {
            step(Phase::Napping(w))
        },
        (Phase::BrowserAge(w), Reply::Nanos(age)) => if age < BROWSER_SECS * SECOND {
            any_pre_alive(w, 0)
        } else {
            shutting_down("[INFO] 浏览器已关闭,正在关闭 DSH 服务...")
        },
        (Phase::BrowserAlive(w, i), Reply::Flag(alive)) => if alive {
            logging(
                "[WARN] 浏览器已存在实例(新进程为握手代理),改为常驻模式;通过托盘图标退出 DSH 服务".to_owned(),
                step(Phase::Napping(Watch { watching: false, before: w.before })),
            )
        } else {
            assert(i < w.before.len());
            any_pre_alive(w, i + 1)
        },
        (Phase::Napping(w), Reply::Done) => step(Phase::Pumping(w)),
        (phase, _) => step(phase),
    }
}

} // verus!
