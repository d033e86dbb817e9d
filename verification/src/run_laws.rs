//! What holds of every run of the launcher.
use vstd::prelude::*;

use crate::config::ConfigView;
use crate::protocol::{log_all, ChildView, EffectView, ReplyView, RequestView};
use crate::resolve::{resolve_first, resolve_next, NextView, ProgressView, StageView};
use crate::resolve_laws::{search_finds_first_that_works, World};
use crate::run::{
    after_search, after_wait, alive_from, check_result, checking, finish, logs, resolving, run_first,
    run_next, PhaseView, PlanView, StepView, WatchView, BROWSER_SECS,
};
use crate::wait::{speaks_http, wait_first, wait_next, WaitNextView, SECOND};

verus! {

/// Whether the service has been started, and is to be ended with the run.
pub open spec fn service_up(phase: PhaseView) -> bool {
    match phase {
        PhaseView::CreatingJob => true,
        PhaseView::AssigningJob => true,
        PhaseView::Waiting(_, _) => true,
        PhaseView::Listing(leave) => !leave,
        PhaseView::Opening(_, leave) => !leave,
        PhaseView::TrayStarting(_) => true,
        PhaseView::Pumping(_) => true,
        PhaseView::TrayFlag(_) => true,
        PhaseView::CtrlcFlag(_) => true,
        PhaseView::Polling(_) => true,
        PhaseView::BrowserEnd(_) => true,
        PhaseView::BrowserAge(_) => true,
        PhaseView::BrowserAlive(_, _) => true,
        PhaseView::Napping(_) => true,
        _ => false,
    }
}

/// Whether a reply says that the service has ended by itself.
pub open spec fn says_exited(reply: ReplyView) -> bool {
    reply matches ReplyView::Child(c) && c is Exited
}

/// Whether a step ends the job.
pub open spec fn ends_job(s: StepView) -> bool {
    s.effects.contains(EffectView::KillJob)
}

/// Whether a step ends the service itself.
pub open spec fn ends_child(s: StepView) -> bool {
    s.effects.contains(EffectView::KillChild)
}

/// Whether a step shows an error.
pub open spec fn shows_error(s: StepView) -> bool {
    exists|m: Seq<char>| #[trigger] s.effects.contains(EffectView::Popup(m))
}

proof fn lemma_log_all(ms: Seq<Seq<char>>, e: EffectView)
    requires
        !(e is Log),
    ensures
        !log_all(ms).contains(e),
{
}

/// Messages put before a step change none of its other effects.
proof fn lemma_logs(ms: Seq<Seq<char>>, s: StepView, e: EffectView)
    requires
        !(e is Log),
    ensures
        logs(ms, s).effects.contains(e) == s.effects.contains(e),
{
    lemma_log_all(ms, e);
    let all = logs(ms, s).effects;
    if s.effects.contains(e) {
        let i = choose|i: int| 0 <= i < s.effects.len() && s.effects[i] == e;
        assert(all[i + log_all(ms).len()] == e);
    }
    if all.contains(e) {
        let i = choose|i: int| 0 <= i < all.len() && all[i] == e;
        if i < log_all(ms).len() {
            assert(log_all(ms)[i] == e);
        } else {
            assert(s.effects[i - log_all(ms).len()] == e);
        }
    }
}

/// A service that was started never outlives the run: as long as the run goes on it stays in its
/// care, and the step that ends the run ends the job, and the service itself unless that has ended.
pub proof fn service_is_ended_with_the_run(plan: PlanView, phase: PhaseView, reply: ReplyView)
    requires
        service_up(phase),
    ensures
        ({
            let s = run_next(plan, phase, reply);
            if s.phase is Finished {
                ends_job(s) && (ends_child(s) || says_exited(reply))
            } else {
                service_up(s.phase)
            }
        }),
{
    let s = run_next(plan, phase, reply);
    if s.phase is Finished {
        match phase {
            PhaseView::Waiting(w, secs) => {
                let p = wait_next(w, reply, secs);
                match p.next {
                    WaitNextView::Over(o) => {
                        let t = after_wait(o, secs);
                        lemma_logs(p.logs, t, EffectView::KillJob);
                        lemma_logs(p.logs, t, EffectView::KillChild);
                        assert(t.effects[1] == EffectView::KillJob);
                        if !(o is ChildExited) {
                            assert(t.effects[2] == EffectView::KillChild);
                        }
                    },
                    WaitNextView::Go(_) => {},
                }
            },
            _ => {
                assert(s.effects[1] == EffectView::KillJob);
                if !says_exited(reply) {
                    assert(s.effects[2] == EffectView::KillChild);
                }
            },
        }
    }
}

/// Nothing is ended that was not started: before the service is started no step ends a job or a
/// service.
pub proof fn nothing_is_ended_before_the_start(plan: PlanView, phase: PhaseView, reply: ReplyView)
    requires
        !service_up(phase),
    ensures
        !ends_job(run_next(plan, phase, reply)),
        !ends_child(run_next(plan, phase, reply)),
{
    let pkg = plan.settings.package;
    match (phase, reply) {
        (PhaseView::Checking(st), ReplyView::Answer(a)) => {
            lemma_checking(resolve_next(pkg, st, a));
        },
        (PhaseView::Resolving(st), ReplyView::Answer(a)) => {
            lemma_resolving(plan, resolve_next(pkg, st, a));
        },
        (PhaseView::FirstTcp, ReplyView::Flag(_)) => {
            lemma_resolving(plan, resolve_first(plan.dsh_path));
        },
        _ => {},
    }
}

/// A check logs, and does nothing else.
proof fn lemma_checking(p: ProgressView)
    ensures
        forall|e: EffectView| checking(p).effects.contains(e) ==> e is Log,
{
    assert forall|e: EffectView| checking(p).effects.contains(e) implies e is Log by {
        if !(e is Log) {
            match p.next {
                NextView::Ask(s) => {
                    lemma_logs(
                        p.logs,
                        StepView { effects: Seq::empty(), phase: PhaseView::Checking(s) },
                        e,
                    );
                },
                NextView::Done(r) => {
                    let t = logs(check_result(r).0, finish(check_result(r).1));
                    lemma_logs(p.logs, t, e);
                    lemma_logs(check_result(r).0, finish(check_result(r).1), e);
                },
            }
        }
    }
}

/// A step of the search logs, and shows an error at most.
proof fn lemma_resolving(plan: PlanView, p: ProgressView)
    ensures
        forall|e: EffectView| resolving(plan, p).effects.contains(e) ==> e is Log || e is Popup,
{
    assert forall|e: EffectView| resolving(plan, p).effects.contains(e) implies e is Log
        || e is Popup by {
        if !(e is Log) {
            match p.next {
                NextView::Ask(s) => {
                    lemma_logs(
                        p.logs,
                        StepView { effects: Seq::empty(), phase: PhaseView::Resolving(s) },
                        e,
                    );
                },
                NextView::Done(r) => {
                    lemma_logs(p.logs, after_search(plan, r), e);
                },
            }
        }
    }
}

/// The end is final: no reply leads a run that is over anywhere else, or makes it do anything.
pub proof fn end_is_final(plan: PlanView, code: i32, reply: ReplyView)
    ensures
        run_next(plan, PhaseView::Finished(code), reply) == finish(code),
{
}

/// What an exit code says of the step that led to it.
pub open spec fn code_means(phase: PhaseView, reply: ReplyView, code: i32) -> bool {
    if code == 0 {
        // The check found an entry, the service was already up, or the run was ended on purpose.
        ||| phase is Checking
        ||| phase matches PhaseView::Opening(_, leave) && leave
        ||| phase matches PhaseView::Waiting(w, _) && w.phase is Interrupt && reply
            == ReplyView::Flag(true)
        ||| (phase is TrayFlag || phase is CtrlcFlag) && reply == ReplyView::Flag(true)
        ||| phase matches PhaseView::BrowserAge(w) && (reply matches ReplyView::Nanos(age) && (age
            >= BROWSER_SECS * SECOND || w.before.len() == 0))
        ||| phase matches PhaseView::BrowserAlive(w, i) && i + 1 >= w.before.len() && reply
            == ReplyView::Flag(false)
    } else if code == 1 {
        // The service could not be started.
        phase is Spawning && (reply matches ReplyView::Outcome(r) && r is Err)
    } else if code == 2 || code == 3 {
        // The service did not come up in time; the port was found open, or never.
        phase matches PhaseView::Waiting(w, secs) && w.phase is Clock && (code == 2 <==> w.ever_tcp)
            && (reply matches ReplyView::Nanos(t) && t >= secs * SECOND)
    } else if code == 4 {
        // The service ended by itself.
        (phase is Waiting || phase is Polling) && says_exited(reply)
    } else {
        // No entry was found.
        code == 5 && (phase is Checking || phase is Resolving)
    }
}

/// Every exit code of a run that was begun has its own meaning.
pub proof fn exit_codes_have_meaning(plan: PlanView, phase: PhaseView, reply: ReplyView)
    requires
        !(phase is Finished),
    ensures
        run_next(plan, phase, reply).phase matches PhaseView::Finished(code) ==> code_means(
            phase,
            reply,
            code,
        ),
{
}

proof fn lemma_no_popup(ms: Seq<Seq<char>>, s: StepView)
    requires
        !shows_error(s),
    ensures
        !shows_error(logs(ms, s)),
{
    assert forall|m: Seq<char>| !logs(ms, s).effects.contains(EffectView::Popup(m)) by {
        lemma_logs(ms, s, EffectView::Popup(m));
        assert(!s.effects.contains(EffectView::Popup(m)));
    }
}

/// A run that fails before the service is up shows the user why, and a run that succeeds shows no
/// error.
pub proof fn failed_start_is_shown(plan: PlanView, phase: PhaseView, reply: ReplyView)
    requires
        !(phase is Finished),
    ensures
        ({
            let s = run_next(plan, phase, reply);
            s.phase matches PhaseView::Finished(code) ==> {
                &&& code == 0 ==> !shows_error(s)
                &&& code != 0 && !(phase is Checking) && !(phase is Polling) ==> shows_error(s)
            }
        }),
{
    let s = run_next(plan, phase, reply);
    let pkg = plan.settings.package;
    if s.phase is Finished {
        let code = s.phase->Finished_0;
        match (phase, reply) {
            (PhaseView::Checking(st), ReplyView::Answer(a)) => {
                lemma_checking(resolve_next(pkg, st, a));
            },
            (PhaseView::Resolving(st), ReplyView::Answer(a)) => {
                let p = resolve_next(pkg, st, a);
                let t = after_search(plan, p.next->Done_0);
                let m = t.effects[1]->Popup_0;
                lemma_logs(p.logs, t, EffectView::Popup(m));
                assert(t.effects.contains(EffectView::Popup(m)));
            },
            (PhaseView::Waiting(w, secs), _) => {
                let p = wait_next(w, reply, secs);
                let o = p.next->Over_0;
                let t = after_wait(o, secs);
                if code == 0 {
                    lemma_no_popup(p.logs, t);
                } else {
                    let m = t.effects.last()->Popup_0;
                    assert(t.effects[t.effects.len() - 1] == EffectView::Popup(m));
                    assert(t.effects.contains(EffectView::Popup(m)));
                    lemma_logs(p.logs, t, EffectView::Popup(m));
                }
            },
            (PhaseView::Spawning(_), _) => {
                let m = s.effects[1]->Popup_0;
                assert(s.effects.contains(EffectView::Popup(m)));
            },
            _ => {},
        }
    }
}

/// The address is opened only for a service that speaks HTTP.
pub proof fn browser_opens_for_a_live_service(plan: PlanView, phase: PhaseView, reply: ReplyView)
    requires
        !(phase is Listing),
        run_next(plan, phase, reply).phase is Listing,
    ensures
        reply matches ReplyView::Bytes(b) && speaks_http(b),
        phase is FirstHttp || (phase matches PhaseView::Waiting(w, _) && w.phase is Http),
{
}

/// A check starts nothing: it logs and asks the search's questions, and ends with the code 0 or 5.
pub proof fn check_starts_nothing(plan: PlanView, stage: StageView, reply: ReplyView)
    ensures
        ({
            let s = run_next(plan, PhaseView::Checking(stage), reply);
            &&& s.phase is Checking || s.phase == PhaseView::Finished(0) || s.phase
                == PhaseView::Finished(5)
            &&& forall|e: EffectView| s.effects.contains(e) ==> e is Log
            &&& s.phase.asked(plan) is Probe || s.phase.asked(plan) is Exit
        }),
{
    if reply is Answer {
        lemma_checking(resolve_next(plan.settings.package, stage, reply->Answer_0));
    }
}

/// The service is waited for as long as is set, whatever entry was started: every wait begins at its
/// start with that time, and keeps it.
pub proof fn wait_takes_the_time_that_is_set(plan: PlanView, phase: PhaseView, reply: ReplyView)
    ensures
        run_next(plan, phase, reply).phase matches PhaseView::Waiting(w, secs) ==> if phase is Waiting {
            secs == phase->Waiting_1
        } else {
            w == wait_first() && secs == plan.settings.timeout_secs
        },
{
}

// ---------------------------------------------------------------------------
// A run in a world
// ---------------------------------------------------------------------------

/// The phase that a run is in after a number of the search's questions were answered by a world,
/// or when the search has ended.
pub open spec fn after_questions(world: World, plan: PlanView, phase: PhaseView, questions: nat) -> PhaseView
    decreases questions,
{
    match phase.asked(plan) {
        RequestView::Probe(p) => if questions == 0 {
            phase
        } else {
            after_questions(
                world,
                plan,
                run_next(plan, phase, ReplyView::Answer(world.answer(p))).phase,
                (questions - 1) as nat,
            )
        },
        _ => phase,
    }
}

proof fn lemma_run_search(world: World, plan: PlanView, stage: StageView, questions: nat)
    requires
        world.search(plan.settings.package, stage, questions) is Some,
    ensures
        ({
            let r = world.search(plan.settings.package, stage, questions)->Some_0;
            &&& after_questions(world, plan, PhaseView::Resolving(stage), questions)
                == after_search(plan, r).phase
            &&& after_questions(world, plan, PhaseView::Checking(stage), questions)
                == PhaseView::Finished(check_result(r).1)
        }),
    decreases questions,
{
    let pkg = plan.settings.package;
    match resolve_next(pkg, stage, world.answer(stage.asked(pkg))).next {
        NextView::Done(r) => {
            reveal_with_fuel(after_questions, 2);
        },
        NextView::Ask(s) => lemma_run_search(world, plan, s, (questions - 1) as nat),
    }
}

/// In every world the search of a run comes to an end, and the run goes on with what the search
/// finds: it starts that entry, or ends.
pub proof fn run_starts_what_is_found(world: World, plan: PlanView, questions: nat)
    requires
        world.sound(),
        world.most_questions(plan.settings.package) <= questions,
    ensures
        after_questions(
            world,
            plan,
            resolving(plan, resolve_first(plan.dsh_path)).phase,
            questions,
        ) == after_search(
            plan,
            world.resolution(plan.dsh_path, plan.settings.package),
        ).phase,
{
    search_finds_first_that_works(world, plan.dsh_path, plan.settings.package, questions);
    let stage = resolve_first(plan.dsh_path).next->Ask_0;
    lemma_run_search(world, plan, stage, questions);
}

/// In every world a check ends, with the code 0 if the search finds an entry and 5 if not.
pub proof fn check_tells_whether_an_entry_is_found(world: World, plan: PlanView, questions: nat)
    requires
        world.sound(),
        world.most_questions(plan.settings.package) <= questions,
    ensures
        after_questions(
            world,
            plan,
            checking(resolve_first(plan.dsh_path)).phase,
            questions,
        ) == PhaseView::Finished(
            if world.resolution(plan.dsh_path, plan.settings.package) is Ok {
                0
            } else {
                5
            },
        ),
{
    search_finds_first_that_works(world, plan.dsh_path, plan.settings.package, questions);
    let stage = resolve_first(plan.dsh_path).next->Ask_0;
    lemma_run_search(world, plan, stage, questions);
}

/// A command line with a mistake ends the run at once, with the code 1 and the mistake shown, and
/// one that asks for help ends it with the help and the code 0.
pub proof fn command_line_decides_first(cfg: ConfigView, args: Seq<Seq<char>>)
    ensures
        ({
            let s = run_first(cfg, args).1;
            match crate::config::command_line(cfg, args, false).1 {
                Err(m) => s.phase == PhaseView::Finished(1) && s.effects.contains(
                    EffectView::Popup(m),
                ),
                Ok(true) => s.phase == PhaseView::Finished(0) && s.effects == seq![EffectView::Help],
                Ok(false) => if args.contains("--check"@) {
                    s.phase is Checking
                } else {
                    s.phase is Ctrlc
                },
            }
        }),
{
    let s = run_first(cfg, args).1;
    match crate::config::command_line(cfg, args, false).1 {
        Err(m) => assert(s.effects[1] == EffectView::Popup(m)),
        _ => {},
    }
}

/// The phase that a run is in when the browsers of before, from one on, have been asked for.
pub open spec fn after_alive(
    alive: spec_fn(u32) -> bool,
    plan: PlanView,
    phase: PhaseView,
    questions: nat,
) -> PhaseView
    decreases questions,
{
    match phase.asked(plan) {
        RequestView::ProcessAlive(pid) => if questions == 0 {
            phase
        } else {
            after_alive(
                alive,
                plan,
                run_next(plan, phase, ReplyView::Flag(alive(pid))).phase,
                (questions - 1) as nat,
            )
        },
        _ => phase,
    }
}

proof fn lemma_alive(
    alive: spec_fn(u32) -> bool,
    plan: PlanView,
    w: WatchView,
    i: int,
    questions: nat,
)
    requires
        0 <= i <= w.before.len(),
        questions >= w.before.len() - i,
    ensures
        after_alive(alive, plan, alive_from(w, i).phase, questions) == (if exists|j: int|
            i <= j < w.before.len() && alive(#[trigger] w.before[j]) {
            PhaseView::Napping(WatchView { watching: false, ..w })
        } else {
            PhaseView::Finished(0)
        }),
    decreases w.before.len() - i,
{
    if i < w.before.len() {
        reveal_with_fuel(after_alive, 2);
        if !alive(w.before[i]) {
            lemma_alive(alive, plan, w, i + 1, (questions - 1) as nat);
        }
    }
}

/// The end of the watched browser ends the service, unless the browser was young and one of those
/// of before is still there: then the opened one only handed the address over, and the service
/// stays.
pub proof fn browser_end_is_weighed(
    alive: spec_fn(u32) -> bool,
    plan: PlanView,
    w: WatchView,
    age: u128,
    questions: nat,
)
    requires
        questions >= w.before.len(),
    ensures
        ({
            let next = run_next(plan, PhaseView::BrowserAge(w), ReplyView::Nanos(age)).phase;
            after_alive(alive, plan, next, questions) == (if age < BROWSER_SECS * SECOND && exists|
                j: int,
            |
                0 <= j < w.before.len() && alive(#[trigger] w.before[j]) {
                PhaseView::Napping(WatchView { watching: false, ..w })
            } else {
                PhaseView::Finished(0)
            })
        }),
{
    if age < BROWSER_SECS * SECOND {
        lemma_alive(alive, plan, w, 0, questions);
    }
}

// ---------------------------------------------------------------------------
// A run as a whole
// ---------------------------------------------------------------------------

/// What a run does on a row of replies, and the phase that it comes to.
pub open spec fn follow(plan: PlanView, phase: PhaseView, replies: Seq<ReplyView>) -> StepView
    decreases replies.len(),
{
    if replies.len() == 0 {
        StepView { effects: Seq::empty(), phase }
    } else {
        let s = run_next(plan, phase, replies[0]);
        let rest = follow(plan, s.phase, replies.skip(1));
        StepView { effects: s.effects + rest.effects, phase: rest.phase }
    }
}

proof fn lemma_follow_finished(plan: PlanView, code: i32, replies: Seq<ReplyView>)
    ensures
        follow(plan, PhaseView::Finished(code), replies).phase == PhaseView::Finished(code),
    decreases replies.len(),
{
    if replies.len() > 0 {
        lemma_follow_finished(plan, code, replies.skip(1));
    }
}

/// What is among the effects of either of two steps is among those of both.
proof fn lemma_either(a: Seq<EffectView>, b: Seq<EffectView>, e: EffectView)
    ensures
        a.contains(e) || b.contains(e) ==> (a + b).contains(e),
{
    if a.contains(e) {
        let i = choose|i: int| 0 <= i < a.len() && a[i] == e;
        assert((a + b)[i] == e);
    } else if b.contains(e) {
        let i = choose|i: int| 0 <= i < b.len() && b[i] == e;
        assert((a + b)[a.len() + i] == e);
    }
}

/// Whatever the replies, a run whose service was started has it in its care until the run ends, and
/// never asks for another to be started. When it ends it has ended the job, and the service itself
/// unless a reply said that it had ended.
pub proof fn every_run_ends_its_service(plan: PlanView, phase: PhaseView, replies: Seq<ReplyView>)
    requires
        service_up(phase),
    ensures
        ({
            let t = follow(plan, phase, replies);
            &&& !(t.phase.asked(plan) is Spawn)
            &&& service_up(t.phase) || (t.phase is Finished && ends_job(t) && (ends_child(t)
                || exists|i: int| 0 <= i < replies.len() && says_exited(#[trigger] replies[i])))
        }),
    decreases replies.len(),
{
    if replies.len() > 0 {
        service_is_ended_with_the_run(plan, phase, replies[0]);
        let s = run_next(plan, phase, replies[0]);
        let rest = follow(plan, s.phase, replies.skip(1));
        lemma_either(s.effects, rest.effects, EffectView::KillJob);
        lemma_either(s.effects, rest.effects, EffectView::KillChild);
        match s.phase {
            PhaseView::Finished(code) => {
                lemma_follow_finished(plan, code, replies.skip(1));
                assert(says_exited(replies[0]) || ends_child(s));
            },
            _ => {
                every_run_ends_its_service(plan, s.phase, replies.skip(1));
                if exists|i: int| 0 <= i < replies.len() - 1 && says_exited(#[trigger] replies.skip(1)[i]) {
                    let i = choose|i: int|
                        0 <= i < replies.len() - 1 && says_exited(#[trigger] replies.skip(1)[i]);
                    assert(says_exited(replies[i + 1]));
                }
            },
        }
    }
}

/// What one round of looking after the service finds.
pub struct Look {
    pub tray: bool,
    pub interrupted: bool,
    pub child: ChildView,
    pub browser_ended: bool,
}

impl Look {
    /// What is replied in the round.
    pub open spec fn reply(self, phase: PhaseView) -> ReplyView {
        match phase {
            PhaseView::TrayFlag(_) => ReplyView::Flag(self.tray),
            PhaseView::CtrlcFlag(_) => ReplyView::Flag(self.interrupted),
            PhaseView::Polling(_) => ReplyView::Child(self.child),
            PhaseView::BrowserEnd(_) => ReplyView::Flag(self.browser_ended),
            _ => ReplyView::Done,
        }
    }

    /// The phase after a number of requests of the round.
    pub open spec fn after(self, plan: PlanView, phase: PhaseView, requests: nat) -> PhaseView
        decreases requests,
    {
        if requests == 0 {
            phase
        } else {
            self.after(
                plan,
                run_next(plan, phase, self.reply(phase)).phase,
                (requests - 1) as nat,
            )
        }
    }
}

/// Every round of looking after the service heeds the tray, the user's interruption and the
/// service's own end, in that order; where there is none of them it comes back to its start, by way
/// of the browser's end where that is watched.
pub proof fn round_heeds_every_end(plan: PlanView, w: WatchView, look: Look)
    ensures
        ({
            let start = PhaseView::Pumping(w);
            if look.tray {
                look.after(plan, start, 2) == PhaseView::Finished(0)
            } else if look.interrupted {
                look.after(plan, start, 3) == PhaseView::Finished(0)
            } else if look.child is Exited {
                look.after(plan, start, 4) == PhaseView::Finished(4)
            } else if !w.watching {
                look.after(plan, start, 5) == start
            } else if look.browser_ended {
                look.after(plan, start, 5) == PhaseView::BrowserAge(w)
            } else {
                look.after(plan, start, 6) == start
            }
        }),
{
    reveal_with_fuel(Look::after, 7);
}

} // verus!
