//! The wait for the service to come up.
//!
//! The wait goes in rounds. A round asks in turn whether the service speaks HTTP, whether its port
//! is open, whether the user has interrupted, whether the service has ended, and how late it is;
//! then it sleeps.
use vstd::prelude::*;

use crate::net::{http_at, http_ok, http_request, request_text};
use crate::protocol::{ChildStatus, ChildView, Reply, ReplyView, Request, RequestView};
use crate::text::{cat2, decimal, texts, to_decimal};

verus! {

/// A second in nanoseconds.
pub const SECOND: u128 = 1_000_000_000;

/// How many seconds lie at least between two reports of the wait.
pub const REPORT_SECS: u128 = 5;

/// How many rounds end in a short sleep.
pub const SHORT_ROUNDS: u32 = 5;

/// What a round of the wait has asked last.
#[derive(Clone, Copy)]
pub enum WaitPhase {
    Http,
    Tcp,
    Interrupt,
    Child,
    Clock,
    Sleep(u64),
}

/// How far the wait has come.
#[derive(Clone, Copy)]
pub struct WaitState {
    pub phase: WaitPhase,
    /// How many rounds have gone to sleep, as far as that can be counted.
    pub tries: u32,
    /// When the wait was last reported, in nanoseconds from its start.
    pub last_report: u128,
    /// Whether the port was ever found open.
    pub ever_tcp: bool,
}

/// How the wait ends.
pub enum ProbeOutcome {
    /// The service is up.
    Ready,
    /// The service has ended; the text says how.
    ChildExited(String),
    /// The time is over.
    Timeout {
        /// Whether the port was ever found open.
        ever_tcp: bool,
    },
    /// The user has interrupted.
    Interrupted,
}

/// The content of a [`ProbeOutcome`].
#[verifier::ext_equal]
pub enum OutcomeView {
    Ready,
    ChildExited(Seq<char>),
    Timeout { ever_tcp: bool },
    Interrupted,
}

impl View for ProbeOutcome {
    type V = OutcomeView;

    open spec fn view(&self) -> OutcomeView {
        match self {
            ProbeOutcome::Ready => OutcomeView::Ready,
            ProbeOutcome::ChildExited(s) => OutcomeView::ChildExited(s@),
            ProbeOutcome::Timeout { ever_tcp } => OutcomeView::Timeout { ever_tcp: *ever_tcp },
            ProbeOutcome::Interrupted => OutcomeView::Interrupted,
        }
    }
}

/// Where the wait goes: on, or to its end.
pub enum WaitNext {
    Go(WaitState),
    Over(ProbeOutcome),
}

/// The content of a [`WaitNext`].
#[verifier::ext_equal]
pub enum WaitNextView {
    Go(WaitState),
    Over(OutcomeView),
}

impl View for WaitNext {
    type V = WaitNextView;

    open spec fn view(&self) -> WaitNextView {
        match self {
            WaitNext::Go(s) => WaitNextView::Go(*s),
            WaitNext::Over(o) => WaitNextView::Over(o@),
        }
    }
}

/// A step of the wait: what is to be said, and where it goes.
pub struct WaitStep {
    pub logs: Vec<String>,
    pub next: WaitNext,
}

/// The content of a [`WaitStep`].
#[verifier::ext_equal]
pub struct WaitStepView {
    pub logs: Seq<Seq<char>>,
    pub next: WaitNextView,
}

impl View for WaitStep {
    type V = WaitStepView;

    open spec fn view(&self) -> WaitStepView {
        WaitStepView { logs: texts(self.logs@), next: self.next@ }
    }
}

/// The wait at its start.
pub open spec fn wait_first() -> WaitState {
    WaitState { phase: WaitPhase::Http, tries: 0, last_report: 0, ever_tcp: false }
}

/// The wait at its start.
pub fn wait_start() -> (r: WaitState)
    ensures
        r == wait_first(),
{
    WaitState { phase: WaitPhase::Http, tries: 0, last_report: 0, ever_tcp: false }
}

impl WaitState {
    /// What is asked.
    pub open spec fn asked(self, port: u16) -> RequestView {
        match self.phase {
            WaitPhase::Http => RequestView::HttpGet(port, request_text(port)),
            WaitPhase::Tcp => RequestView::TcpOpen(port),
            WaitPhase::Interrupt => RequestView::Interrupted,
            WaitPhase::Child => RequestView::ChildStatus,
            WaitPhase::Clock => RequestView::Waited,
            WaitPhase::Sleep(ms) => RequestView::Sleep(ms),
        }
    }

    /// What to ask.
    pub fn request(&self, port: u16) -> (r: Request)
        ensures
            r@ == self.asked(port),
    {
        match self.phase {
            WaitPhase::Http => Request::HttpGet(port, http_request(port)),
            WaitPhase::Tcp => Request::TcpOpen(port),
            WaitPhase::Interrupt => Request::Interrupted,
            WaitPhase::Child => Request::ChildStatus,
            WaitPhase::Clock => Request::Waited,
            WaitPhase::Sleep(ms) => Request::Sleep(ms),
        }
    }
}

/// What is said where the service's state cannot be read.
pub open spec fn unknown_message(e: Seq<char>) -> Seq<char> {
    "[WARN] 读取 dsh 进程状态失败: "@ + e
}

/// The report of the wait: the seconds that it has taken, and that it may take.
pub open spec fn report_message(elapsed: u128, timeout_secs: u64) -> Seq<char> {
    "[INFO] 等待服务就绪... ("@ + decimal((elapsed / SECOND) as nat) + "/"@ + decimal(
        timeout_secs as nat,
    ) + ")"@
}

/// How long a round sleeps, in milliseconds: half a second at first, then a second.
pub open spec fn delay(tries: u32) -> u64 {
    if tries < SHORT_ROUNDS {
        500
    } else {
        1000
    }
}

/// Whether bytes that came back are HTTP.
pub open spec fn speaks_http(reply: Seq<u8>) -> bool {
    exists|i: int| http_at(reply, i)
}

/// The end of a round: the time is over, or the round goes to sleep, and reports the wait where
/// that is due.
pub open spec fn at_clock(s: WaitState, elapsed: u128, timeout_secs: u64) -> WaitStepView {
    if elapsed >= timeout_secs * SECOND {
        WaitStepView {
            logs: Seq::empty(),
            next: WaitNextView::Over(OutcomeView::Timeout { ever_tcp: s.ever_tcp }),
        }
    } else {
        let due = elapsed - s.last_report >= REPORT_SECS * SECOND;
        WaitStepView {
            logs: if due {
                seq![report_message(elapsed, timeout_secs)]
            } else {
                Seq::empty()
            },
            next: WaitNextView::Go(
                WaitState {
                    phase: WaitPhase::Sleep(delay(s.tries)),
                    tries: if s.tries < u32::MAX {
                        (s.tries + 1) as u32
                    } else {
                        s.tries
                    },
                    last_report: if due {
                        elapsed
                    } else {
                        s.last_report
                    },
                    ever_tcp: s.ever_tcp,
                },
            ),
        }
    }
}

/// A step that says nothing and goes on in a phase.
pub open spec fn on(s: WaitState, phase: WaitPhase) -> WaitStepView {
    WaitStepView { logs: Seq::empty(), next: WaitNextView::Go(WaitState { phase, ..s }) }
}

/// A step that says nothing and ends the wait.
pub open spec fn over(o: OutcomeView) -> WaitStepView {
    WaitStepView { logs: Seq::empty(), next: WaitNextView::Over(o) }
}

/// The step of the wait that a reply leads to.
pub open spec fn wait_next(s: WaitState, reply: ReplyView, timeout_secs: u64) -> WaitStepView {
    match (s.phase, reply) {
        (WaitPhase::Http, ReplyView::Bytes(b)) => if speaks_http(b) {
            over(OutcomeView::Ready)
        } else {
            on(s, WaitPhase::Tcp)
        },
        (WaitPhase::Tcp, ReplyView::Flag(open)) => on(
            WaitState { ever_tcp: s.ever_tcp || open, ..s },
            WaitPhase::Interrupt,
        ),
        (WaitPhase::Interrupt, ReplyView::Flag(hit)) => if hit {
            over(OutcomeView::Interrupted)
        } else {
            on(s, WaitPhase::Child)
        },
        (WaitPhase::Child, ReplyView::Child(ChildView::Exited(how))) => over(
            OutcomeView::ChildExited(how),
        ),
        (WaitPhase::Child, ReplyView::Child(ChildView::Running)) => on(s, WaitPhase::Clock),
        (WaitPhase::Child, ReplyView::Child(ChildView::Unknown(e))) => WaitStepView {
            logs: seq![unknown_message(e)],
            next: on(s, WaitPhase::Clock).next,
        },
        (WaitPhase::Clock, ReplyView::Nanos(elapsed)) => at_clock(s, elapsed, timeout_secs),
        (WaitPhase::Sleep(_), ReplyView::Done) => on(s, WaitPhase::Http),
        _ => on(s, s.phase),
    }
}

fn quiet(next: WaitNext) -> (r: WaitStep)
    ensures
        r@ == (WaitStepView { logs: Seq::empty(), next: next@ }),
{
    let logs: Vec<String> = Vec::new();
    assert(texts(logs@) == Seq::<Seq<char>>::empty());
    WaitStep { logs, next }
}

fn say(m: String, next: WaitNext) -> (r: WaitStep)
    ensures
        r@ == (WaitStepView { logs: seq![m@], next: next@ }),
{
    let mut logs: Vec<String> = Vec::new();
    logs.push(m);
    assert(texts(logs@) == seq![m@]);
    WaitStep { logs, next }
}

fn clock_step(s: WaitState, elapsed: u128, timeout_secs: u64) -> (r: WaitStep)
    ensures
        r@ == at_clock(s, elapsed, timeout_secs),
{
    let timeout: u128 = timeout_secs as u128 * SECOND;
    if elapsed >= timeout {
        return quiet(WaitNext::Over(ProbeOutcome::Timeout { ever_tcp: s.ever_tcp }));
    }
    let due: bool = elapsed >= s.last_report && elapsed - s.last_report >= REPORT_SECS * SECOND;
    let ms: u64 = if s.tries < SHORT_ROUNDS {
        500
    } else {
        1000
    };
    let next: WaitState = WaitState {
        phase: WaitPhase::Sleep(ms),
        tries: if s.tries < u32::MAX {
            s.tries + 1
        } else {
            s.tries
        },
        last_report: if due {
            elapsed
        } else {
            s.last_report
        },
        ever_tcp: s.ever_tcp,
    };
    if due {
        let mut m: String = "[INFO] 等待服务就绪... (".to_owned();
        m.append(to_decimal((elapsed / SECOND) as u64).as_str());
        m.append("/");
        m.append(to_decimal(timeout_secs).as_str());
        m.append(")");
        say(m, WaitNext::Go(next))
    } else {
        quiet(WaitNext::Go(next))
    }
}

/// Goes on with the wait from the reply to what was asked last.
///
/// A reply to another request leaves the wait where it is.
pub fn wait_ready(s: WaitState, reply: Reply, timeout_secs: u64) -> (r: WaitStep)
    ensures
        r@ == wait_next(s, reply@, timeout_secs),
{
    match (s.phase, reply) {
        (WaitPhase::Http, Reply::Bytes(b)) => if http_ok(b.as_slice()) {
            quiet(WaitNext::Over(ProbeOutcome::Ready))
        } else {
            quiet(WaitNext::Go(WaitState { phase: WaitPhase::Tcp, ..s }))
        },
        (WaitPhase::Tcp, Reply::Flag(open)) => quiet(
            WaitNext::Go(
                WaitState { phase: WaitPhase::Interrupt, ever_tcp: s.ever_tcp || open, ..s },
            ),
        ),
        (WaitPhase::Interrupt, Reply::Flag(hit)) => if hit {
            quiet(WaitNext::Over(ProbeOutcome::Interrupted))
        } else {
            quiet(WaitNext::Go(WaitState { phase: WaitPhase::Child, ..s }))
        },
        (WaitPhase::Child, Reply::Child(status)) => match status {
            ChildStatus::Exited(how) => quiet(WaitNext::Over(ProbeOutcome::ChildExited(how))),
            ChildStatus::Running => quiet(
                WaitNext::Go(WaitState { phase: WaitPhase::Clock, ..s }),
            ),
            ChildStatus::Unknown(e) => say(
                cat2("[WARN] 读取 dsh 进程状态失败: ", e.as_str()),
                WaitNext::Go(WaitState { phase: WaitPhase::Clock, ..s }),
            ),
        },
        (WaitPhase::Clock, Reply::Nanos(elapsed)) => clock_step(s, elapsed, timeout_secs),
        (WaitPhase::Sleep(_), Reply::Done) => quiet(
            WaitNext::Go(WaitState { phase: WaitPhase::Http, ..s }),
        ),
        _ => quiet(WaitNext::Go(s)),
    }
}

// ---------------------------------------------------------------------------
// The wait as a whole
// ---------------------------------------------------------------------------

/// What every round of a wait finds.
pub struct Rounds {
    pub http: spec_fn(nat) -> Seq<u8>,
    pub tcp: spec_fn(nat) -> bool,
    pub interrupted: spec_fn(nat) -> bool,
    pub child: spec_fn(nat) -> ChildView,
    pub clock: spec_fn(nat) -> u128,
}

impl Rounds {
    /// What is replied in a round.
    pub open spec fn reply(self, phase: WaitPhase, round: nat) -> ReplyView {
        match phase {
            WaitPhase::Http => ReplyView::Bytes((self.http)(round)),
            WaitPhase::Tcp => ReplyView::Flag((self.tcp)(round)),
            WaitPhase::Interrupt => ReplyView::Flag((self.interrupted)(round)),
            WaitPhase::Child => ReplyView::Child((self.child)(round)),
            WaitPhase::Clock => ReplyView::Nanos((self.clock)(round)),
            WaitPhase::Sleep(_) => ReplyView::Done,
        }
    }

    /// Whether the port was found open in a round before this one.
    pub open spec fn seen_open(self, round: nat) -> bool {
        exists|q: nat| q < round && #[trigger] (self.tcp)(q)
    }

    /// How a round ends the wait, if it does: the service is up, or else the user has interrupted,
    /// or else the service has ended, or else the time is over.
    pub open spec fn ending(self, round: nat, timeout_secs: u64) -> Option<OutcomeView> {
        if speaks_http((self.http)(round)) {
            Some(OutcomeView::Ready)
        } else if (self.interrupted)(round) {
            Some(OutcomeView::Interrupted)
        } else if (self.child)(round) is Exited {
            Some(OutcomeView::ChildExited((self.child)(round)->Exited_0))
        } else if (self.clock)(round) >= timeout_secs * SECOND {
            Some(OutcomeView::Timeout { ever_tcp: self.seen_open(round + 1) })
        } else {
            None
        }
    }

    /// How the wait has ended after a number of requests from a state in a round, if it has.
    pub open spec fn wait(self, s: WaitState, round: nat, timeout_secs: u64, requests: nat) -> Option<
        OutcomeView,
    >
        decreases requests,
    {
        if requests == 0 {
            None
        } else {
            match wait_next(s, self.reply(s.phase, round), timeout_secs).next {
                WaitNextView::Over(o) => Some(o),
                WaitNextView::Go(t) => self.wait(
                    t,
                    if s.phase is Sleep {
                        round + 1
                    } else {
                        round
                    },
                    timeout_secs,
                    (requests - 1) as nat,
                ),
            }
        }
    }

    /// The state of the wait when a round begins, where no round before it ended the wait.
    pub open spec fn at_round(self, round: nat) -> WaitState
        decreases round,
    {
        if round == 0 {
            wait_first()
        } else {
            let q = (round - 1) as nat;
            let s = self.at_round(q);
            let elapsed = (self.clock)(q);
            WaitState {
                phase: WaitPhase::Http,
                tries: if s.tries < u32::MAX {
                    (s.tries + 1) as u32
                } else {
                    s.tries
                },
                last_report: if elapsed - s.last_report >= REPORT_SECS * SECOND {
                    elapsed
                } else {
                    s.last_report
                },
                ever_tcp: s.ever_tcp || (self.tcp)(q),
            }
        }
    }

    proof fn lemma_seen(self, round: nat)
        ensures
            self.at_round(round).ever_tcp == self.seen_open(round),
            self.at_round(round).phase is Http,
        decreases round,
    {
        if round > 0 {
            let q = (round - 1) as nat;
            self.lemma_seen(q);
            if self.seen_open(round) && !self.seen_open(q) {
                let w = choose|w: nat| w < round && #[trigger] (self.tcp)(w);
                assert(w == q);
            }
            if self.seen_open(q) {
                let w = choose|w: nat| w < q && #[trigger] (self.tcp)(w);
                assert(w < round && (self.tcp)(w));
            }
            if (self.tcp)(q) {
                assert(q < round && (self.tcp)(q));
            }
        }
    }

    /// A round that does not end the wait takes six requests.
    proof fn lemma_round(self, round: nat, timeout_secs: u64, requests: nat)
        requires
            self.ending(round, timeout_secs) is None,
            requests >= 6,
        ensures
            self.wait(self.at_round(round), round, timeout_secs, requests) == self.wait(
                self.at_round(round + 1),
                round + 1,
                timeout_secs,
                (requests - 6) as nat,
            ),
    {
        self.lemma_seen(round);
        reveal_with_fuel(Rounds::wait, 7);
    }

    /// A round that ends the wait does so within five requests.
    proof fn lemma_last_round(self, round: nat, timeout_secs: u64, requests: nat)
        requires
            self.ending(round, timeout_secs) is Some,
            requests >= 6,
        ensures
            self.wait(self.at_round(round), round, timeout_secs, requests) == self.ending(
                round,
                timeout_secs,
            ),
    {
        self.lemma_seen(round);
        self.lemma_seen(round + 1);
        reveal_with_fuel(Rounds::wait, 7);
    }

    proof fn lemma_rounds(self, from: nat, last: nat, timeout_secs: u64, requests: nat)
        requires
            from <= last,
            forall|q: nat| from <= q < last ==> (#[trigger] self.ending(q, timeout_secs)) is None,
            self.ending(last, timeout_secs) is Some,
            requests >= 6 * (last - from + 1),
        ensures
            self.wait(self.at_round(from), from, timeout_secs, requests) == self.ending(
                last,
                timeout_secs,
            ),
        decreases last - from,
    {
        if from < last {
            self.lemma_round(from, timeout_secs, requests);
            self.lemma_rounds(from + 1, last, timeout_secs, (requests - 6) as nat);
        } else {
            self.lemma_last_round(last, timeout_secs, requests);
        }
    }
}

/// The wait ends in the first round that has a reason to end it, and for that reason. A wait that
/// runs out of time says whether the port was found open in any of its rounds.
pub proof fn wait_ends_in_first_decisive_round(
    rounds: Rounds,
    last: nat,
    timeout_secs: u64,
    requests: nat,
)
    requires
        forall|q: nat| q < last ==> (#[trigger] rounds.ending(q, timeout_secs)) is None,
        rounds.ending(last, timeout_secs) is Some,
        requests >= 6 * (last + 1),
    ensures
        rounds.wait(wait_first(), 0, timeout_secs, requests) == rounds.ending(last, timeout_secs),
{
    rounds.lemma_rounds(0, last, timeout_secs, requests);
}

/// The first five rounds of a wait sleep for half a second, and all later ones for a second.
pub proof fn first_rounds_sleep_short(rounds: Rounds, round: nat)
    ensures
        round <= u32::MAX ==> rounds.at_round(round).tries == round,
        round > u32::MAX ==> rounds.at_round(round).tries == u32::MAX,
        delay(rounds.at_round(round).tries) == (if round < 5 {
            500u64
        } else {
            1000u64
        }),
    decreases round,
{
    if round > 0 {
        first_rounds_sleep_short(rounds, (round - 1) as nat);
    }
}

} // verus!
