//! What each reply does to the wait for the service.
use vstd::prelude::*;

use crate::net::{http_at, request_text};
use crate::protocol::{ChildView, ReplyView, RequestView};
use crate::text::decimal;
use crate::wait::{
    speaks_http, wait_next, OutcomeView, WaitNextView, WaitPhase, WaitState, WaitStepView,
};

verus! {

/// The bytes `HTTP/` with others before and after them.
pub open spec fn with_http(before: Seq<u8>, after: Seq<u8>) -> Seq<u8> {
    before + seq![0x48u8, 0x54u8, 0x54u8, 0x50u8, 0x2fu8] + after
}

/// Whether the bytes `HTTP/` stand somewhere in a reply.
pub open spec fn holds_http(reply: Seq<u8>) -> bool {
    exists|before: Seq<u8>, after: Seq<u8>| reply == #[trigger] with_http(before, after)
}

/// A reply is taken for HTTP exactly where the bytes `HTTP/` stand somewhere in it, whatever its
/// length and whatever else is in it.
pub proof fn http_is_known_by_its_name(reply: Seq<u8>)
    ensures
        speaks_http(reply) <==> holds_http(reply),
{
    if holds_http(reply) {
        let (before, after) = choose|before: Seq<u8>, after: Seq<u8>|
            reply == #[trigger] with_http(before, after);
        assert(http_at(reply, before.len() as int));
    }
    if speaks_http(reply) {
        let i = choose|i: int| http_at(reply, i);
        assert(reply =~= with_http(reply.take(i), reply.skip(i + 5)));
    }
}

/// The wait is over and the service up as soon as a reply holds `HTTP/`, whatever stands before and
/// after it; with any other reply the wait goes on to the port, with all that it knows.
pub proof fn http_reply_ends_the_wait(
    s: WaitState,
    before: Seq<u8>,
    after: Seq<u8>,
    other: Seq<u8>,
    timeout_secs: u64,
)
    requires
        s.phase is Http,
        !holds_http(other),
    ensures
        wait_next(s, ReplyView::Bytes(with_http(before, after)), timeout_secs) == (WaitStepView {
            logs: Seq::empty(),
            next: WaitNextView::Over(OutcomeView::Ready),
        }),
        wait_next(s, ReplyView::Bytes(other), timeout_secs) == (WaitStepView {
            logs: Seq::empty(),
            next: WaitNextView::Go(WaitState { phase: WaitPhase::Tcp, ..s }),
        }),
{
    assert(with_http(before, after) == with_http(before, after));
    http_is_known_by_its_name(with_http(before, after));
    http_is_known_by_its_name(other);
}

/// An open port is remembered and a closed one changes nothing; either way the wait goes on to the
/// user. An interruption ends the wait, and without one it goes on to the service.
pub proof fn port_and_user_are_heeded(s: WaitState, yes: bool, timeout_secs: u64)
    ensures
        s.phase is Tcp ==> wait_next(s, ReplyView::Flag(yes), timeout_secs) == (WaitStepView {
            logs: Seq::empty(),
            next: WaitNextView::Go(
                WaitState { phase: WaitPhase::Interrupt, ever_tcp: yes || s.ever_tcp, ..s },
            ),
        }),
        s.phase is Interrupt ==> wait_next(s, ReplyView::Flag(yes), timeout_secs) == (WaitStepView {
            logs: Seq::empty(),
            next: if yes {
                WaitNextView::Over(OutcomeView::Interrupted)
            } else {
                WaitNextView::Go(WaitState { phase: WaitPhase::Child, ..s })
            },
        }),
{
}

/// The end of the service ends the wait and says how it ended; a service that runs, or of which
/// nothing is known, is waited for on, and the latter is logged.
pub proof fn service_is_heeded(s: WaitState, text: Seq<char>, timeout_secs: u64)
    requires
        s.phase is Child,
    ensures
        wait_next(s, ReplyView::Child(ChildView::Exited(text)), timeout_secs) == (WaitStepView {
            logs: Seq::empty(),
            next: WaitNextView::Over(OutcomeView::ChildExited(text)),
        }),
        wait_next(s, ReplyView::Child(ChildView::Running), timeout_secs) == (WaitStepView {
            logs: Seq::empty(),
            next: WaitNextView::Go(WaitState { phase: WaitPhase::Clock, ..s }),
        }),
        wait_next(s, ReplyView::Child(ChildView::Unknown(text)), timeout_secs) == (WaitStepView {
            logs: seq!["[WARN] 读取 dsh 进程状态失败: "@ + text],
            next: WaitNextView::Go(WaitState { phase: WaitPhase::Clock, ..s }),
        }),
{
}

/// The wait is over exactly when as many seconds have gone by as are given (a second being a
/// thousand million nanoseconds), and then says whether the port was ever open. Before that it
/// sleeps: half a second in the first five rounds, and then a second.
pub proof fn time_is_heeded(s: WaitState, elapsed: u128, timeout_secs: u64)
    requires
        s.phase is Clock,
    ensures
        ({
            let step = wait_next(s, ReplyView::Nanos(elapsed), timeout_secs);
            if elapsed >= timeout_secs * 1_000_000_000 {
                step == (WaitStepView {
                    logs: Seq::empty(),
                    next: WaitNextView::Over(OutcomeView::Timeout { ever_tcp: s.ever_tcp }),
                })
            } else {
                &&& step.next matches WaitNextView::Go(t) && t.phase == WaitPhase::Sleep(
                    if s.tries < 5 {
                        500
                    } else {
                        1000
                    },
                ) && t.ever_tcp == s.ever_tcp && t.tries == (if s.tries < u32::MAX {
                    s.tries + 1
                } else {
                    u32::MAX as int
                })
            }
        }),
{
}

/// The wait is reported, with the seconds gone by and those given, exactly when five seconds or more
/// have gone by since the last report, and that report is then the last.
pub proof fn wait_is_reported(s: WaitState, elapsed: u128, timeout_secs: u64)
    requires
        s.phase is Clock,
        elapsed < timeout_secs * 1_000_000_000,
    ensures
        ({
            let step = wait_next(s, ReplyView::Nanos(elapsed), timeout_secs);
            let due = elapsed >= s.last_report + 5_000_000_000;
            &&& step.logs == (if due {
                seq![
                    "[INFO] 等待服务就绪... ("@ + decimal((elapsed / 1_000_000_000) as nat) + "/"@
                        + decimal(timeout_secs as nat) + ")"@,
                ]
            } else {
                Seq::<Seq<char>>::empty()
            })
            &&& step.next->Go_0.last_report == (if due {
                elapsed
            } else {
                s.last_report
            })
        }),
{
}

/// After its sleep a round begins anew, with all that the wait knows.
pub proof fn sleep_leads_to_the_next_round(s: WaitState, ms: u64, timeout_secs: u64)
    requires
        s.phase == WaitPhase::Sleep(ms),
    ensures
        wait_next(s, ReplyView::Done, timeout_secs) == (WaitStepView {
            logs: Seq::empty(),
            next: WaitNextView::Go(WaitState { phase: WaitPhase::Http, ..s }),
        }),
{
}

/// Every look of a wait is at the port that it is for, and every sleep is as long as it says.
pub proof fn wait_looks_at_its_port(s: WaitState, port: u16, ms: u64)
    ensures
        s.phase is Http ==> s.asked(port) == RequestView::HttpGet(port, request_text(port)),
        s.phase is Tcp ==> s.asked(port) == RequestView::TcpOpen(port),
        s.phase is Interrupt ==> s.asked(port) is Interrupted,
        s.phase is Child ==> s.asked(port) is ChildStatus,
        s.phase is Clock ==> s.asked(port) is Waited,
        s.phase == WaitPhase::Sleep(ms) ==> s.asked(port) == RequestView::Sleep(ms),
{
}

} // verus!
