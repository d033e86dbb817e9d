//! What the launcher asks of the system, what the system replies, and what it is told to do.
use vstd::prelude::*;

use crate::browser::{processes, Process, ProcessView};
use crate::config::outcome;
use crate::entry::{CommandLine, CommandView};
use crate::resolve::{Answer, AnswerView, Probe, ProbeView};

verus! {

/// Something that the system is asked to do or to find out, and to reply to.
pub enum Request {
    /// Have an interruption by the user noted from now on.
    InstallCtrlc,
    /// Send this text to a local port, and reply with the first bytes that come back.
    HttpGet(u16, String),
    /// Is a local port open?
    TcpOpen(u16),
    /// Which processes are there?
    ListProcesses,
    /// Open an address in the browser.
    OpenUrl(String),
    /// Answer a question of the search for an entry.
    Probe(Probe),
    /// Start a command as the service.
    Spawn(CommandLine),
    /// Make a job that ends its processes with the launcher.
    CreateJob,
    /// Put the service into the job.
    AssignJob,
    /// Has the user interrupted the launcher?
    Interrupted,
    /// What has become of the service?
    ChildStatus,
    /// How long ago was the clock started?
    Waited,
    /// Sleep for a number of milliseconds.
    Sleep(u64),
    /// Put the icon into the tray.
    TrayInit,
    /// Handle the messages that have come in.
    PumpMessages,
    /// Has the tray's menu asked for the end?
    TrayExit,
    /// Does the opened browser end within a number of milliseconds?
    BrowserEnds(u32),
    /// How long ago was the browser opened?
    BrowserAge,
    /// Is there a process of a number?
    ProcessAlive(u32),
    /// End the launcher with a code.
    Exit(i32),
}

/// The content of a [`Request`].
#[verifier::ext_equal]
pub enum RequestView {
    InstallCtrlc,
    HttpGet(u16, Seq<char>),
    TcpOpen(u16),
    ListProcesses,
    OpenUrl(Seq<char>),
    Probe(ProbeView),
    Spawn(CommandView),
    CreateJob,
    AssignJob,
    Interrupted,
    ChildStatus,
    Waited,
    Sleep(u64),
    TrayInit,
    PumpMessages,
    TrayExit,
    BrowserEnds(u32),
    BrowserAge,
    ProcessAlive(u32),
    Exit(i32),
}

impl View for Request {
    type V = RequestView;

    open spec fn view(&self) -> RequestView {
        match self {
            Request::InstallCtrlc => RequestView::InstallCtrlc,
            Request::HttpGet(port, text) => RequestView::HttpGet(*port, text@),
            Request::TcpOpen(port) => RequestView::TcpOpen(*port),
            Request::ListProcesses => RequestView::ListProcesses,
            Request::OpenUrl(url) => RequestView::OpenUrl(url@),
            Request::Probe(p) => RequestView::Probe(p@),
            Request::Spawn(c) => RequestView::Spawn(c@),
            Request::CreateJob => RequestView::CreateJob,
            Request::AssignJob => RequestView::AssignJob,
            Request::Interrupted => RequestView::Interrupted,
            Request::ChildStatus => RequestView::ChildStatus,
            Request::Waited => RequestView::Waited,
            Request::Sleep(ms) => RequestView::Sleep(*ms),
            Request::TrayInit => RequestView::TrayInit,
            Request::PumpMessages => RequestView::PumpMessages,
            Request::TrayExit => RequestView::TrayExit,
            Request::BrowserEnds(ms) => RequestView::BrowserEnds(*ms),
            Request::BrowserAge => RequestView::BrowserAge,
            Request::ProcessAlive(pid) => RequestView::ProcessAlive(*pid),
            Request::Exit(code) => RequestView::Exit(*code),
        }
    }
}

/// What has become of the service.
pub enum ChildStatus {
    /// It has ended; the text says how.
    Exited(String),
    /// It runs.
    Running,
    /// It is not known; the text says why.
    Unknown(String),
}

/// The content of a [`ChildStatus`].
pub enum ChildView {
    Exited(Seq<char>),
    Running,
    Unknown(Seq<char>),
}

impl View for ChildStatus {
    type V = ChildView;

    open spec fn view(&self) -> ChildView {
        match self {
            ChildStatus::Exited(s) => ChildView::Exited(s@),
            ChildStatus::Running => ChildView::Running,
            ChildStatus::Unknown(e) => ChildView::Unknown(e@),
        }
    }
}

/// A reply of the system.
pub enum Reply {
    /// It is done.
    Done,
    /// Yes or no.
    Flag(bool),
    /// It is done, or could not be; the text says why.
    Outcome(Result<(), String>),
    /// The bytes that came back, which are none where nothing did.
    Bytes(Vec<u8>),
    /// The answer to a question of the search.
    Answer(Answer),
    /// What has become of the service.
    Child(ChildStatus),
    /// A span of time in nanoseconds.
    Nanos(u128),
    /// The processes that there are.
    Processes(Vec<Process>),
    /// The process that was opened (zero where its number is not known), or none.
    Opened(Option<u32>),
}

/// The content of a [`Reply`].
pub enum ReplyView {
    Done,
    Flag(bool),
    Outcome(Result<(), Seq<char>>),
    Bytes(Seq<u8>),
    Answer(AnswerView),
    Child(ChildView),
    Nanos(u128),
    Processes(Seq<ProcessView>),
    Opened(Option<u32>),
}

impl View for Reply {
    type V = ReplyView;

    open spec fn view(&self) -> ReplyView {
        match self {
            Reply::Done => ReplyView::Done,
            Reply::Flag(b) => ReplyView::Flag(*b),
            Reply::Outcome(r) => ReplyView::Outcome(outcome(*r)),
            Reply::Bytes(b) => ReplyView::Bytes(b@),
            Reply::Answer(a) => ReplyView::Answer(a@),
            Reply::Child(c) => ReplyView::Child(c@),
            Reply::Nanos(n) => ReplyView::Nanos(*n),
            Reply::Processes(ps) => ReplyView::Processes(processes(ps@)),
            Reply::Opened(o) => ReplyView::Opened(*o),
        }
    }
}

/// Something that the system is told to do, without a reply.
pub enum Effect {
    /// Write a message to the log.
    Log(String),
    /// Show a message of an error.
    Popup(String),
    /// Show the help.
    Help,
    /// Start the clock.
    StartClock,
    /// End the job, where the service is in one, and take the icon out of the tray.
    KillJob,
    /// End the service.
    KillChild,
}

/// The content of an [`Effect`].
#[verifier::ext_equal]
pub enum EffectView {
    Log(Seq<char>),
    Popup(Seq<char>),
    Help,
    StartClock,
    KillJob,
    KillChild,
}

impl View for Effect {
    type V = EffectView;

    open spec fn view(&self) -> EffectView {
        match self {
            Effect::Log(m) => EffectView::Log(m@),
            Effect::Popup(m) => EffectView::Popup(m@),
            Effect::Help => EffectView::Help,
            Effect::StartClock => EffectView::StartClock,
            Effect::KillJob => EffectView::KillJob,
            Effect::KillChild => EffectView::KillChild,
        }
    }
}

/// The contents of a list of effects.
pub open spec fn effects(v: Seq<Effect>) -> Seq<EffectView> {
    v.map_values(|e: Effect| e@)
}

/// Messages for the log, one after the other.
pub open spec fn log_all(logs: Seq<Seq<char>>) -> Seq<EffectView> {
    logs.map_values(|m: Seq<char>| EffectView::Log(m))
}

} // verus!
