//! The browser that shows the service, and the processes that belong to one.
use vstd::prelude::*;

use crate::text::{all_ascii, ascii_lowercase, cat2, cat3, lowercase, same, to_lower};
use crate::utf16::{buffer_text, text_before_the_zero_is_read, units, until_zero, utf16_lossy};

verus! {

/// A process of the system.
pub struct Process {
    /// Its number.
    pub pid: u32,
    /// The buffer with the name of its program.
    pub exe: Vec<u16>,
}

/// The content of a [`Process`].
#[verifier::ext_equal]
pub struct ProcessView {
    pub pid: u32,
    pub exe: Seq<u16>,
}

impl View for Process {
    type V = ProcessView;

    open spec fn view(&self) -> ProcessView {
        ProcessView { pid: self.pid, exe: self.exe@ }
    }
}

/// The contents of a list of processes.
pub open spec fn processes(v: Seq<Process>) -> Seq<ProcessView> {
    v.map_values(|p: Process| p@)
}

/// The programs that are browsers.
pub open spec fn browser_names() -> Seq<Seq<char>> {
    seq![
        "msedge.exe"@,
        "chrome.exe"@,
        "firefox.exe"@,
        "opera.exe"@,
        "brave.exe"@,
        "vivaldi.exe"@,
        "360se.exe"@,
        "360chrome.exe"@,
        "qqbrowser.exe"@,
        "sogouexplorer.exe"@,
        "iexplore.exe"@,
    ]
}

/// Whether a program's name, in lower case, is a browser's.
pub fn is_browser(name: &str) -> (r: bool)
    ensures
        r == browser_names().contains(name@),
{
    let r: bool = same(name, "msedge.exe") || same(name, "chrome.exe") || same(name, "firefox.exe")
        || same(name, "opera.exe") || same(name, "brave.exe") || same(name, "vivaldi.exe") || same(
        name,
        "360se.exe",
    ) || same(name, "360chrome.exe") || same(name, "qqbrowser.exe") || same(
        name,
        "sogouexplorer.exe",
    ) || same(name, "iexplore.exe");
    proof {
        let names = browser_names();
        assert(names[0] == "msedge.exe"@);
        assert(names[1] == "chrome.exe"@);
        assert(names[2] == "firefox.exe"@);
        assert(names[3] == "opera.exe"@);
        assert(names[4] == "brave.exe"@);
        assert(names[5] == "vivaldi.exe"@);
        assert(names[6] == "360se.exe"@);
        assert(names[7] == "360chrome.exe"@);
        assert(names[8] == "qqbrowser.exe"@);
        assert(names[9] == "sogouexplorer.exe"@);
        assert(names[10] == "iexplore.exe"@);
    }
    r
}

/// The name of a process's program.
pub open spec fn program_name(p: ProcessView) -> Seq<char> {
    utf16_lossy(until_zero(p.exe))
}

/// Whether a process is a browser's, whatever the case of its program's name.
pub open spec fn is_browser_process(p: ProcessView) -> bool {
    browser_names().contains(lowercase(program_name(p)))
}

/// Whether a process is known for a browser's, or for none, by its program's name where that is of
/// ASCII characters alone.
pub open spec fn is_known_by_ascii(p: ProcessView) -> bool {
    all_ascii(program_name(p)) ==> is_browser_process(p) == browser_names().contains(
        ascii_lowercase(program_name(p)),
    )
}

/// The numbers of the browsers' processes, in the order of the list.
pub open spec fn browser_ids(ps: Seq<ProcessView>) -> Seq<u32>
    decreases ps.len(),
{
    if ps.len() == 0 {
        Seq::empty()
    } else if is_browser_process(ps.last()) {
        browser_ids(ps.drop_last()).push(ps.last().pid)
    } else {
        browser_ids(ps.drop_last())
    }
}

/// The numbers of the browsers' processes.
pub fn browser_pids(ps: &Vec<Process>) -> (r: Vec<u32>)
    ensures
        r@ == browser_ids(processes(ps@)),
        forall|i: int| 0 <= i < ps@.len() ==> is_known_by_ascii((#[trigger] ps@[i])@),
{
    let mut r: Vec<u32> = Vec::new();
    let mut i: usize = 0;
    let ghost all = processes(ps@);
    while i < ps.len()
        invariant
            i <= ps@.len(),
            all == processes(ps@),
            r@ == browser_ids(all.take(i as int)),
            forall|j: int| 0 <= j < i ==> is_known_by_ascii((#[trigger] ps@[j])@),
        decreases ps@.len() - i,
    {
        proof {
            assert(all.take(i + 1).drop_last() == all.take(i as int));
            assert(all.take(i + 1).last() == ps@[i as int]@);
        }
        let name: String = to_lower(buffer_text(&ps[i].exe).as_str());
        if is_browser(name.as_str()) {
            r.push(ps[i].pid);
        }
        i = i + 1;
    }
    assert(all.take(ps@.len() as int) == all);
    r
}

/// Whether a list of numbers holds one.
pub fn has_pid(pids: &Vec<u32>, pid: u32) -> (r: bool)
    ensures
        r == pids@.contains(pid),
{
    let mut i: usize = 0;
    while i < pids.len()
        invariant
            i <= pids@.len(),
            forall|j: int| 0 <= j < i ==> pids@[j] != pid,
        decreases pids@.len() - i,
    {
        if pids[i] == pid {
            return true;
        }
        i = i + 1;
    }
    false
}

/// Whether the opened process is a browser of its own, whose end means that it was closed: it is
/// known, and was not there before.
pub open spec fn is_fresh(opened: Option<u32>, before: Seq<u32>) -> bool {
    opened matches Some(pid) && pid != 0 && !before.contains(pid)
}

/// What is said of the opening of an address.
pub open spec fn open_message(url: Seq<char>, opened: Option<u32>) -> Seq<char> {
    if opened is Some {
        "[INFO] 已在浏览器打开: "@ + url
    } else {
        "[WARN] 打开浏览器失败,请手动访问: "@ + url
            + " (启动器将常驻,关闭窗口或按 Ctrl+C 关闭 DSH 服务)"@
    }
}

/// What is said of the opening of an address, and whether the browser is one to watch, given the
/// process that was opened (zero where its number is not known) and the browsers of before.
pub fn open_browser_watch(url: &str, opened: Option<u32>, before: &Vec<u32>) -> (r: (String, bool))
    ensures
        r.0@ == open_message(url@, opened),
        r.1 == is_fresh(opened, before@),
{
    match opened {
        Some(pid) => (cat2("[INFO] 已在浏览器打开: ", url), pid != 0 && !has_pid(before, pid)),
        None => (
            cat3(
                "[WARN] 打开浏览器失败,请手动访问: ",
                url,
                " (启动器将常驻,关闭窗口或按 Ctrl+C 关闭 DSH 服务)",
            ),
            false,
        ),
    }
}

/// The numbers that are found are those of the listed browsers, and no others.
pub proof fn browser_ids_are_of_browsers(ps: Seq<ProcessView>, pid: u32)
    ensures
        browser_ids(ps).contains(pid) <==> exists|i: int|
            0 <= i < ps.len() && is_browser_process(#[trigger] ps[i]) && ps[i].pid == pid,
    decreases ps.len(),
{
    if ps.len() > 0 {
        let front = ps.drop_last();
        let ids = browser_ids(front);
        browser_ids_are_of_browsers(front, pid);
        if ids.contains(pid) {
            let i = choose|i: int|
                0 <= i < front.len() && is_browser_process(#[trigger] front[i]) && front[i].pid
                    == pid;
            assert(ps[i] == front[i]);
            let j = choose|j: int| 0 <= j < ids.len() && ids[j] == pid;
            assert(browser_ids(ps)[j] == pid);
        } else if is_browser_process(ps.last()) && ps.last().pid == pid {
            assert(ps[ps.len() - 1] == ps.last());
            assert(browser_ids(ps)[ids.len() as int] == pid);
        } else {
            if browser_ids(ps).contains(pid) {
                let j = choose|j: int| 0 <= j < browser_ids(ps).len() && browser_ids(ps)[j] == pid;
                assert(j < ids.len());
                assert(ids[j] == pid);
            }
            assert forall|i: int| 0 <= i < ps.len() && is_browser_process(#[trigger] ps[i])
                implies ps[i].pid != pid by {
                if i < front.len() {
                    assert(front[i] == ps[i]);
                }
            }
        }
    }
}

/// A browser is fresh exactly where its process is known and was not among those of before, however
/// many they were.
pub proof fn browser_is_fresh_where_it_is_new(pid: u32, before: Seq<u32>)
    ensures
        is_fresh(Some(pid), before) <==> pid != 0 && forall|i: int|
            0 <= i < before.len() ==> before[i] != pid,
        !is_fresh(None, before),
{
    if pid != 0 && !is_fresh(Some(pid), before) {
        let i = choose|i: int| 0 <= i < before.len() && before[i] == pid;
        assert(before[i] == pid);
    }
}

/// The browsers of two lists are those of the first and then those of the second, and a process
/// alone is there exactly where it is a browser's.
pub proof fn browsers_of_two_lists(a: Seq<ProcessView>, p: ProcessView, b: Seq<ProcessView>)
    ensures
        browser_ids(a + b) == browser_ids(a) + browser_ids(b),
        browser_ids(seq![p]) == (if is_browser_process(p) {
            seq![p.pid]
        } else {
            Seq::<u32>::empty()
        }),
    decreases b.len(),
{
    assert(seq![p].drop_last() == Seq::<ProcessView>::empty());
    assert(seq![p].last() == p);
    assert(browser_ids(Seq::<ProcessView>::empty()) == Seq::<u32>::empty());
    assert(Seq::<u32>::empty().push(p.pid) =~= seq![p.pid]);
    if b.len() == 0 {
        assert(a + b == a);
        assert(browser_ids(a) + browser_ids(b) == browser_ids(a));
    } else {
        assert((a + b).drop_last() == a + b.drop_last());
        browsers_of_two_lists(a, p, b.drop_last());
        assert(browser_ids(a + b) =~= browser_ids(a) + browser_ids(b));
    }
}

/// A process is a browser's exactly where the name in its buffer, up to the first zero, is in lower
/// case that of one of the eleven browsers, whatever stands behind the zero.
pub proof fn browser_is_known_by_its_program(pid: u32, name: Seq<char>, rest: Seq<u16>)
    requires
        !name.contains('\0'),
    ensures
        ({
            let n = lowercase(name);
            is_browser_process(ProcessView { pid, exe: units(name) + seq![0u16] + rest }) <==> {
                ||| n == "msedge.exe"@
                ||| n == "chrome.exe"@
                ||| n == "firefox.exe"@
                ||| n == "opera.exe"@
                ||| n == "brave.exe"@
                ||| n == "vivaldi.exe"@
                ||| n == "360se.exe"@
                ||| n == "360chrome.exe"@
                ||| n == "qqbrowser.exe"@
                ||| n == "sogouexplorer.exe"@
                ||| n == "iexplore.exe"@
            }
        }),
{
    text_before_the_zero_is_read(name, rest);
    let names = browser_names();
    assert(names[0] == "msedge.exe"@);
    assert(names[1] == "chrome.exe"@);
    assert(names[2] == "firefox.exe"@);
    assert(names[3] == "opera.exe"@);
    assert(names[4] == "brave.exe"@);
    assert(names[5] == "vivaldi.exe"@);
    assert(names[6] == "360se.exe"@);
    assert(names[7] == "360chrome.exe"@);
    assert(names[8] == "qqbrowser.exe"@);
    assert(names[9] == "sogouexplorer.exe"@);
    assert(names[10] == "iexplore.exe"@);
}

} // verus!
