//! How the entry to start is found.
//!
//! A configured path is the only place that is tried. Without one the places are tried in order: the
//! vendor directory beside the launcher, the search path, and at last `npx`. The search asks one
//! question at a time of the outside world and goes on with the answer.
use vstd::prelude::*;

use crate::entry::{
    entry_from_file, file_step, is_launchable, launchable, node_entry, node_script,
    npm_command, npm_ok, npx_entry, npx_package, sibling, sibling_path, version_command, version_ok,
    where_command, where_line, CommandLine, CommandView, Entry, EntryView, FileStep, FileStepView,
    SIBLINGS,
};
use crate::paths::{FileFacts, FileView, VendorPaths, VendorView};
use crate::text::{
    cat2, cat3, from_utf8_lossy, pieces, split, texts, trim, trimmed, utf8_lossy,
};

verus! {

// ---------------------------------------------------------------------------
// Questions and answers
// ---------------------------------------------------------------------------

/// A question to the outside world.
pub enum Probe {
    /// What is known of the file at a path?
    File(String),
    /// In which directory does the launcher lie?
    ExeDir,
    /// Is there a directory at a path?
    IsDir(String),
    /// Does a command run and succeed?
    Runs(CommandLine),
    /// What does a command write, if it runs and succeeds?
    Output(CommandLine),
}

/// The content of a [`Probe`].
#[verifier::ext_equal]
pub enum ProbeView {
    File(Seq<char>),
    ExeDir,
    IsDir(Seq<char>),
    Runs(CommandView),
    Output(CommandView),
}

impl View for Probe {
    type V = ProbeView;

    open spec fn view(&self) -> ProbeView {
        match self {
            Probe::File(p) => ProbeView::File(p@),
            Probe::ExeDir => ProbeView::ExeDir,
            Probe::IsDir(p) => ProbeView::IsDir(p@),
            Probe::Runs(c) => ProbeView::Runs(c@),
            Probe::Output(c) => ProbeView::Output(c@),
        }
    }
}

/// An answer from the outside world.
pub enum Answer {
    /// Yes or no.
    Flag(bool),
    /// What is known of the file.
    File(FileFacts),
    /// The vendor directory's places, where the launcher's own directory is known.
    ExeDir(Option<VendorPaths>),
    /// What the command wrote, where it ran and succeeded.
    Output(Option<Vec<u8>>),
}

/// The content of an [`Answer`].
pub enum AnswerView {
    Flag(bool),
    File(FileView),
    ExeDir(Option<VendorView>),
    Output(Option<Seq<u8>>),
}

impl View for Answer {
    type V = AnswerView;

    open spec fn view(&self) -> AnswerView {
        match self {
            Answer::Flag(b) => AnswerView::Flag(*b),
            Answer::File(f) => AnswerView::File(f@),
            Answer::ExeDir(Some(v)) => AnswerView::ExeDir(Some(v@)),
            Answer::ExeDir(None) => AnswerView::ExeDir(None),
            Answer::Output(Some(b)) => AnswerView::Output(Some(b@)),
            Answer::Output(None) => AnswerView::Output(None),
        }
    }
}

// ---------------------------------------------------------------------------
// Stages of the search
// ---------------------------------------------------------------------------

/// Where a file or script that may be the entry comes from.
pub enum Origin {
    /// From the configuration.
    Config,
    /// From the vendor directory, the candidate of this number.
    Vendor(VendorPaths, usize),
    /// The vendor directory's script.
    Main,
    /// From the search path.
    Path,
}

/// The content of an [`Origin`].
#[verifier::ext_equal]
pub enum OriginView {
    Config,
    Vendor(VendorView, int),
    Main,
    Path,
}

impl View for Origin {
    type V = OriginView;

    open spec fn view(&self) -> OriginView {
        match self {
            Origin::Config => OriginView::Config,
            Origin::Vendor(v, i) => OriginView::Vendor(v@, *i as int),
            Origin::Main => OriginView::Main,
            Origin::Path => OriginView::Path,
        }
    }
}

/// How far the search has come: what was asked last, and what must be kept for the answer.
pub enum Stage {
    /// Asked for the configured file.
    ConfigFile(String),
    /// Asked for a sibling (of this number) of a file without an extension, which is spoken of by
    /// this path.
    Sibling(Origin, String, FileFacts, usize),
    /// Asked for the version of an entry, which is spoken of by this path.
    Version(Origin, String, Entry),
    /// Asked for the launcher's directory.
    ExeDir,
    /// Asked for the vendor directory.
    VendorDir(VendorPaths),
    /// Asked for a candidate (of this number) in the vendor directory.
    VendorFile(VendorPaths, usize),
    /// Asked for the vendor directory's script.
    VendorMain(VendorPaths),
    /// Asked where the package lies on the search path.
    Where,
    /// Asked for the file at one (of this number) of these paths; the file to use where none of
    /// them can be started comes last.
    WhereFile(Vec<String>, usize, Option<FileFacts>),
    /// Asked for `npm`.
    Npm,
}

/// The content of a [`Stage`].
#[verifier::ext_equal]
pub enum StageView {
    ConfigFile(Seq<char>),
    Sibling(OriginView, Seq<char>, FileView, int),
    Version(OriginView, Seq<char>, EntryView),
    ExeDir,
    VendorDir(VendorView),
    VendorFile(VendorView, int),
    VendorMain(VendorView),
    Where,
    WhereFile(Seq<Seq<char>>, int, Option<FileView>),
    Npm,
}

/// The content of what is known of an optional file.
pub open spec fn opt_file(f: Option<FileFacts>) -> Option<FileView> {
    match f {
        Some(f) => Some(f@),
        None => None,
    }
}

impl View for Stage {
    type V = StageView;

    open spec fn view(&self) -> StageView {
        match self {
            Stage::ConfigFile(p) => StageView::ConfigFile(p@),
            Stage::Sibling(o, shown, f, k) => StageView::Sibling(o@, shown@, f@, *k as int),
            Stage::Version(o, shown, e) => StageView::Version(o@, shown@, e@),
            Stage::ExeDir => StageView::ExeDir,
            Stage::VendorDir(v) => StageView::VendorDir(v@),
            Stage::VendorFile(v, i) => StageView::VendorFile(v@, *i as int),
            Stage::VendorMain(v) => StageView::VendorMain(v@),
            Stage::Where => StageView::Where,
            Stage::WhereFile(l, i, f) => StageView::WhereFile(texts(l@), *i as int, opt_file(*f)),
            Stage::Npm => StageView::Npm,
        }
    }
}

impl OriginView {
    /// A candidate's number is one of the vendor directory's.
    pub open spec fn wf(self) -> bool {
        self matches OriginView::Vendor(v, i) ==> 0 <= i < v.candidates.len()
    }
}

impl StageView {
    /// Every number is in range, and no version is asked of an entry that is taken as it is.
    pub open spec fn wf(self) -> bool {
        match self {
            StageView::Sibling(o, _, _, k) => o.wf() && 0 <= k < SIBLINGS,
            StageView::Version(o, _, e) => o.wf() && !e.skip_version,
            StageView::VendorFile(v, i) => 0 <= i < v.candidates.len(),
            StageView::WhereFile(l, i, _) => 0 <= i < l.len(),
            _ => true,
        }
    }

    /// The question that was asked.
    pub open spec fn asked(self, pkg: Seq<char>) -> ProbeView {
        match self {
            StageView::ConfigFile(p) => ProbeView::File(p),
            StageView::Sibling(_, _, f, k) => ProbeView::File(sibling(f, k)),
            StageView::Version(_, _, e) => ProbeView::Runs(version_command(e)),
            StageView::ExeDir => ProbeView::ExeDir,
            StageView::VendorDir(v) => ProbeView::IsDir(v.dir),
            StageView::VendorFile(v, i) => ProbeView::File(v.candidates[i]),
            StageView::VendorMain(v) => ProbeView::File(v.main_js),
            StageView::Where => ProbeView::Output(where_command(pkg)),
            StageView::WhereFile(l, i, _) => ProbeView::File(l[i]),
            StageView::Npm => ProbeView::Runs(npm_command()),
        }
    }
}

impl Stage {
    /// The question to ask.
    pub fn probe(&self, pkg: &str) -> (r: Probe)
        requires
            self@.wf(),
        ensures
            r@ == self@.asked(pkg@),
    {
        match self {
            Stage::ConfigFile(p) => Probe::File(p.clone()),
            Stage::Sibling(_, _, f, k) => Probe::File(sibling_path(f, *k)),
            Stage::Version(_, _, e) => Probe::Runs(version_ok(e).unwrap()),
            Stage::ExeDir => Probe::ExeDir,
            Stage::VendorDir(v) => Probe::IsDir(v.dir.clone()),
            Stage::VendorFile(v, i) => Probe::File(v.candidates[*i].clone()),
            Stage::VendorMain(v) => Probe::File(v.main_js.clone()),
            Stage::Where => Probe::Output(where_line(pkg)),
            Stage::WhereFile(l, i, _) => Probe::File(l[*i].clone()),
            Stage::Npm => Probe::Runs(npm_ok()),
        }
    }
}

/// Where the search goes: on to a stage, or to its end.
pub enum Next {
    Ask(Stage),
    Done(Result<Entry, String>),
}

/// The content of a [`Next`].
#[verifier::ext_equal]
pub enum NextView {
    Ask(StageView),
    Done(Result<EntryView, Seq<char>>),
}

/// The content of a search's result.
pub open spec fn found(r: Result<Entry, String>) -> Result<EntryView, Seq<char>> {
    match r {
        Ok(e) => Ok(e@),
        Err(m) => Err(m@),
    }
}

impl View for Next {
    type V = NextView;

    open spec fn view(&self) -> NextView {
        match self {
            Next::Ask(s) => NextView::Ask(s@),
            Next::Done(r) => NextView::Done(found(*r)),
        }
    }
}

/// A step of the search: what is to be said, and where it goes.
pub struct Progress {
    pub logs: Vec<String>,
    pub next: Next,
}

/// The content of a [`Progress`].
#[verifier::ext_equal]
pub struct ProgressView {
    pub logs: Seq<Seq<char>>,
    pub next: NextView,
}

impl View for Progress {
    type V = ProgressView;

    open spec fn view(&self) -> ProgressView {
        ProgressView { logs: texts(self.logs@), next: self.next@ }
    }
}

impl ProgressView {
    /// The search goes on in a stage that is well formed, or has ended.
    pub open spec fn wf(self) -> bool {
        self.next matches NextView::Ask(s) ==> s.wf()
    }
}

/// A step that says nothing and asks.
pub open spec fn ask(s: StageView) -> ProgressView {
    ProgressView { logs: Seq::empty(), next: NextView::Ask(s) }
}

/// A step that says nothing and ends the search.
pub open spec fn end(r: Result<EntryView, Seq<char>>) -> ProgressView {
    ProgressView { logs: Seq::empty(), next: NextView::Done(r) }
}

/// A step with something said before it.
pub open spec fn saying(m: Seq<char>, p: ProgressView) -> ProgressView {
    ProgressView { logs: seq![m] + p.logs, next: p.next }
}

fn quiet(next: Next) -> (r: Progress)
    ensures
        r@ == (ProgressView { logs: Seq::empty(), next: next@ }),
{
    let logs: Vec<String> = Vec::new();
    assert(texts(logs@) == Seq::<Seq<char>>::empty());
    Progress { logs, next }
}

fn say(m: String, p: Progress) -> (r: Progress)
    ensures
        r@ == saying(m@, p@),
{
    let mut logs: Vec<String> = Vec::new();
    logs.push(m);
    let mut rest: Vec<String> = p.logs;
    logs.append(&mut rest);
    assert(texts(logs@) == seq![m@] + texts(p.logs@));
    Progress { logs, next: p.next }
}

// ---------------------------------------------------------------------------
// The last resort: npx
// ---------------------------------------------------------------------------

/// What is said where there is no entry and no `npm` to fetch one with.
pub open spec fn no_npm(pkg: Seq<char>) -> Seq<char> {
    "未找到 "@ + pkg
        + " 命令,且本机无 npm/node,无法自动安装。\n  排查: 1) 安装 Node.js; 2) 将离线包放入 vendor\\dsh; 3) 或配置 dsh_path"@
}

/// The end of the search, given whether `npm` is there.
pub open spec fn after_npm(pkg: Seq<char>, there: bool) -> ProgressView {
    if there {
        saying(
            "[INFO] PATH 中无 "@ + pkg + ",改用 npx 自动拉取: npx --yes "@ + pkg,
            saying(
                "[INFO] 如需长期保留,可手动执行: npm install -g "@ + pkg,
                end(Ok(npx_entry(pkg))),
            ),
        )
    } else {
        end(Err(no_npm(pkg)))
    }
}

fn npm_answer(pkg: &str, there: bool) -> (r: Progress)
    ensures
        r@ == after_npm(pkg@, there),
{
    if there {
        let mut first: String = cat3("[INFO] PATH 中无 ", pkg, ",改用 npx 自动拉取: npx --yes ");
        first.append(pkg);
        let second: String = cat2("[INFO] 如需长期保留,可手动执行: npm install -g ", pkg);
        say(first, say(second, quiet(Next::Done(Ok(npx_package(pkg))))))
    } else {
        quiet(
            Next::Done(
                Err(
                    cat3(
                        "未找到 ",
                        pkg,
                        " 命令,且本机无 npm/node,无法自动安装。\n  排查: 1) 安装 Node.js; 2) 将离线包放入 vendor\\dsh; 3) 或配置 dsh_path",
                    ),
                ),
            ),
        )
    }
}

// ---------------------------------------------------------------------------
// A file that was found
// ---------------------------------------------------------------------------

/// What is said of an entry that is taken.
pub open spec fn hit_message(pkg: Seq<char>, origin: OriginView, shown: Seq<char>) -> Seq<char> {
    match origin {
        OriginView::Config => "[INFO] 命中配置路径: "@ + shown,
        OriginView::Vendor(_, _) => "[INFO] 命中离线 vendor 包: "@ + shown,
        OriginView::Main => "[INFO] 命中离线 vendor 包(node): "@ + shown,
        OriginView::Path => "[INFO] 命中 PATH 中的 "@ + pkg + ": "@ + shown,
    }
}

/// The search with an entry that works.
pub open spec fn take(
    pkg: Seq<char>,
    origin: OriginView,
    shown: Seq<char>,
    e: EntryView,
) -> ProgressView {
    saying(hit_message(pkg, origin, shown), end(Ok(e)))
}

/// The search in the vendor directory from a candidate on.
pub open spec fn vendor_from(v: VendorView, i: int) -> ProgressView {
    if i < v.candidates.len() {
        ask(StageView::VendorFile(v, i))
    } else {
        ask(StageView::VendorMain(v))
    }
}

/// What is said of a configured entry that does not work.
pub open spec fn config_failed(shown: Seq<char>) -> Seq<char> {
    "配置路径 "@ + shown + " 版本校验失败"@
}

/// The search with an entry that does not work: it goes on to the next place, but ends where the
/// entry was configured.
pub open spec fn pass_over(origin: OriginView, shown: Seq<char>) -> ProgressView {
    match origin {
        OriginView::Config => end(Err(config_failed(shown))),
        OriginView::Vendor(v, i) => vendor_from(v, i + 1),
        OriginView::Main => ask(StageView::Where),
        OriginView::Path => saying(
            "[WARN] PATH 中的 "@ + shown + " 版本校验失败,继续解析"@,
            ask(StageView::Npm),
        ),
    }
}

/// The search with an entry that may have to be asked for its version.
pub open spec fn weigh(
    pkg: Seq<char>,
    origin: OriginView,
    shown: Seq<char>,
    e: EntryView,
) -> ProgressView {
    if e.skip_version {
        take(pkg, origin, shown, e)
    } else {
        ask(StageView::Version(origin, shown, e))
    }
}

/// The search with a file of which a number of siblings are missing.
pub open spec fn consider(
    pkg: Seq<char>,
    origin: OriginView,
    shown: Seq<char>,
    file: FileView,
    missing: int,
) -> ProgressView {
    match file_step(file, missing) {
        FileStepView::Sibling(_) => ask(StageView::Sibling(origin, shown, file, missing)),
        FileStepView::Refused(m) => end(Err(m)),
        FileStepView::Entry(e) => weigh(pkg, origin, shown, e),
    }
}

fn take_entry(pkg: &str, origin: Origin, shown: String, e: Entry) -> (r: Progress)
    ensures
        r@ == take(pkg@, origin@, shown@, e@),
{
    let m: String = match origin {
        Origin::Config => cat2("[INFO] 命中配置路径: ", shown.as_str()),
        Origin::Vendor(_, _) => cat2("[INFO] 命中离线 vendor 包: ", shown.as_str()),
        Origin::Main => cat2("[INFO] 命中离线 vendor 包(node): ", shown.as_str()),
        Origin::Path => {
            let mut m: String = cat3("[INFO] 命中 PATH 中的 ", pkg, ": ");
            m.append(shown.as_str());
            m
        },
    };
    say(m, quiet(Next::Done(Ok(e))))
}

fn vendor_next(v: VendorPaths, i: usize) -> (r: Progress)
    ensures
        r@ == vendor_from(v@, i as int),
        r@.wf(),
{
    if i < v.candidates.len() {
        quiet(Next::Ask(Stage::VendorFile(v, i)))
    } else {
        quiet(Next::Ask(Stage::VendorMain(v)))
    }
}

fn pass_entry(origin: Origin, shown: String) -> (r: Progress)
    requires
        origin@.wf(),
    ensures
        r@ == pass_over(origin@, shown@),
        r@.wf(),
{
    match origin {
        Origin::Config => quiet(
            Next::Done(Err(cat3("配置路径 ", shown.as_str(), " 版本校验失败"))),
        ),
        Origin::Vendor(v, i) => {
            assert(i < v.candidates.len());
            vendor_next(v, i + 1)
        },
        Origin::Main => quiet(Next::Ask(Stage::Where)),
        Origin::Path => say(
            cat3("[WARN] PATH 中的 ", shown.as_str(), " 版本校验失败,继续解析"),
            quiet(Next::Ask(Stage::Npm)),
        ),
    }
}

fn weigh_entry(pkg: &str, origin: Origin, shown: String, e: Entry) -> (r: Progress)
    requires
        origin@.wf(),
    ensures
        r@ == weigh(pkg@, origin@, shown@, e@),
        r@.wf(),
{
    if e.skip_version {
        take_entry(pkg, origin, shown, e)
    } else {
        quiet(Next::Ask(Stage::Version(origin, shown, e)))
    }
}

fn consider_file(pkg: &str, origin: Origin, shown: String, file: FileFacts, missing: usize) -> (r:
    Progress)
    requires
        origin@.wf(),
    ensures
        r@ == consider(pkg@, origin@, shown@, file@, missing as int),
        r@.wf(),
{
    match entry_from_file(&file, missing) {
        FileStep::Sibling(_) => quiet(Next::Ask(Stage::Sibling(origin, shown, file, missing))),
        FileStep::Refused(m) => quiet(Next::Done(Err(m))),
        FileStep::Entry(e) => weigh_entry(pkg, origin, shown, e),
    }
}

// ---------------------------------------------------------------------------
// The search path
// ---------------------------------------------------------------------------

/// The lines of a text, each without the white space at both ends. What follows the last line
/// break is a line only where there is something.
pub open spec fn trimmed_lines(s: Seq<char>) -> Seq<Seq<char>> {
    let all = pieces(s, '\n');
    let lines = if all.last().len() == 0 {
        all.drop_last()
    } else {
        all
    };
    lines.map_values(|l: Seq<char>| trimmed(l))
}

/// A text has at least one piece.
proof fn lemma_pieces_nonempty(s: Seq<char>, c: char)
    ensures
        pieces(s, c).len() > 0,
{
}

/// The lines of a text, each without the white space at both ends.
pub fn line_texts(s: &str) -> (r: Vec<String>)
    ensures
        texts(r@) == trimmed_lines(s@),
{
    let mut all: Vec<String> = split(s, '\n');
    proof {
        lemma_pieces_nonempty(s@, '\n');
        assert(all@.len() == texts(all@).len());
        assert(texts(all@).last() == all@.last()@);
    }
    if all[all.len() - 1].as_str().is_empty() {
        let ghost before = all@;
        let _ = all.pop();
        assert(texts(all@) == texts(before).drop_last());
    }
    let mut r: Vec<String> = Vec::new();
    let mut i: usize = 0;
    while i < all.len()
        invariant
            i <= all@.len(),
            r@.len() == i,
            forall|j: int| 0 <= j < i ==> (#[trigger] r@[j])@ == trimmed(all@[j]@),
        decreases all@.len() - i,
    {
        r.push(trim(all[i].as_str()));
        i = i + 1;
    }
    assert(texts(r@) == texts(all@).map_values(|l: Seq<char>| trimmed(l)));
    r
}

/// The paths that the listing of the search path names, of the bytes that it wrote.
pub fn where_candidates(stdout: &Vec<u8>) -> (r: Vec<String>)
    ensures
        texts(r@) == trimmed_lines(utf8_lossy(stdout@)),
        vstd::utf8::valid_utf8(stdout@) ==> texts(r@) == trimmed_lines(
            vstd::utf8::decode_utf8(stdout@),
        ),
{
    line_texts(from_utf8_lossy(stdout.as_slice()).as_str())
}

/// The search among the listed paths from one on, with the file to use where none of them can be
/// started.
pub open spec fn where_from(
    pkg: Seq<char>,
    lines: Seq<Seq<char>>,
    i: int,
    fallback: Option<FileView>,
) -> ProgressView {
    if i < lines.len() {
        ask(StageView::WhereFile(lines, i, fallback))
    } else {
        match fallback {
            Some(f) => consider(pkg, OriginView::Path, f.path, f, 0),
            None => ask(StageView::Npm),
        }
    }
}

/// The search with what is known of a listed file: one that can be started is taken, and the first
/// of the others is kept.
pub open spec fn where_file(
    pkg: Seq<char>,
    lines: Seq<Seq<char>>,
    i: int,
    fallback: Option<FileView>,
    f: FileView,
) -> ProgressView {
    if f.exists && is_launchable(f.ext) {
        consider(pkg, OriginView::Path, f.path, f, 0)
    } else if f.exists && fallback is None {
        where_from(pkg, lines, i + 1, Some(f))
    } else {
        where_from(pkg, lines, i + 1, fallback)
    }
}

fn where_next(pkg: &str, lines: Vec<String>, i: usize, fallback: Option<FileFacts>) -> (r: Progress)
    ensures
        r@ == where_from(pkg@, texts(lines@), i as int, opt_file(fallback)),
        r@.wf(),
{
    if i < lines.len() {
        quiet(Next::Ask(Stage::WhereFile(lines, i, fallback)))
    } else {
        match fallback {
            Some(f) => {
                let shown: String = f.path.clone();
                consider_file(pkg, Origin::Path, shown, f, 0)
            },
            None => quiet(Next::Ask(Stage::Npm)),
        }
    }
}

/// Goes on from what is known of a file that the listing of the search path names: one that can be
/// started is taken, and the first of the others is kept for the end.
pub fn where_exe(
    pkg: &str,
    lines: Vec<String>,
    i: usize,
    fallback: Option<FileFacts>,
    f: FileFacts,
) -> (r: Progress)
    requires
        i < lines@.len(),
    ensures
        r@ == where_file(pkg@, texts(lines@), i as int, opt_file(fallback), f@),
        r@.wf(),
{
    assert(i < lines.len());
    if f.exists && launchable(f.ext.as_str()) {
        let shown: String = f.path.clone();
        consider_file(pkg, Origin::Path, shown, f, 0)
    } else if f.exists && fallback.is_none() {
        where_next(pkg, lines, i + 1, Some(f))
    } else {
        where_next(pkg, lines, i + 1, fallback)
    }
}

// ---------------------------------------------------------------------------
// The search
// ---------------------------------------------------------------------------

/// What is said of a configured path where there is no file.
pub open spec fn no_file(path: Seq<char>) -> Seq<char> {
    "配置的 dsh_path 不存在: "@ + path
}

/// The first step of the search.
pub open spec fn resolve_first(dsh_path: Option<Seq<char>>) -> ProgressView {
    match dsh_path {
        Some(p) => ask(StageView::ConfigFile(p)),
        None => ask(StageView::ExeDir),
    }
}

/// The step of the search that an answer leads to.
pub open spec fn resolve_next(pkg: Seq<char>, stage: StageView, answer: AnswerView) -> ProgressView {
    match (stage, answer) {
        (StageView::ConfigFile(p), AnswerView::File(f)) => if f.exists {
            consider(pkg, OriginView::Config, p, f, 0)
        } else {
            end(Err(no_file(p)))
        },
        (StageView::Sibling(o, shown, f, k), AnswerView::File(g)) => if g.exists {
            consider(pkg, o, shown, g, 0)
        } else {
            consider(pkg, o, shown, f, k + 1)
        },
        (StageView::Version(o, shown, e), AnswerView::Flag(ok)) => if ok {
            take(pkg, o, shown, e)
        } else {
            pass_over(o, shown)
        },
        (StageView::ExeDir, AnswerView::ExeDir(Some(v))) => ask(StageView::VendorDir(v)),
        (StageView::ExeDir, AnswerView::ExeDir(None)) => ask(StageView::Where),
        (StageView::VendorDir(v), AnswerView::Flag(there)) => if there {
            vendor_from(v, 0)
        } else {
            ask(StageView::Where)
        },
        (StageView::VendorFile(v, i), AnswerView::File(f)) => if f.exists {
            consider(pkg, OriginView::Vendor(v, i), f.path, f, 0)
        } else {
            vendor_from(v, i + 1)
        },
        (StageView::VendorMain(v), AnswerView::File(f)) => if f.exists {
            weigh(pkg, OriginView::Main, f.path, node_entry(f.path))
        } else {
            ask(StageView::Where)
        },
        (StageView::Where, AnswerView::Output(Some(bytes))) => where_from(
            pkg,
            trimmed_lines(utf8_lossy(bytes)),
            0,
            None,
        ),
        (StageView::Where, AnswerView::Output(None)) => ask(StageView::Npm),
        (StageView::WhereFile(lines, i, fallback), AnswerView::File(f)) => where_file(
            pkg,
            lines,
            i,
            fallback,
            f,
        ),
        (StageView::Npm, AnswerView::Flag(there)) => after_npm(pkg, there),
        _ => ask(stage),
    }
}

/// Begins the search: with the configured path, if there is one.
pub fn resolve_start(dsh_path: &Option<String>) -> (r: Progress)
    ensures
        r@ == resolve_first(crate::text::opt_text(*dsh_path)),
        r@.wf(),
{
    match dsh_path {
        Some(p) => quiet(Next::Ask(Stage::ConfigFile(p.clone()))),
        None => quiet(Next::Ask(Stage::ExeDir)),
    }
}

/// Goes on with the search from the answer to what was asked last.
///
/// An answer to another question leaves the search where it is.
pub fn resolve_entry(pkg: &str, stage: Stage, answer: Answer) -> (r: Progress)
    requires
        stage@.wf(),
    ensures
        r@ == resolve_next(pkg@, stage@, answer@),
        r@.wf(),
{
    match (stage, answer) {
        (Stage::ConfigFile(p), Answer::File(f)) => if f.exists {
            consider_file(pkg, Origin::Config, p, f, 0)
        } else {
            quiet(Next::Done(Err(cat2("配置的 dsh_path 不存在: ", p.as_str()))))
        },
        (Stage::Sibling(o, shown, f, k), Answer::File(g)) => if g.exists {
            consider_file(pkg, o, shown, g, 0)
        } else {
            consider_file(pkg, o, shown, f, k + 1)
        },
        (Stage::Version(o, shown, e), Answer::Flag(ok)) => if ok {
            take_entry(pkg, o, shown, e)
        } else {
            pass_entry(o, shown)
        },
        (Stage::ExeDir, Answer::ExeDir(dir)) => match dir {
            Some(v) => quiet(Next::Ask(Stage::VendorDir(v))),
            None => quiet(Next::Ask(Stage::Where)),
        },
        (Stage::VendorDir(v), Answer::Flag(there)) => if there {
            vendor_next(v, 0)
        } else {
            quiet(Next::Ask(Stage::Where))
        },
        (Stage::VendorFile(v, i), Answer::File(f)) => if f.exists {
            let shown: String = f.path.clone();
            consider_file(pkg, Origin::Vendor(v, i), shown, f, 0)
        } else {
            assert(i < v.candidates.len());
            vendor_next(v, i + 1)
        },
        (Stage::VendorMain(v), Answer::File(f)) => if f.exists {
            let e: Entry = node_script(f.path.as_str());
            weigh_entry(pkg, Origin::Main, f.path, e)
        } else {
            quiet(Next::Ask(Stage::Where))
        },
        (Stage::Where, Answer::Output(out)) => match out {
            Some(bytes) => where_next(pkg, where_candidates(&bytes), 0, None),
            None => quiet(Next::Ask(Stage::Npm)),
        },
        (Stage::WhereFile(lines, i, fallback), Answer::File(f)) => where_exe(
            pkg,
            lines,
            i,
            fallback,
            f,
        ),
        (Stage::Npm, Answer::Flag(there)) => npm_answer(pkg, there),
        (stage, _) => quiet(Next::Ask(stage)),
    }
}

} // verus!
