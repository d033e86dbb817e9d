//! What the search for an entry comes to as a whole.
//!
//! The search sees the outside world through its questions alone. A world that gives every
//! question a fixed answer settles what the search finds, and that it ends.
use vstd::prelude::*;

use crate::entry::{
    entry_by_ext, file_entry, is_launchable, is_script, node_entry, npm_command, npx_entry, sibling,
    version_command, where_command, CommandView, EntryView, SIBLINGS,
};
use crate::paths::{
    are_facts_of, are_vendor_paths, candidate_ext, ext_text, extension_in_the_name_is_known, extended, is_clean, is_dotted, is_extension, is_grounded, is_part, is_plain, is_read_as, is_settled, is_verbatim,
    settled_path_is_read_alike, sibling_has_its_extension, sibling_of_settled_path_is_settled,
    vendor_candidate_is_plain, FileView,
    VendorView,
};
use crate::resolve::{
    config_failed, consider, no_file, no_npm, resolve_first, resolve_next, trimmed_lines, vendor_from, where_from, AnswerView, NextView, OriginView,
    ProbeView, ProgressView, StageView,
};
use crate::text::{all_ascii, ascii_lowercase, utf8_lossy};

verus! {

/// An outside world that holds still.
pub struct World {
    /// What is known of the file at a path.
    pub file: spec_fn(Seq<char>) -> FileView,
    /// Whether there is a directory at a path.
    pub is_dir: spec_fn(Seq<char>) -> bool,
    /// Whether a command runs and succeeds.
    pub runs: spec_fn(CommandView) -> bool,
    /// What a command writes, if it runs and succeeds.
    pub output: spec_fn(CommandView) -> Option<Seq<u8>>,
    /// The vendor directory's places, if the launcher's own directory is known.
    pub exe_dir: Option<VendorView>,
}

impl World {
    /// The answer to a question.
    pub open spec fn answer(self, probe: ProbeView) -> AnswerView {
        match probe {
            ProbeView::File(p) => AnswerView::File((self.file)(p)),
            ProbeView::ExeDir => AnswerView::ExeDir(self.exe_dir),
            ProbeView::IsDir(p) => AnswerView::Flag((self.is_dir)(p)),
            ProbeView::Runs(c) => AnswerView::Flag((self.runs)(c)),
            ProbeView::Output(c) => AnswerView::Output((self.output)(c)),
        }
    }

    /// What is known of a file names its path, and a sibling that is there has an extension, where
    /// the file is there and has none.
    pub open spec fn sound(self) -> bool {
        &&& forall|p: Seq<char>| (#[trigger] (self.file)(p)).path == p
        &&& forall|p: Seq<char>, k: int|
            #![trigger sibling((self.file)(p), k)]
            (self.file)(p).exists && (self.file)(p).ext.len() == 0 && 0 <= k < SIBLINGS && (self.file)(
                sibling((self.file)(p), k),
            ).exists ==> (self.file)(sibling((self.file)(p), k)).ext.len() > 0
    }

    /// The entry that a file is, where the first so many of its siblings are missing: its own, or
    /// that of its first sibling that is there.
    pub open spec fn entry_of(self, f: FileView, k: int) -> Result<EntryView, Seq<char>>
        decreases SIBLINGS - k,
    {
        if f.ext.len() == 0 && 0 <= k < SIBLINGS {
            let g = (self.file)(sibling(f, k));
            if g.exists {
                entry_by_ext(g)
            } else {
                self.entry_of(f, k + 1)
            }
        } else {
            entry_by_ext(f)
        }
    }

    /// Whether an entry works: it says its version, or is taken as it is.
    pub open spec fn works(self, e: EntryView) -> bool {
        e.skip_version || (self.runs)(version_command(e))
    }

    /// What a found file leads to: a refusal ends the search, an entry that works is the result,
    /// and otherwise the search goes on.
    pub open spec fn or_on(
        self,
        r: Result<EntryView, Seq<char>>,
        on: Result<EntryView, Seq<char>>,
    ) -> Result<EntryView, Seq<char>> {
        match r {
            Err(m) => Err(m),
            Ok(e) => if self.works(e) {
                Ok(e)
            } else {
                on
            },
        }
    }

    /// The result where all other places have failed: the package through `npx`, if there is
    /// `npm`.
    pub open spec fn from_npm(self, pkg: Seq<char>) -> Result<EntryView, Seq<char>> {
        if (self.runs)(npm_command()) {
            Ok(npx_entry(pkg))
        } else {
            Err(no_npm(pkg))
        }
    }

    /// The listed file to use, from a place of the list on: the first that is there and can be
    /// started, or else the first that is there at all.
    pub open spec fn listed(
        self,
        lines: Seq<Seq<char>>,
        i: int,
        fallback: Option<FileView>,
    ) -> Option<FileView>
        decreases lines.len() - i,
    {
        if 0 <= i < lines.len() {
            let f = (self.file)(lines[i]);
            if f.exists && is_launchable(f.ext) {
                Some(f)
            } else if f.exists && fallback is None {
                self.listed(lines, i + 1, Some(f))
            } else {
                self.listed(lines, i + 1, fallback)
            }
        } else {
            fallback
        }
    }

    /// The result with the listed paths from one on still to be tried.
    pub open spec fn from_lines(
        self,
        pkg: Seq<char>,
        lines: Seq<Seq<char>>,
        i: int,
        fallback: Option<FileView>,
    ) -> Result<EntryView, Seq<char>> {
        match self.listed(lines, i, fallback) {
            Some(f) => self.or_on(self.entry_of(f, 0), self.from_npm(pkg)),
            None => self.from_npm(pkg),
        }
    }

    /// The paths that the listing of the search path names.
    pub open spec fn where_lines(self, pkg: Seq<char>) -> Seq<Seq<char>> {
        match (self.output)(where_command(pkg)) {
            Some(bytes) => trimmed_lines(utf8_lossy(bytes)),
            None => Seq::empty(),
        }
    }

    /// The result with the search path still to be tried.
    pub open spec fn from_path(self, pkg: Seq<char>) -> Result<EntryView, Seq<char>> {
        self.from_lines(pkg, self.where_lines(pkg), 0, None)
    }

    /// The result with the vendor directory's script still to be tried.
    pub open spec fn from_script(self, pkg: Seq<char>, v: VendorView) -> Result<
        EntryView,
        Seq<char>,
    > {
        if (self.file)(v.main_js).exists {
            self.or_on(Ok(node_entry(v.main_js)), self.from_path(pkg))
        } else {
            self.from_path(pkg)
        }
    }

    /// The result with the vendor directory's candidates from one on still to be tried.
    pub open spec fn from_vendor(self, pkg: Seq<char>, v: VendorView, i: int) -> Result<
        EntryView,
        Seq<char>,
    >
        decreases v.candidates.len() - i,
    {
        if 0 <= i < v.candidates.len() {
            let f = (self.file)(v.candidates[i]);
            let on = self.from_vendor(pkg, v, i + 1);
            if f.exists {
                self.or_on(self.entry_of(f, 0), on)
            } else {
                on
            }
        } else {
            self.from_script(pkg, v)
        }
    }

    /// The result where no path is configured.
    pub open spec fn from_exe_dir(self, pkg: Seq<char>) -> Result<EntryView, Seq<char>> {
        match self.exe_dir {
            Some(v) => if (self.is_dir)(v.dir) {
                self.from_vendor(pkg, v, 0)
            } else {
                self.from_path(pkg)
            },
            None => self.from_path(pkg),
        }
    }

    /// What the search finds.
    pub open spec fn resolution(self, dsh_path: Option<Seq<char>>, pkg: Seq<char>) -> Result<
        EntryView,
        Seq<char>,
    > {
        match dsh_path {
            Some(p) => if (self.file)(p).exists {
                self.or_on(self.entry_of((self.file)(p), 0), Err(config_failed(p)))
            } else {
                Err(no_file(p))
            },
            None => self.from_exe_dir(pkg),
        }
    }

    /// The result where an entry from somewhere, spoken of by a path, does not work.
    pub open spec fn after(self, pkg: Seq<char>, origin: OriginView, shown: Seq<char>) -> Result<
        EntryView,
        Seq<char>,
    > {
        match origin {
            OriginView::Config => Err(config_failed(shown)),
            OriginView::Vendor(v, i) => self.from_vendor(pkg, v, i + 1),
            OriginView::Main => self.from_path(pkg),
            OriginView::Path => self.from_npm(pkg),
        }
    }

    /// What the search finds from a stage on.
    pub open spec fn from_stage(self, pkg: Seq<char>, stage: StageView) -> Result<
        EntryView,
        Seq<char>,
    > {
        match stage {
            StageView::ConfigFile(p) => self.resolution(Some(p), pkg),
            StageView::Sibling(o, shown, f, k) => self.or_on(
                self.entry_of(f, k),
                self.after(pkg, o, shown),
            ),
            StageView::Version(o, shown, e) => self.or_on(Ok(e), self.after(pkg, o, shown)),
            StageView::ExeDir => self.from_exe_dir(pkg),
            StageView::VendorDir(v) => if (self.is_dir)(v.dir) {
                self.from_vendor(pkg, v, 0)
            } else {
                self.from_path(pkg)
            },
            StageView::VendorFile(v, i) => self.from_vendor(pkg, v, i),
            StageView::VendorMain(v) => self.from_script(pkg, v),
            StageView::Where => self.from_path(pkg),
            StageView::WhereFile(lines, i, fallback) => self.from_lines(pkg, lines, i, fallback),
            StageView::Npm => self.from_npm(pkg),
        }
    }

    /// What the search finds after a step.
    pub open spec fn from_step(self, pkg: Seq<char>, p: ProgressView) -> Result<
        EntryView,
        Seq<char>,
    > {
        match p.next {
            NextView::Ask(s) => self.from_stage(pkg, s),
            NextView::Done(r) => r,
        }
    }

    /// What the files that a stage keeps are known by is what the world knows of them.
    pub open spec fn knows(self, stage: StageView) -> bool {
        match stage {
            StageView::Sibling(_, _, f, _) => f == (self.file)(f.path) && f.exists && f.ext.len()
                == 0,
            StageView::WhereFile(_, _, Some(f)) => f == (self.file)(f.path) && f.exists,
            _ => true,
        }
    }

    /// How many more questions the stages after an entry from somewhere may ask.
    pub open spec fn rank_after(self, pkg: Seq<char>, origin: OriginView) -> int {
        let path: int = 6 + self.where_lines(pkg).len() as int;
        match origin {
            OriginView::Path => 1,
            OriginView::Main => path,
            OriginView::Vendor(v, i) => path + 2 + 6 * (v.candidates.len() - i - 1),
            OriginView::Config => 0,
        }
    }

    /// How many questions the search may ask from the one for the launcher's directory on.
    pub open spec fn rank_exe_dir(self, pkg: Seq<char>) -> int {
        let path: int = 6 + self.where_lines(pkg).len() as int;
        match self.exe_dir {
            Some(v) => path + 4 + 6 * v.candidates.len() as int,
            None => path + 1,
        }
    }

    /// How many questions the search may ask from a stage on.
    pub open spec fn rank(self, pkg: Seq<char>, stage: StageView) -> int {
        let path: int = 6 + self.where_lines(pkg).len() as int;
        match stage {
            StageView::Npm => 1,
            StageView::Version(o, _, _) => self.rank_after(pkg, o) + 1,
            StageView::Sibling(o, _, _, k) => self.rank_after(pkg, o) + 1 + (SIBLINGS - k),
            StageView::WhereFile(lines, i, _) => 5 + (lines.len() - i),
            StageView::Where => path,
            StageView::VendorMain(v) => path + 2,
            StageView::VendorFile(v, i) => path + 2 + 6 * (v.candidates.len() - i),
            StageView::VendorDir(v) => path + 3 + 6 * v.candidates.len() as int,
            StageView::ExeDir => self.rank_exe_dir(pkg),
            StageView::ConfigFile(_) => 5,
        }
    }

    /// What the search has found in a world after a number of questions, if it has come to an end.
    pub open spec fn search(self, pkg: Seq<char>, stage: StageView, questions: nat) -> Option<
        Result<EntryView, Seq<char>>,
    >
        decreases questions,
    {
        if questions == 0 {
            None
        } else {
            match resolve_next(pkg, stage, self.answer(stage.asked(pkg))).next {
                NextView::Done(r) => Some(r),
                NextView::Ask(s) => self.search(pkg, s, (questions - 1) as nat),
            }
        }
    }

    /// What a found file leads to in a world.
    proof fn lemma_consider(
        self,
        pkg: Seq<char>,
        o: OriginView,
        shown: Seq<char>,
        f: FileView,
        k: int,
    )
        requires
            self.sound(),
            o.wf(),
            f == (self.file)(f.path),
            f.exists,
            0 <= k <= SIBLINGS,
        ensures
            ({
                let p = consider(pkg, o, shown, f, k);
                let most = self.rank_after(pkg, o) + 1;
                &&& p.wf()
                &&& self.from_step(pkg, p) == self.or_on(
                    self.entry_of(f, k),
                    self.after(pkg, o, shown),
                )
                &&& p.next matches NextView::Ask(s) ==> {
                    &&& self.knows(s)
                    &&& 0 <= self.rank(pkg, s)
                    &&& self.rank(pkg, s) <= most + (if f.ext.len() == 0 {
                        SIBLINGS - k
                    } else {
                        0
                    })
                }
            }),
    {
        reveal_with_fuel(World::entry_of, 2);
    }

    /// What the listed paths from one on lead to in a world.
    proof fn lemma_where_from(
        self,
        pkg: Seq<char>,
        lines: Seq<Seq<char>>,
        i: int,
        fallback: Option<FileView>,
    )
        requires
            self.sound(),
            0 <= i <= lines.len(),
            fallback matches Some(f) ==> f == (self.file)(f.path) && f.exists,
        ensures
            ({
                let p = where_from(pkg, lines, i, fallback);
                &&& p.wf()
                &&& self.from_step(pkg, p) == self.from_lines(pkg, lines, i, fallback)
                &&& p.next matches NextView::Ask(s) ==> {
                    &&& self.knows(s)
                    &&& 0 <= self.rank(pkg, s) <= 5 + (lines.len() - i)
                }
            }),
    {
        if i == lines.len() {
            match fallback {
                Some(f) => self.lemma_consider(pkg, OriginView::Path, f.path, f, 0),
                None => {},
            }
        }
    }

    /// What the vendor directory's candidates from one on lead to in a world.
    proof fn lemma_vendor_from(self, pkg: Seq<char>, v: VendorView, i: int)
        requires
            0 <= i <= v.candidates.len(),
        ensures
            ({
                let p = vendor_from(v, i);
                let path: int = 6 + self.where_lines(pkg).len() as int;
                &&& p.wf()
                &&& self.from_step(pkg, p) == self.from_vendor(pkg, v, i)
                &&& p.next matches NextView::Ask(s) && self.knows(s) && 0 <= self.rank(pkg, s)
                    <= path + 2 + 6 * (v.candidates.len() - i)
            }),
    {
    }

    /// A stage's step keeps what the search will find, and brings its end nearer.
    pub open spec fn keeps(self, pkg: Seq<char>, stage: StageView) -> bool {
        let p = resolve_next(pkg, stage, self.answer(stage.asked(pkg)));
        &&& p.wf()
        &&& self.from_step(pkg, p) == self.from_stage(pkg, stage)
        &&& p.next matches NextView::Ask(s) ==> self.knows(s) && 0 <= self.rank(pkg, s) < self.rank(
            pkg,
            stage,
        )
    }

    proof fn lemma_config_file(self, pkg: Seq<char>, p: Seq<char>)
        requires
            self.sound(),
        ensures
            self.keeps(pkg, StageView::ConfigFile(p)),
    {
        if (self.file)(p).exists {
            self.lemma_consider(pkg, OriginView::Config, p, (self.file)(p), 0);
        }
    }

    proof fn lemma_sibling(
        self,
        pkg: Seq<char>,
        o: OriginView,
        shown: Seq<char>,
        f: FileView,
        k: int,
    )
        requires
            self.sound(),
            o.wf(),
            0 <= k < SIBLINGS,
            f == (self.file)(f.path),
            f.exists,
            f.ext.len() == 0,
        ensures
            self.keeps(pkg, StageView::Sibling(o, shown, f, k)),
    {
        let g = (self.file)(sibling(f, k));
        assert(g == (self.file)(g.path));
        assert(sibling((self.file)(f.path), k) == sibling(f, k));
        if g.exists {
            self.lemma_consider(pkg, o, shown, g, 0);
        }
        self.lemma_consider(pkg, o, shown, f, k + 1);
        assert(self.entry_of(g, 0) == entry_by_ext(g) || !g.exists);
    }

    proof fn lemma_version(self, pkg: Seq<char>, o: OriginView, shown: Seq<char>, e: EntryView)
        requires
            self.sound(),
            o.wf(),
            !e.skip_version,
        ensures
            self.keeps(pkg, StageView::Version(o, shown, e)),
    {
        match o {
            OriginView::Vendor(v, i) => self.lemma_vendor_from(pkg, v, i + 1),
            _ => {},
        }
    }

    proof fn lemma_vendor_file(self, pkg: Seq<char>, v: VendorView, i: int)
        requires
            self.sound(),
            0 <= i < v.candidates.len(),
        ensures
            self.keeps(pkg, StageView::VendorFile(v, i)),
    {
        let f = (self.file)(v.candidates[i]);
        if f.exists {
            self.lemma_consider(pkg, OriginView::Vendor(v, i), f.path, f, 0);
        }
        self.lemma_vendor_from(pkg, v, i + 1);
    }

    proof fn lemma_where_file(
        self,
        pkg: Seq<char>,
        lines: Seq<Seq<char>>,
        i: int,
        fallback: Option<FileView>,
    )
        requires
            self.sound(),
            0 <= i < lines.len(),
            self.knows(StageView::WhereFile(lines, i, fallback)),
        ensures
            self.keeps(pkg, StageView::WhereFile(lines, i, fallback)),
    {
        let f = (self.file)(lines[i]);
        self.lemma_where_from(pkg, lines, i + 1, fallback);
        if f.exists {
            self.lemma_consider(pkg, OriginView::Path, f.path, f, 0);
            self.lemma_where_from(pkg, lines, i + 1, Some(f));
        }
    }

    proof fn lemma_step(self, pkg: Seq<char>, stage: StageView)
        requires
            self.sound(),
            stage.wf(),
            self.knows(stage),
        ensures
            self.keeps(pkg, stage),
    {
        match stage {
            StageView::ConfigFile(p) => self.lemma_config_file(pkg, p),
            StageView::Sibling(o, shown, f, k) => self.lemma_sibling(pkg, o, shown, f, k),
            StageView::Version(o, shown, e) => self.lemma_version(pkg, o, shown, e),
            StageView::VendorDir(v) => self.lemma_vendor_from(pkg, v, 0),
            StageView::VendorFile(v, i) => self.lemma_vendor_file(pkg, v, i),
            StageView::Where => self.lemma_where_from(pkg, self.where_lines(pkg), 0, None),
            StageView::WhereFile(lines, i, fallback) => self.lemma_where_file(
                pkg,
                lines,
                i,
                fallback,
            ),
            _ => {},
        }
    }

    /// The search from a stage ends within its rank, with what was to be found from there.
    proof fn lemma_search(self, pkg: Seq<char>, stage: StageView, questions: nat)
        requires
            self.sound(),
            stage.wf(),
            self.knows(stage),
            0 <= self.rank(pkg, stage) <= questions,
            questions > 0,
        ensures
            self.search(pkg, stage, questions) == Some(self.from_stage(pkg, stage)),
        decreases questions,
    {
        self.lemma_step(pkg, stage);
        match resolve_next(pkg, stage, self.answer(stage.asked(pkg))).next {
            NextView::Done(_) => {},
            NextView::Ask(s) => {
                if questions == 1 {
                    assert(self.rank(pkg, s) == 0);
                    assert(false) by {
                        self.lemma_rank(pkg, s);
                    }
                }
                self.lemma_search(pkg, s, (questions - 1) as nat);
            },
        }
    }

    /// Every stage asks at least one question.
    proof fn lemma_rank(self, pkg: Seq<char>, stage: StageView)
        requires
            stage.wf(),
        ensures
            self.rank(pkg, stage) > 0,
    {
    }

    /// What the search has found in a world after a number of questions from its start, if it has
    /// come to an end.
    pub open spec fn whole_search(
        self,
        dsh_path: Option<Seq<char>>,
        pkg: Seq<char>,
        questions: nat,
    ) -> Option<Result<EntryView, Seq<char>>> {
        match resolve_first(dsh_path).next {
            NextView::Done(r) => Some(r),
            NextView::Ask(s) => self.search(pkg, s, questions),
        }
    }

    /// The most questions that the search asks: six for each candidate of the vendor directory,
    /// one for each path that is listed, and at most ten besides.
    pub open spec fn most_questions(self, pkg: Seq<char>) -> int {
        10 + self.where_lines(pkg).len() + (match self.exe_dir {
            Some(v) => 6 * v.candidates.len() as int,
            None => 0,
        })
    }
}

// ---------------------------------------------------------------------------
// Sound worlds
// ---------------------------------------------------------------------------

/// The extension that a sibling of a number is made for.
pub open spec fn sibling_ext(k: int) -> Seq<char> {
    if k == 0 {
        "cmd"@
    } else if k == 1 {
        "bat"@
    } else {
        "exe"@
    }
}

proof fn lemma_sibling_ext(k: int)
    ensures
        is_extension(sibling_ext(k)),
        all_ascii(sibling_ext(k)),
{
    reveal_strlit("cmd");
    reveal_strlit("bat");
    reveal_strlit("exe");
}

/// A world is sound where all that is known of its files goes by one way of taking paths apart (as
/// it does on any one platform), and every file without an extension lies at a plain path, with a
/// name that does not begin with two dots.
pub proof fn world_of_one_reading_is_sound(world: World, back: bool)
    requires
        forall|p: Seq<char>| is_read_as(#[trigger] (world.file)(p), p, back),
        forall|p: Seq<char>|
            (#[trigger] (world.file)(p)).exists && (world.file)(p).ext.len() == 0 ==> is_plain(p)
                && !is_dotted(p) && ext_text(p, back).len() == 0,
    ensures
        world.sound(),
{
    assert forall|p: Seq<char>, k: int|
        #![trigger sibling((world.file)(p), k)]
        (world.file)(p).exists && (world.file)(p).ext.len() == 0 && 0 <= k < SIBLINGS && (world.file)(
            sibling((world.file)(p), k),
        ).exists implies (world.file)(sibling((world.file)(p), k)).ext.len() > 0 by {
        let ext = sibling_ext(k);
        let s = sibling((world.file)(p), k);
        assert(is_read_as((world.file)(p), p, back));
        assert(s == extended(p, ext, back));
        lemma_sibling_ext(k);
        sibling_has_its_extension(p, ext, back);
        assert(is_read_as((world.file)(s), s, back));
        assert(ext_text(s, back) == ext);
    }
}

/// A world is sound where what is known of its files is what their paths say, and every file
/// without an extension lies at a settled path.
pub proof fn world_of_settled_paths_is_sound(world: World)
    requires
        forall|p: Seq<char>| are_facts_of(#[trigger] (world.file)(p), p),
        forall|p: Seq<char>|
            (#[trigger] (world.file)(p)).exists && (world.file)(p).ext.len() == 0 ==> is_settled(p)
                && ext_text(p, true).len() == 0,
    ensures
        world.sound(),
{
    assert forall|p: Seq<char>, k: int|
        #![trigger sibling((world.file)(p), k)]
        (world.file)(p).exists && (world.file)(p).ext.len() == 0 && 0 <= k < SIBLINGS && (world.file)(
            sibling((world.file)(p), k),
        ).exists implies (world.file)(sibling((world.file)(p), k)).ext.len() > 0 by {
        let ext = sibling_ext(k);
        let s = sibling((world.file)(p), k);
        settled_path_is_read_alike((world.file)(p), p, true);
        assert(s == extended(p, ext, true));
        lemma_sibling_ext(k);
        sibling_of_settled_path_is_settled(p, ext);
        settled_path_is_read_alike((world.file)(s), s, true);
    }
}

/// The search comes to an end in every world. Where a path is configured it finds that path's entry
/// or none. Otherwise it finds the entry of the first place that has one that works: the vendor
/// directory's candidates and then its script, the search path, and at last `npx`. A file of a kind
/// that cannot be started, where an entry should be, ends it.
pub proof fn search_finds_first_that_works(
    world: World,
    dsh_path: Option<Seq<char>>,
    pkg: Seq<char>,
    questions: nat,
)
    requires
        world.sound(),
        world.most_questions(pkg) <= questions,
    ensures
        world.whole_search(dsh_path, pkg, questions) == Some(world.resolution(dsh_path, pkg)),
{
    match resolve_first(dsh_path).next {
        NextView::Done(_) => {},
        NextView::Ask(s) => world.lemma_search(pkg, s, questions),
    }
}

/// An entry that is found has been asked for its version and works, unless it is the package
/// through `npx`, which is found only where there is `npm`.
pub open spec fn vouched_for(world: World, pkg: Seq<char>, e: EntryView) -> bool {
    ||| !e.skip_version && !e.slow_start && (world.runs)(version_command(e))
    ||| e == npx_entry(pkg) && (world.runs)(npm_command())
}

proof fn lemma_entry_of_plain(world: World, f: FileView, k: int)
    ensures
        world.entry_of(f, k) matches Ok(e) ==> !e.skip_version && !e.slow_start,
    decreases SIBLINGS - k,
{
    if f.ext.len() == 0 && 0 <= k < SIBLINGS {
        lemma_entry_of_plain(world, f, k + 1);
    }
}

proof fn lemma_from_path_vouched(world: World, pkg: Seq<char>)
    ensures
        world.from_path(pkg) matches Ok(e) ==> vouched_for(world, pkg, e),
{
    match world.listed(world.where_lines(pkg), 0, None) {
        Some(f) => lemma_entry_of_plain(world, f, 0),
        None => {},
    }
}

proof fn lemma_from_vendor_vouched(world: World, pkg: Seq<char>, v: VendorView, i: int)
    ensures
        world.from_vendor(pkg, v, i) matches Ok(e) ==> vouched_for(world, pkg, e),
    decreases v.candidates.len() - i,
{
    if 0 <= i < v.candidates.len() {
        lemma_from_vendor_vouched(world, pkg, v, i + 1);
        lemma_entry_of_plain(world, (world.file)(v.candidates[i]), 0);
    } else {
        lemma_from_path_vouched(world, pkg);
    }
}

/// Whatever is found works: it has said its version, or is the package through `npx` and there is
/// `npm`. Only that last one skips the version.
pub proof fn found_entry_is_vouched_for(world: World, dsh_path: Option<Seq<char>>, pkg: Seq<char>)
    ensures
        world.resolution(dsh_path, pkg) matches Ok(e) ==> vouched_for(world, pkg, e),
{
    lemma_from_path_vouched(world, pkg);
    match world.exe_dir {
        Some(v) => lemma_from_vendor_vouched(world, pkg, v, 0),
        None => {},
    }
    match dsh_path {
        Some(p) => lemma_entry_of_plain(world, (world.file)(p), 0),
        None => {},
    }
}

/// A configured path skips all other places: the result is the entry of its file, which works, or
/// none.
pub proof fn configured_path_decides(world: World, p: Seq<char>, pkg: Seq<char>)
    ensures
        world.resolution(Some(p), pkg) matches Ok(e) ==> (world.file)(p).exists && world.entry_of(
            (world.file)(p),
            0,
        ) == Ok::<EntryView, Seq<char>>(e) && world.works(e),
{
}

/// Whether the search is still with the configured path.
pub open spec fn is_with_config(stage: StageView) -> bool {
    match stage {
        StageView::ConfigFile(_) => true,
        StageView::Sibling(o, _, _, _) => o is Config,
        StageView::Version(o, _, _) => o is Config,
        _ => false,
    }
}

/// A search that begins with a configured path never asks for another place, whatever it is
/// answered: it stays with that path until it ends.
pub proof fn configured_search_stays_with_its_path(
    p: Seq<char>,
    pkg: Seq<char>,
    stage: StageView,
    answer: AnswerView,
)
    ensures
        resolve_first(Some(p)) matches ProgressView { next: NextView::Ask(s), .. }
            && is_with_config(s),
        is_with_config(stage) ==> (resolve_next(pkg, stage, answer).next matches NextView::Ask(s)
            ==> is_with_config(s)),
{
}

/// A configured entry that works is the result, whatever else there is.
pub proof fn configured_entry_wins(world: World, p: Seq<char>, pkg: Seq<char>, e: EntryView)
    requires
        (world.file)(p).exists,
        world.entry_of((world.file)(p), 0) == Ok::<EntryView, Seq<char>>(e),
        world.works(e),
    ensures
        world.resolution(Some(p), pkg) == Ok::<EntryView, Seq<char>>(e),
{
}

/// A file at a plain path that ends in a name with the extension of something that can be started is
/// never refused: its entry is the file itself, through the command interpreter for a script.
pub proof fn launchable_name_is_never_refused(
    world: World,
    path: Seq<char>,
    stem: Seq<char>,
    ext: Seq<char>,
)
    requires
        are_facts_of((world.file)(path), path),
        is_plain(path),
        stem.len() > 0,
        is_part(stem),
        is_launchable(ext),
        (stem + seq!['.'] + ext).is_suffix_of(path),
    ensures
        (world.file)(path).ext == ext,
        world.entry_of((world.file)(path), 0) == Ok::<EntryView, Seq<char>>(
            file_entry(path, is_script(ext)),
        ),
{
    lemma_sibling_ext(0);
    lemma_sibling_ext(1);
    lemma_sibling_ext(2);
    reveal_strlit("cmd");
    reveal_strlit("bat");
    reveal_strlit("exe");
    extension_in_the_name_is_known((world.file)(path), path, stem, ext);
    assert(ascii_lowercase(ext) == ext);
}

/// A candidate of the vendor directory is never refused: its entry is the file itself, a program for
/// the names in `exe` and a script for those in `cmd`. The directory is a grounded one, and clean
/// where it is verbatim.
pub proof fn vendor_candidate_is_never_refused(
    world: World,
    v: VendorView,
    exe_dir: Seq<char>,
    i: int,
)
    requires
        are_vendor_paths(v, exe_dir),
        is_grounded(v.dir),
        is_verbatim(v.dir) ==> is_clean(v.dir),
        0 <= i < v.candidates.len(),
        are_facts_of((world.file)(v.candidates[i]), v.candidates[i]),
    ensures
        world.entry_of((world.file)(v.candidates[i]), 0) == Ok::<EntryView, Seq<char>>(
            file_entry(v.candidates[i], is_script(candidate_ext(i))),
        ),
        is_script(candidate_ext(i)) == (i % 2 == 1),
{
    vendor_candidate_is_plain(v, exe_dir, i);
    reveal_strlit("dsh");
    reveal_strlit("cmd");
    reveal_strlit("bat");
    reveal_strlit("exe");
    assert("exe"@[0] != "cmd"@[0] && "exe"@[0] != "bat"@[0]);
    launchable_name_is_never_refused(world, v.candidates[i], "dsh"@, candidate_ext(i));
}

/// The candidates of the vendor directory never end the search without an entry: where none of them
/// is found, from any of them on, the search goes on with the directory's script. The directory is a
/// grounded one, and clean where it is verbatim.
pub proof fn vendor_candidates_never_end_the_search(
    world: World,
    pkg: Seq<char>,
    v: VendorView,
    exe_dir: Seq<char>,
    i: int,
)
    requires
        are_vendor_paths(v, exe_dir),
        is_grounded(v.dir),
        is_verbatim(v.dir) ==> is_clean(v.dir),
        0 <= i <= v.candidates.len(),
        forall|p: Seq<char>| are_facts_of(#[trigger] (world.file)(p), p),
    ensures
        world.from_vendor(pkg, v, i) is Err ==> world.from_vendor(pkg, v, i) == world.from_script(
            pkg,
            v,
        ),
    decreases v.candidates.len() - i,
{
    if i < v.candidates.len() {
        assert(are_facts_of((world.file)(v.candidates[i]), v.candidates[i]));
        vendor_candidate_is_never_refused(world, v, exe_dir, i);
        vendor_candidates_never_end_the_search(world, pkg, v, exe_dir, i + 1);
    }
}

/// Whether a candidate of the vendor directory is passed over: there is no file, or its entry does
/// not work.
pub open spec fn passed_over(world: World, path: Seq<char>) -> bool {
    let f = (world.file)(path);
    f.exists ==> (world.entry_of(f, 0) matches Ok(e) && !world.works(e))
}

/// Of the vendor directory's candidates, the first whose entry works is found, before the
/// directory's script and the search path are tried.
pub proof fn first_working_candidate_wins(
    world: World,
    pkg: Seq<char>,
    v: VendorView,
    i: int,
    e: EntryView,
    from: int,
)
    requires
        0 <= from <= i < v.candidates.len(),
        forall|j: int| from <= j < i ==> passed_over(world, #[trigger] v.candidates[j]),
        (world.file)(v.candidates[i]).exists,
        world.entry_of((world.file)(v.candidates[i]), 0) == Ok::<EntryView, Seq<char>>(e),
        world.works(e),
    ensures
        world.from_vendor(pkg, v, from) == Ok::<EntryView, Seq<char>>(e),
    decreases i - from,
{
    if from < i {
        assert(passed_over(world, v.candidates[from]));
        first_working_candidate_wins(world, pkg, v, i, e, from + 1);
    }
}

proof fn lemma_listed(world: World, lines: Seq<Seq<char>>, i: int, fallback: Option<FileView>, at: int)
    requires
        0 <= i <= at < lines.len(),
        (world.file)(lines[at]).exists && is_launchable((world.file)(lines[at]).ext),
        forall|j: int|
            i <= j < at ==> !((world.file)(#[trigger] lines[j]).exists && is_launchable(
                (world.file)(lines[j]).ext,
            )),
    ensures
        world.listed(lines, i, fallback) == Some((world.file)(lines[at])),
    decreases at - i,
{
    if i < at {
        let f = (world.file)(lines[i]);
        assert(!(f.exists && is_launchable(f.ext)));
        lemma_listed(world, lines, i + 1, fallback, at);
        lemma_listed(world, lines, i + 1, Some(f), at);
    }
}

/// Of the listed paths, the first that is there and can be started is used, even behind others that
/// are there.
pub proof fn launchable_file_is_preferred(world: World, lines: Seq<Seq<char>>, at: int)
    requires
        0 <= at < lines.len(),
        (world.file)(lines[at]).exists && is_launchable((world.file)(lines[at]).ext),
        forall|j: int|
            0 <= j < at ==> !((world.file)(#[trigger] lines[j]).exists && is_launchable(
                (world.file)(lines[j]).ext,
            )),
    ensures
        world.listed(lines, 0, None) == Some((world.file)(lines[at])),
{
    lemma_listed(world, lines, 0, None, at);
}

proof fn lemma_listed_kept(world: World, lines: Seq<Seq<char>>, i: int, f: FileView)
    requires
        0 <= i <= lines.len(),
        forall|j: int|
            i <= j < lines.len() ==> !((world.file)(#[trigger] lines[j]).exists && is_launchable(
                (world.file)(lines[j]).ext,
            )),
    ensures
        world.listed(lines, i, Some(f)) == Some(f),
    decreases lines.len() - i,
{
    if i < lines.len() {
        assert(!((world.file)(lines[i]).exists && is_launchable((world.file)(lines[i]).ext)));
        lemma_listed_kept(world, lines, i + 1, f);
    }
}

proof fn lemma_listed_first(world: World, lines: Seq<Seq<char>>, i: int, at: int)
    requires
        0 <= i <= at <= lines.len(),
        forall|j: int|
            i <= j < lines.len() ==> !((world.file)(#[trigger] lines[j]).exists && is_launchable(
                (world.file)(lines[j]).ext,
            )),
        forall|j: int| i <= j < at ==> !(world.file)(#[trigger] lines[j]).exists,
        at < lines.len() ==> (world.file)(lines[at]).exists,
    ensures
        world.listed(lines, i, None) == (if at < lines.len() {
            Some((world.file)(lines[at]))
        } else {
            None::<FileView>
        }),
    decreases at - i,
{
    if i < at {
        assert(!(world.file)(lines[i]).exists);
        lemma_listed_first(world, lines, i + 1, at);
    } else if i < lines.len() {
        assert(!((world.file)(lines[i]).exists && is_launchable((world.file)(lines[i]).ext)));
        lemma_listed_kept(world, lines, i + 1, (world.file)(lines[i]));
    }
}

/// Where no listed path can be started, the first that is there is used, and none where none is.
pub proof fn first_file_is_fallback(world: World, lines: Seq<Seq<char>>, at: int)
    requires
        0 <= at <= lines.len(),
        forall|j: int|
            0 <= j < lines.len() ==> !((world.file)(#[trigger] lines[j]).exists && is_launchable(
                (world.file)(lines[j]).ext,
            )),
        forall|j: int| 0 <= j < at ==> !(world.file)(#[trigger] lines[j]).exists,
        at < lines.len() ==> (world.file)(lines[at]).exists,
    ensures
        world.listed(lines, 0, None) == (if at < lines.len() {
            Some((world.file)(lines[at]))
        } else {
            None::<FileView>
        }),
{
    lemma_listed_first(world, lines, 0, at);
}

} // verus!
