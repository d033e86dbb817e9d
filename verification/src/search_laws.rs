//! What the search finds, place by place, and how the listing of the search path is read.
use vstd::prelude::*;

use crate::entry::{is_launchable, version_command, CommandView, EntryView};
use crate::entry_laws::every_argument_is_handed_over;
use crate::paths::{FileView, VendorView};
use crate::resolve::{
    resolve_next, trimmed_lines, AnswerView, NextView, OriginView, ProgressView, StageView,
};
use crate::resolve_laws::{search_finds_first_that_works, World};
use crate::text::{is_space, lemma_pieces_apart, lemma_pieces_one, pieces, trimmed, utf8_lossy};
use crate::text_laws::{is_blank, is_tight, trimming_takes_the_ends_alone};

verus! {

// ---------------------------------------------------------------------------
// The listing of the search path
// ---------------------------------------------------------------------------

/// The lines of a text are read one by one: the first up to its line break, and the others as the
/// lines of the rest. What follows the last line break is a line only where there is something.
pub proof fn lines_are_read_one_by_one(l: Seq<char>, rest: Seq<char>)
    requires
        !l.contains('\n'),
    ensures
        trimmed_lines(l + seq!['\n'] + rest) == seq![trimmed(l)] + trimmed_lines(rest),
        l.len() > 0 ==> trimmed_lines(l) == seq![trimmed(l)],
        trimmed_lines(Seq::empty()) == Seq::<Seq<char>>::empty(),
{
    let none = Seq::<char>::empty();
    lemma_pieces_one(none, '\n');
    assert(seq![none].drop_last() =~= Seq::<Seq<char>>::empty());
    assert(trimmed_lines(none) =~= Seq::<Seq<char>>::empty());
    lemma_pieces_one(l, '\n');
    if l.len() > 0 {
        assert(trimmed_lines(l) =~= seq![trimmed(l)]);
    }
    lemma_pieces_apart(l, '\n', rest);
    let more = pieces(rest, '\n');
    let all = seq![l] + more;
    assert(more.len() > 0);
    assert(all.last() == more.last());
    assert(all.drop_last() =~= seq![l] + more.drop_last());
    assert(trimmed_lines(l + seq!['\n'] + rest) =~= seq![trimmed(l)] + trimmed_lines(rest));
}

/// A path that is listed on a line of its own is taken whole, with all that is in it: for every text
/// that neither begins nor ends with white space, however much there is inside, whatever white space
/// stands around it on its line.
pub proof fn listed_path_is_taken_whole(
    a: Seq<char>,
    p: Seq<char>,
    b: Seq<char>,
    rest: Seq<char>,
)
    requires
        is_blank(a),
        is_blank(b),
        is_tight(p),
        p.len() > 0,
        !a.contains('\n'),
        !p.contains('\n'),
        !b.contains('\n'),
    ensures
        trimmed_lines(a + p + b + seq!['\n'] + rest) == seq![p] + trimmed_lines(rest),
        trimmed_lines(p + seq!['\r', '\n'] + rest) == seq![p] + trimmed_lines(rest),
        trimmed_lines(a + p + b) == seq![p],
{
    let l = a + p + b;
    lemma_no_break(a, p);
    lemma_no_break(a + p, b);
    trimming_takes_the_ends_alone(a, p, b);
    lines_are_read_one_by_one(l, rest);
    let cr = seq!['\r'];
    let none = Seq::<char>::empty();
    assert(is_blank(cr)) by {
        assert(is_space('\r'));
    }
    lemma_no_break(p, cr);
    trimming_takes_the_ends_alone(none, p, cr);
    assert(none + p + cr == p + cr);
    lines_are_read_one_by_one(p + cr, rest);
    assert(p + seq!['\r', '\n'] + rest =~= (p + cr) + seq!['\n'] + rest);
}

proof fn lemma_no_break(a: Seq<char>, b: Seq<char>)
    requires
        !a.contains('\n'),
        !b.contains('\n'),
    ensures
        !(a + b).contains('\n'),
{
    let s = a + b;
    if s.contains('\n') {
        let i = choose|i: int| 0 <= i < s.len() && s[i] == '\n';
        if i < a.len() {
            assert(a[i] == '\n');
        } else {
            assert(b[i - a.len()] == '\n');
        }
    }
}

// ---------------------------------------------------------------------------
// Steps
// ---------------------------------------------------------------------------

/// An entry that says its version is taken as it is, whatever place it is from, and that place and
/// its path are logged.
pub proof fn entry_that_works_is_taken(
    pkg: Seq<char>,
    origin: OriginView,
    shown: Seq<char>,
    e: EntryView,
)
    ensures
        resolve_next(pkg, StageView::Version(origin, shown, e), AnswerView::Flag(true)) == (
        ProgressView {
            logs: seq![
                match origin {
                    OriginView::Config => "[INFO] 命中配置路径: "@ + shown,
                    OriginView::Vendor(_, _) => "[INFO] 命中离线 vendor 包: "@ + shown,
                    OriginView::Main => "[INFO] 命中离线 vendor 包(node): "@ + shown,
                    OriginView::Path => "[INFO] 命中 PATH 中的 "@ + pkg + ": "@ + shown,
                },
            ],
            next: NextView::Done(Ok(e)),
        }),
{
    let p = resolve_next(pkg, StageView::Version(origin, shown, e), AnswerView::Flag(true));
    assert(p.logs =~= seq![
        match origin {
            OriginView::Config => "[INFO] 命中配置路径: "@ + shown,
            OriginView::Vendor(_, _) => "[INFO] 命中离线 vendor 包: "@ + shown,
            OriginView::Main => "[INFO] 命中离线 vendor 包(node): "@ + shown,
            OriginView::Path => "[INFO] 命中 PATH 中的 "@ + pkg + ": "@ + shown,
        },
    ]);
}

/// An entry that does not say its version is passed over: the search goes on to the next candidate
/// or place, but ends where the path was configured.
pub proof fn entry_that_fails_is_passed_over(
    pkg: Seq<char>,
    v: VendorView,
    i: int,
    shown: Seq<char>,
    e: EntryView,
)
    ensures
        resolve_next(
            pkg,
            StageView::Version(OriginView::Config, shown, e),
            AnswerView::Flag(false),
        ) == (ProgressView {
            logs: Seq::empty(),
            next: NextView::Done(Err("配置路径 "@ + shown + " 版本校验失败"@)),
        }),
        resolve_next(
            pkg,
            StageView::Version(OriginView::Vendor(v, i), shown, e),
            AnswerView::Flag(false),
        ) == (ProgressView {
            logs: Seq::empty(),
            next: NextView::Ask(
                if i + 1 < v.candidates.len() {
                    StageView::VendorFile(v, i + 1)
                } else {
                    StageView::VendorMain(v)
                },
            ),
        }),
        resolve_next(
            pkg,
            StageView::Version(OriginView::Main, shown, e),
            AnswerView::Flag(false),
        ) == (ProgressView { logs: Seq::empty(), next: NextView::Ask(StageView::Where) }),
        resolve_next(
            pkg,
            StageView::Version(OriginView::Path, shown, e),
            AnswerView::Flag(false),
        ) == (ProgressView {
            logs: seq!["[WARN] PATH 中的 "@ + shown + " 版本校验失败,继续解析"@],
            next: NextView::Ask(StageView::Npm),
        }),
{
    let p = resolve_next(
        pkg,
        StageView::Version(OriginView::Path, shown, e),
        AnswerView::Flag(false),
    );
    assert(p.logs =~= seq!["[WARN] PATH 中的 "@ + shown + " 版本校验失败,继续解析"@]);
}

// ---------------------------------------------------------------------------
// Whole searches
// ---------------------------------------------------------------------------

/// The entry that a program (or a script, through the command interpreter) at a path is.
pub open spec fn entry_at(path: Seq<char>, script: bool) -> EntryView {
    EntryView {
        via_cmd: script,
        program: path,
        args: Seq::empty(),
        skip_version: false,
        slow_start: false,
    }
}

/// The command by which a program or a script at a path says its version.
pub open spec fn version_at(path: Seq<char>, script: bool) -> CommandView {
    if script {
        CommandView { program: "cmd.exe"@, args: seq!["/C"@, path, "--version"@] }
    } else {
        CommandView { program: path, args: seq!["--version"@] }
    }
}

/// The command by which a script of the vendor directory says its version.
pub open spec fn version_by_node(path: Seq<char>) -> CommandView {
    CommandView { program: "node"@, args: seq![path, "--version"@] }
}

/// Whether an extension is that of a script.
pub open spec fn script_ext(ext: Seq<char>) -> bool {
    ext == "cmd"@ || ext == "bat"@
}

/// Whether an extension is that of a script or a program.
pub open spec fn can_start(ext: Seq<char>) -> bool {
    ext == "cmd"@ || ext == "bat"@ || ext == "exe"@
}

/// Whether there is a script or a program at a path that says its version.
pub open spec fn works_at(world: World, path: Seq<char>) -> bool {
    let f = (world.file)(path);
    f.exists && can_start(f.ext) && (world.runs)(version_at(path, script_ext(f.ext)))
}

/// Whether there is nothing at a path, or a script or program that does not say its version.
pub open spec fn fails_at(world: World, path: Seq<char>) -> bool {
    let f = (world.file)(path);
    f.exists ==> can_start(f.ext) && !(world.runs)(version_at(path, script_ext(f.ext)))
}

/// Whether there is a vendor directory at all.
pub open spec fn has_vendor(world: World) -> bool {
    world.exe_dir matches Some(v) && (world.is_dir)(v.dir)
}

/// Whether the vendor directory has nothing that works: it is not there, or all of its candidates
/// fail, and its script is not there or does not say its version.
pub open spec fn vendor_fails(world: World) -> bool {
    has_vendor(world) ==> {
        let v = world.exe_dir->Some_0;
        &&& forall|i: int| 0 <= i < v.candidates.len() ==> fails_at(world, #[trigger] v.candidates[i])
        &&& (world.file)(v.main_js).exists ==> !(world.runs)(version_by_node(v.main_js))
    }
}

/// The paths that the search path's listing of a package names, line by line.
pub open spec fn listing(world: World, pkg: Seq<char>) -> Seq<Seq<char>> {
    match (world.output)(CommandView { program: "where.exe"@, args: seq![pkg] }) {
        Some(bytes) => trimmed_lines(utf8_lossy(bytes)),
        None => Seq::empty(),
    }
}

proof fn lemma_ext_lens()
    ensures
        "cmd"@.len() == 3,
        "bat"@.len() == 3,
        "exe"@.len() == 3,
        "exe"@ != "cmd"@,
        "exe"@ != "bat"@,
{
    reveal_strlit("cmd");
    reveal_strlit("bat");
    reveal_strlit("exe");
    assert("exe"@[0] != "cmd"@[0] && "exe"@[0] != "bat"@[0]);
}

/// What a file with a known extension comes to in a world.
proof fn lemma_entry_at(world: World, path: Seq<char>)
    requires
        world.sound(),
        can_start((world.file)(path).ext),
    ensures
        ({
            let f = (world.file)(path);
            let e = entry_at(path, script_ext(f.ext));
            &&& world.entry_of(f, 0) == Ok::<EntryView, Seq<char>>(e)
            &&& version_command(e) == version_at(path, script_ext(f.ext))
        }),
{
    lemma_ext_lens();
    let f = (world.file)(path);
    assert(f.path == path);
    let e = entry_at(path, script_ext(f.ext));
    assert(version_command(e).args =~= version_at(path, script_ext(f.ext)).args);
}

proof fn lemma_node(path: Seq<char>)
    ensures
        version_command(crate::entry::node_entry(path)) == version_by_node(path),
{
    assert(version_command(crate::entry::node_entry(path)).args =~= version_by_node(path).args);
}

proof fn lemma_fails_at(world: World, path: Seq<char>, on: Result<EntryView, Seq<char>>)
    requires
        world.sound(),
        fails_at(world, path),
        (world.file)(path).exists,
    ensures
        world.or_on(world.entry_of((world.file)(path), 0), on) == on,
{
    lemma_entry_at(world, path);
}

proof fn lemma_vendor_fails(world: World, pkg: Seq<char>, v: VendorView, i: int)
    requires
        world.sound(),
        world.exe_dir == Some(v),
        has_vendor(world),
        vendor_fails(world),
        0 <= i <= v.candidates.len(),
    ensures
        world.from_vendor(pkg, v, i) == world.from_path(pkg),
    decreases v.candidates.len() - i,
{
    if i < v.candidates.len() {
        lemma_vendor_fails(world, pkg, v, i + 1);
        assert(fails_at(world, v.candidates[i]));
        if (world.file)(v.candidates[i]).exists {
            lemma_fails_at(world, v.candidates[i], world.from_path(pkg));
        }
    } else {
        lemma_node(v.main_js);
    }
}

/// Where nothing in the vendor directory works the search path decides.
proof fn lemma_path_decides(world: World, pkg: Seq<char>)
    requires
        world.sound(),
        vendor_fails(world),
    ensures
        world.resolution(None, pkg) == world.from_path(pkg),
        world.where_lines(pkg) == listing(world, pkg),
{
    if has_vendor(world) {
        lemma_vendor_fails(world, pkg, world.exe_dir->Some_0, 0);
    }
}

/// A configured path is found exactly where there is a script or a program that says its version;
/// it is then started by its path, without arguments of its own. Nothing else is ever found for it.
pub proof fn configured_file_is_found(
    world: World,
    p: Seq<char>,
    pkg: Seq<char>,
    questions: nat,
)
    requires
        world.sound(),
        world.most_questions(pkg) <= questions,
        (world.file)(p).exists ==> (world.file)(p).ext.len() > 0,
    ensures
        ({
            let end = world.whole_search(Some(p), pkg, questions);
            if works_at(world, p) {
                end == Some(
                    Ok::<EntryView, Seq<char>>(entry_at(p, script_ext((world.file)(p).ext))),
                )
            } else {
                end matches Some(r) && r is Err
            }
        }),
{
    search_finds_first_that_works(world, Some(p), pkg, questions);
    lemma_ext_lens();
    if can_start((world.file)(p).ext) {
        lemma_entry_at(world, p);
    }
}

/// A configured path without an extension stands for its first sibling that is there: `cmd`, then
/// `bat`, then `exe`; where none is it is a program itself.
pub proof fn configured_sibling_is_found(
    world: World,
    p: Seq<char>,
    k: int,
    pkg: Seq<char>,
    questions: nat,
)
    requires
        world.sound(),
        world.most_questions(pkg) <= questions,
        (world.file)(p).exists,
        (world.file)(p).ext.len() == 0,
        0 <= k <= 3,
        k > 0 ==> !(world.file)((world.file)(p).as_cmd).exists,
        k > 1 ==> !(world.file)((world.file)(p).as_bat).exists,
        k > 2 ==> !(world.file)((world.file)(p).as_exe).exists,
    ensures
        ({
            let f = (world.file)(p);
            let s = if k == 0 {
                f.as_cmd
            } else if k == 1 {
                f.as_bat
            } else {
                f.as_exe
            };
            let end = world.whole_search(Some(p), pkg, questions);
            &&& k < 3 && works_at(world, s) ==> end == Some(
                Ok::<EntryView, Seq<char>>(entry_at(s, script_ext((world.file)(s).ext))),
            )
            &&& k == 3 && (world.runs)(version_at(p, false)) ==> end == Some(
                Ok::<EntryView, Seq<char>>(entry_at(p, false)),
            )
        }),
{
    search_finds_first_that_works(world, Some(p), pkg, questions);
    reveal_with_fuel(World::entry_of, 4);
    lemma_ext_lens();
    let f = (world.file)(p);
    let s = if k == 0 {
        f.as_cmd
    } else if k == 1 {
        f.as_bat
    } else {
        f.as_exe
    };
    if k < 3 && works_at(world, s) {
        lemma_entry_at(world, s);
    }
    assert(version_command(entry_at(p, false)).args =~= version_at(p, false).args);
}

/// Of the vendor directory's candidates the first that says its version is found, whichever it is,
/// where those before it fail; it is started by its path, without arguments of its own.
pub proof fn vendor_candidate_is_found(
    world: World,
    v: VendorView,
    i: int,
    pkg: Seq<char>,
    questions: nat,
)
    requires
        world.sound(),
        world.most_questions(pkg) <= questions,
        world.exe_dir == Some(v),
        (world.is_dir)(v.dir),
        0 <= i < v.candidates.len(),
        forall|j: int| 0 <= j < i ==> fails_at(world, #[trigger] v.candidates[j]),
        works_at(world, v.candidates[i]),
    ensures
        world.whole_search(None, pkg, questions) == Some(
            Ok::<EntryView, Seq<char>>(
                entry_at(v.candidates[i], script_ext((world.file)(v.candidates[i]).ext)),
            ),
        ),
{
    search_finds_first_that_works(world, None, pkg, questions);
    lemma_candidate(world, v, i, 0, pkg);
}

proof fn lemma_candidate(world: World, v: VendorView, i: int, from: int, pkg: Seq<char>)
    requires
        world.sound(),
        0 <= from <= i < v.candidates.len(),
        forall|j: int| from <= j < i ==> fails_at(world, #[trigger] v.candidates[j]),
        works_at(world, v.candidates[i]),
    ensures
        world.from_vendor(pkg, v, from) == Ok::<EntryView, Seq<char>>(
            entry_at(v.candidates[i], script_ext((world.file)(v.candidates[i]).ext)),
        ),
    decreases i - from,
{
    if from < i {
        lemma_candidate(world, v, i, from + 1, pkg);
        assert(fails_at(world, v.candidates[from]));
        if (world.file)(v.candidates[from]).exists {
            lemma_fails_at(world, v.candidates[from], world.from_vendor(pkg, v, from + 1));
        }
    } else {
        lemma_entry_at(world, v.candidates[i]);
    }
}

/// Where all of the vendor directory's candidates fail, its script is found if it says its version:
/// it is run by `node`, with its path as the one argument.
pub proof fn vendor_script_is_found(
    world: World,
    v: VendorView,
    pkg: Seq<char>,
    questions: nat,
)
    requires
        world.sound(),
        world.most_questions(pkg) <= questions,
        world.exe_dir == Some(v),
        (world.is_dir)(v.dir),
        forall|j: int| 0 <= j < v.candidates.len() ==> fails_at(world, #[trigger] v.candidates[j]),
        (world.file)(v.main_js).exists,
        (world.runs)(version_by_node(v.main_js)),
    ensures
        world.whole_search(None, pkg, questions) == Some(
            Ok::<EntryView, Seq<char>>(
                EntryView {
                    via_cmd: false,
                    program: "node"@,
                    args: seq![v.main_js],
                    skip_version: false,
                    slow_start: false,
                },
            ),
        ),
{
    search_finds_first_that_works(world, None, pkg, questions);
    lemma_to_script(world, v, 0, pkg);
    lemma_node(v.main_js);
}

proof fn lemma_to_script(world: World, v: VendorView, i: int, pkg: Seq<char>)
    requires
        world.sound(),
        0 <= i <= v.candidates.len(),
        forall|j: int| i <= j < v.candidates.len() ==> fails_at(world, #[trigger] v.candidates[j]),
    ensures
        world.from_vendor(pkg, v, i) == world.from_script(pkg, v),
    decreases v.candidates.len() - i,
{
    if i < v.candidates.len() {
        lemma_to_script(world, v, i + 1, pkg);
        assert(fails_at(world, v.candidates[i]));
        if (world.file)(v.candidates[i]).exists {
            lemma_fails_at(world, v.candidates[i], world.from_script(pkg, v));
        }
    }
}

proof fn lemma_listed_at(
    world: World,
    lines: Seq<Seq<char>>,
    i: int,
    fallback: Option<FileView>,
    at: int,
)
    requires
        0 <= i <= at < lines.len(),
        (world.file)(lines[at]).exists && can_start((world.file)(lines[at]).ext),
        forall|j: int|
            i <= j < at ==> !((world.file)(#[trigger] lines[j]).exists && can_start(
                (world.file)(lines[j]).ext,
            )),
    ensures
        world.listed(lines, i, fallback) == Some((world.file)(lines[at])),
    decreases at - i,
{
    if i < at {
        let f = (world.file)(lines[i]);
        assert(!(f.exists && can_start(f.ext)));
        lemma_listed_at(world, lines, i + 1, fallback, at);
        lemma_listed_at(world, lines, i + 1, Some(f), at);
    } else {
        assert(is_launchable((world.file)(lines[at]).ext));
    }
}

/// Where nothing in the vendor directory works, the first listed path at which there is a script or
/// a program is found, if that says its version, however many are listed and whatever else is there;
/// it is started by its path. If it does not, the package is fetched, where there is `npm`.
pub proof fn listed_file_is_found(world: World, pkg: Seq<char>, at: int, questions: nat)
    requires
        world.sound(),
        world.most_questions(pkg) <= questions,
        vendor_fails(world),
        0 <= at < listing(world, pkg).len(),
        (world.file)(listing(world, pkg)[at]).exists,
        can_start((world.file)(listing(world, pkg)[at]).ext),
        forall|j: int|
            0 <= j < at ==> !((world.file)(#[trigger] listing(world, pkg)[j]).exists && can_start(
                (world.file)(listing(world, pkg)[j]).ext,
            )),
    ensures
        ({
            let p = listing(world, pkg)[at];
            let script = script_ext((world.file)(p).ext);
            let end = world.whole_search(None, pkg, questions);
            if (world.runs)(version_at(p, script)) {
                end == Some(Ok::<EntryView, Seq<char>>(entry_at(p, script)))
            } else {
                end == Some(fetched(world, pkg))
            }
        }),
{
    search_finds_first_that_works(world, None, pkg, questions);
    lemma_path_decides(world, pkg);
    lemma_listed_at(world, listing(world, pkg), 0, None, at);
    lemma_entry_at(world, listing(world, pkg)[at]);
    lemma_fetched(world, pkg);
}

/// What is found where nothing is there: the package, fetched and started by `npx` without asking for
/// its version, if there is `npm`; and else nothing, with what to do about it.
pub open spec fn fetched(world: World, pkg: Seq<char>) -> Result<EntryView, Seq<char>> {
    if (world.runs)(CommandView { program: "cmd.exe"@, args: seq!["/C"@, "npm --version"@] }) {
        Ok(
            EntryView {
                via_cmd: true,
                program: "npx"@,
                args: seq!["--yes"@, pkg],
                skip_version: true,
                slow_start: true,
            },
        )
    } else {
        Err(
            "未找到 "@ + pkg
                + " 命令,且本机无 npm/node,无法自动安装。\n  排查: 1) 安装 Node.js; 2) 将离线包放入 vendor\\dsh; 3) 或配置 dsh_path"@,
        )
    }
}

proof fn lemma_fetched(world: World, pkg: Seq<char>)
    ensures
        world.from_npm(pkg) == fetched(world, pkg),
{
}

/// Where nothing in the vendor directory works and no listed path has a file, the package is fetched,
/// where there is `npm`, and else nothing is found.
pub proof fn package_is_fetched_last(world: World, pkg: Seq<char>, questions: nat)
    requires
        world.sound(),
        world.most_questions(pkg) <= questions,
        vendor_fails(world),
        forall|j: int|
            0 <= j < listing(world, pkg).len() ==> !(world.file)(
                #[trigger] listing(world, pkg)[j],
            ).exists,
    ensures
        world.whole_search(None, pkg, questions) == Some(fetched(world, pkg)),
{
    search_finds_first_that_works(world, None, pkg, questions);
    lemma_path_decides(world, pkg);
    lemma_none_listed(world, listing(world, pkg), 0);
    lemma_fetched(world, pkg);
}

proof fn lemma_none_listed(world: World, lines: Seq<Seq<char>>, i: int)
    requires
        0 <= i <= lines.len(),
        forall|j: int| i <= j < lines.len() ==> !(world.file)(#[trigger] lines[j]).exists,
    ensures
        world.listed(lines, i, None) is None,
    decreases lines.len() - i,
{
    if i < lines.len() {
        assert(!(world.file)(lines[i]).exists);
        lemma_none_listed(world, lines, i + 1);
    }
}

proof fn lemma_kept(world: World, lines: Seq<Seq<char>>, i: int, f: FileView)
    requires
        0 <= i <= lines.len(),
        forall|j: int|
            i <= j < lines.len() ==> !((world.file)(#[trigger] lines[j]).exists && can_start(
                (world.file)(lines[j]).ext,
            )),
    ensures
        world.listed(lines, i, Some(f)) == Some(f),
    decreases lines.len() - i,
{
    if i < lines.len() {
        assert(!((world.file)(lines[i]).exists && can_start((world.file)(lines[i]).ext)));
        lemma_kept(world, lines, i + 1, f);
    }
}

proof fn lemma_first_kept(world: World, lines: Seq<Seq<char>>, i: int, at: int)
    requires
        0 <= i <= at < lines.len(),
        forall|j: int|
            i <= j < lines.len() ==> !((world.file)(#[trigger] lines[j]).exists && can_start(
                (world.file)(lines[j]).ext,
            )),
        forall|j: int| i <= j < at ==> !(world.file)(#[trigger] lines[j]).exists,
        (world.file)(lines[at]).exists,
    ensures
        world.listed(lines, i, None) == Some((world.file)(lines[at])),
    decreases at - i,
{
    if i < at {
        assert(!(world.file)(lines[i]).exists);
        lemma_first_kept(world, lines, i + 1, at);
    } else {
        assert(!((world.file)(lines[i]).exists && can_start((world.file)(lines[i]).ext)));
        lemma_kept(world, lines, i + 1, (world.file)(lines[at]));
    }
}

/// Where no listed path has a script or a program, the first that has a file at all decides: one
/// without an extension stands for its first sibling, which is found if it says its version, and
/// else the package is fetched; one of another kind ends the search.
pub proof fn listed_file_without_extension_is_found(
    world: World,
    pkg: Seq<char>,
    at: int,
    questions: nat,
)
    requires
        world.sound(),
        world.most_questions(pkg) <= questions,
        vendor_fails(world),
        0 <= at < listing(world, pkg).len(),
        forall|j: int|
            0 <= j < listing(world, pkg).len() ==> !((world.file)(
                #[trigger] listing(world, pkg)[j],
            ).exists && can_start((world.file)(listing(world, pkg)[j]).ext)),
        forall|j: int| 0 <= j < at ==> !(world.file)(#[trigger] listing(world, pkg)[j]).exists,
        (world.file)(listing(world, pkg)[at]).exists,
    ensures
        ({
            let p = listing(world, pkg)[at];
            let f = (world.file)(p);
            let end = world.whole_search(None, pkg, questions);
            let cmd = (world.file)(f.as_cmd);
            let bat = (world.file)(f.as_bat);
            let exe = (world.file)(f.as_exe);
            &&& f.ext.len() > 0 ==> end == Some(
                Err::<EntryView, Seq<char>>("不支持的入口文件类型: "@ + p),
            )
            &&& f.ext.len() == 0 && works_at(world, f.as_cmd) ==> end == Some(
                Ok::<EntryView, Seq<char>>(entry_at(f.as_cmd, script_ext(cmd.ext))),
            )
            &&& f.ext.len() == 0 && cmd.exists && fails_at(world, f.as_cmd) ==> end == Some(
                fetched(world, pkg),
            )
            &&& f.ext.len() == 0 && !cmd.exists && bat.exists && fails_at(world, f.as_bat) ==> end
                == Some(fetched(world, pkg))
            &&& f.ext.len() == 0 && !cmd.exists && !bat.exists && exe.exists && fails_at(
                world,
                f.as_exe,
            ) ==> end == Some(fetched(world, pkg))
            &&& f.ext.len() == 0 && !cmd.exists && works_at(world, f.as_bat) ==> end == Some(
                Ok::<EntryView, Seq<char>>(entry_at(f.as_bat, script_ext(bat.ext))),
            )
            &&& f.ext.len() == 0 && !cmd.exists && !bat.exists && works_at(world, f.as_exe) ==> end
                == Some(Ok::<EntryView, Seq<char>>(entry_at(f.as_exe, script_ext(exe.ext))))
            &&& f.ext.len() == 0 && !cmd.exists && !bat.exists && !exe.exists ==> end == Some(
                if (world.runs)(version_at(p, false)) {
                    Ok::<EntryView, Seq<char>>(entry_at(p, false))
                } else {
                    fetched(world, pkg)
                },
            )
        }),
{
    search_finds_first_that_works(world, None, pkg, questions);
    lemma_path_decides(world, pkg);
    lemma_first_kept(world, listing(world, pkg), 0, at);
    lemma_fetched(world, pkg);
    lemma_ext_lens();
    reveal_with_fuel(World::entry_of, 4);
    let p = listing(world, pkg)[at];
    let f = (world.file)(p);
    assert(f.path == p);
    assert(!(f.exists && can_start(f.ext)));
    if can_start((world.file)(f.as_cmd).ext) {
        lemma_entry_at(world, f.as_cmd);
    }
    if can_start((world.file)(f.as_bat).ext) {
        lemma_entry_at(world, f.as_bat);
    }
    if can_start((world.file)(f.as_exe).ext) {
        lemma_entry_at(world, f.as_exe);
    }
    every_argument_is_handed_over(entry_at(p, false));
    assert(version_command(entry_at(p, false)).args =~= version_at(p, false).args);
}

/// A path with blanks inside that the search path lists first is the one that is found: with nothing
/// in the vendor directory that works, and a script or a program there that says its version.
pub proof fn listed_path_with_blanks_is_found(
    world: World,
    pkg: Seq<char>,
    bytes: Seq<u8>,
    p: Seq<char>,
    rest: Seq<char>,
    questions: nat,
)
    requires
        world.sound(),
        world.most_questions(pkg) <= questions,
        vendor_fails(world),
        (world.output)(CommandView { program: "where.exe"@, args: seq![pkg] }) == Some(bytes),
        utf8_lossy(bytes) == p + seq!['\r', '\n'] + rest,
        p.len() > 0,
        is_tight(p),
        !p.contains('\n'),
        works_at(world, p),
    ensures
        world.whole_search(None, pkg, questions) == Some(
            Ok::<EntryView, Seq<char>>(entry_at(p, script_ext((world.file)(p).ext))),
        ),
{
    listed_path_is_taken_whole(Seq::empty(), p, Seq::empty(), rest);
    assert(listing(world, pkg)[0] == p);
    listed_file_is_found(world, pkg, 0, questions);
}

/// A file that is there goes the same way wherever it was asked for: a script or a program is asked
/// for its version, one without an extension has its siblings asked for, and any other ends the
/// search. It is spoken of by the path that it was asked for by.
pub open spec fn goes_on_with(
    p: ProgressView,
    origin: OriginView,
    shown: Seq<char>,
    f: FileView,
) -> bool {
    &&& p.logs.len() == 0
    &&& can_start(f.ext) ==> p.next == NextView::Ask(
        StageView::Version(origin, shown, entry_at(f.path, script_ext(f.ext))),
    )
    &&& f.ext.len() == 0 ==> p.next == NextView::Ask(StageView::Sibling(origin, shown, f, 0))
    &&& f.ext.len() > 0 && !can_start(f.ext) ==> p.next == NextView::Done(
        Err("不支持的入口文件类型: "@ + f.path),
    )
}

/// A file that is there is gone on with as its extension says, from every place, and one that is not
/// there leads to the next question or, where it was configured, to the end.
pub proof fn asked_file_is_gone_on_with(
    pkg: Seq<char>,
    p: Seq<char>,
    v: VendorView,
    i: int,
    lines: Seq<Seq<char>>,
    f: FileView,
)
    requires
        0 <= i < v.candidates.len(),
        0 <= i < lines.len(),
    ensures
        ({
            let config = resolve_next(pkg, StageView::ConfigFile(p), AnswerView::File(f));
            let vendor = resolve_next(pkg, StageView::VendorFile(v, i), AnswerView::File(f));
            let path = resolve_next(pkg, StageView::WhereFile(lines, i, None), AnswerView::File(f));
            &&& f.exists ==> goes_on_with(config, OriginView::Config, p, f)
            &&& f.exists ==> goes_on_with(vendor, OriginView::Vendor(v, i), f.path, f)
            &&& f.exists && can_start(f.ext) ==> goes_on_with(path, OriginView::Path, f.path, f)
            &&& !f.exists ==> config == (ProgressView {
                logs: Seq::empty(),
                next: NextView::Done(Err("配置的 dsh_path 不存在: "@ + p)),
            })
            &&& !f.exists ==> vendor == (ProgressView {
                logs: Seq::empty(),
                next: NextView::Ask(
                    if i + 1 < v.candidates.len() {
                        StageView::VendorFile(v, i + 1)
                    } else {
                        StageView::VendorMain(v)
                    },
                ),
            })
            &&& !f.exists ==> path == (ProgressView {
                logs: Seq::empty(),
                next: NextView::Ask(
                    if i + 1 < lines.len() {
                        StageView::WhereFile(lines, i + 1, None)
                    } else {
                        StageView::Npm
                    },
                ),
            })
        }),
{
    lemma_ext_lens();
}

/// A sibling that is there takes the place of the file that was asked for, which is still spoken of;
/// one that is not leads to the next, and after the third the file is a program itself.
pub proof fn sibling_takes_the_place_of_its_file(
    pkg: Seq<char>,
    o: OriginView,
    shown: Seq<char>,
    f: FileView,
    g: FileView,
    k: int,
)
    requires
        f.ext.len() == 0,
        0 <= k < 3,
    ensures
        ({
            let p = resolve_next(pkg, StageView::Sibling(o, shown, f, k), AnswerView::File(g));
            &&& g.exists ==> goes_on_with(p, o, shown, g)
            &&& !g.exists ==> p == (ProgressView {
                logs: Seq::empty(),
                next: NextView::Ask(
                    if k < 2 {
                        StageView::Sibling(o, shown, f, k + 1)
                    } else {
                        StageView::Version(o, shown, entry_at(f.path, false))
                    },
                ),
            })
        }),
        StageView::Sibling(o, shown, f, 0).asked(pkg) == crate::resolve::ProbeView::File(f.as_cmd),
        StageView::Sibling(o, shown, f, 1).asked(pkg) == crate::resolve::ProbeView::File(f.as_bat),
        StageView::Sibling(o, shown, f, 2).asked(pkg) == crate::resolve::ProbeView::File(f.as_exe),
{
    lemma_ext_lens();
}

/// The package is fetched where there is `npm`, and that is said, with how to keep it; where there is
/// none the search ends with what to do about it.
pub proof fn fetching_is_said(pkg: Seq<char>)
    ensures
        resolve_next(pkg, StageView::Npm, AnswerView::Flag(true)) == (ProgressView {
            logs: seq![
                "[INFO] PATH 中无 "@ + pkg + ",改用 npx 自动拉取: npx --yes "@ + pkg,
                "[INFO] 如需长期保留,可手动执行: npm install -g "@ + pkg,
            ],
            next: NextView::Done(
                Ok(
                    EntryView {
                        via_cmd: true,
                        program: "npx"@,
                        args: seq!["--yes"@, pkg],
                        skip_version: true,
                        slow_start: true,
                    },
                ),
            ),
        }),
        resolve_next(pkg, StageView::Npm, AnswerView::Flag(false)).logs.len() == 0,
{
    assert(resolve_next(pkg, StageView::Npm, AnswerView::Flag(true)).logs =~= seq![
        "[INFO] PATH 中无 "@ + pkg + ",改用 npx 自动拉取: npx --yes "@ + pkg,
        "[INFO] 如需长期保留,可手动执行: npm install -g "@ + pkg,
    ]);
}

} // verus!
