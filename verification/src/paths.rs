//! Paths as text, and what std's `Path` says of them.
//!
//! How a path is taken apart depends on the platform. There are two ways: at slashes alone, or at
//! slashes and backslashes and behind a drive. What is claimed of std's answers is that they go by
//! one of the two.
use std::path::Path;
use vstd::prelude::*;

use crate::text::{
    after_last, all_ascii, ascii_lowercase, lemma_after_last, lowercase, opt_text, texts, to_lower,
};

verus! {

/// Whether a character parts a path: a slash always, a backslash where `back` says so.
pub open spec fn is_cut(c: char, back: bool) -> bool {
    c == '/' || (back && c == '\\')
}

/// What stands behind the last character that parts a path, or all of it where there is none.
pub open spec fn behind(path: Seq<char>, back: bool) -> Seq<char>
    decreases path.len(),
{
    if path.len() == 0 || is_cut(path.last(), back) {
        Seq::empty()
    } else {
        behind(path.drop_last(), back).push(path.last())
    }
}

/// Whether a path begins with a drive: a letter and a colon.
pub open spec fn has_drive(path: Seq<char>) -> bool {
    path.len() >= 2 && ('a' <= path[0] <= 'z' || 'A' <= path[0] <= 'Z') && path[1] == ':'
}

/// The last part of a path: taken apart at slashes alone or, where `back` says so, at slashes and
/// backslashes and behind a drive.
pub open spec fn file_name(path: Seq<char>, back: bool) -> Seq<char> {
    let name = behind(path, back);
    if back && name.len() == path.len() && has_drive(path) {
        path.skip(2)
    } else {
        name
    }
}

/// Whether a last part is the name of something in a directory.
pub open spec fn names_file(name: Seq<char>) -> bool {
    &&& name.len() > 0
    &&& name != seq!['.']
    &&& name != seq!['.', '.']
}

/// The extension of a file's name: what stands behind its last dot, unless it has none, or none
/// but the one that it begins with.
pub open spec fn name_extension(name: Seq<char>) -> Option<Seq<char>> {
    let ext = after_last(name, '.');
    if ext.len() + 1 < name.len() {
        Some(ext)
    } else {
        None
    }
}

/// A path that begins with two slashes of some kind, which some platforms read as the prefix of a
/// network share.
pub open spec fn is_doubled(path: Seq<char>) -> bool {
    path.len() >= 2 && is_cut(path[0], true) && is_cut(path[1], true)
}

/// A doubled path that goes on behind the names of a server and a share.
pub open spec fn is_in_share(path: Seq<char>) -> bool {
    exists|i: int, j: int| is_share_of(path, i, j)
}

/// Whether the name of a server ends at one place of a doubled path, and that of a share at another.
pub open spec fn is_share_of(path: Seq<char>, i: int, j: int) -> bool {
    &&& 2 < i
    &&& i + 1 < j
    &&& j < path.len()
    &&& !is_cut(path[2], true)
    &&& is_cut(path[i], true)
    &&& !is_cut(path[i + 1], true)
    &&& is_cut(path[j], true)
}

/// A path with the prefix that tells some platforms to take it as it is.
pub open spec fn is_verbatim(path: Seq<char>) -> bool {
    seq!['\\', '\\', '?', '\\'].is_prefix_of(path)
}

/// A verbatim path that goes on behind its volume: that is a drive, or else at most three names.
pub open spec fn is_in_volume(path: Seq<char>) -> bool {
    ||| path.len() > 6 && has_drive(path.skip(4)) && path[6] == '\\'
    ||| exists|i: int, j: int, k: int| is_volume_of(path, i, j, k)
}

/// Whether names end at three places of a verbatim path behind its prefix.
pub open spec fn is_volume_of(path: Seq<char>, i: int, j: int, k: int) -> bool {
    4 <= i < j < k < path.len() && path[i] == '\\' && path[j] == '\\' && path[k] == '\\'
}

/// A path whose beginning leaves room for a file's name: behind a volume where it is verbatim, and
/// behind a share where it is doubled.
pub open spec fn is_grounded(path: Seq<char>) -> bool {
    if is_verbatim(path) {
        is_in_volume(path)
    } else {
        is_doubled(path) ==> is_in_share(path)
    }
}

/// A path that ends in a file's name, whichever way it is taken apart. Where it is verbatim, slashes
/// part nothing: there it holds none, or the name has an extension.
pub open spec fn is_plain(path: Seq<char>) -> bool {
    &&& is_grounded(path)
    &&& is_verbatim(path) ==> !path.contains('/') || name_extension(file_name(path, true)) is Some
    &&& names_file(file_name(path, false))
    &&& names_file(file_name(path, true))
}

/// A path whose file's name begins with two dots, in one way of taking it apart.
pub open spec fn is_dotted(path: Seq<char>) -> bool {
    ||| seq!['.', '.'].is_prefix_of(file_name(path, false))
    ||| seq!['.', '.'].is_prefix_of(file_name(path, true))
}

/// `Path::extension`. Of a plain path it is the extension of the file's name, in one of the two ways
/// of taking the path apart. No extension holds a dot. What paths that are not plain give is not
/// said.
#[verifier::external_body]
fn path_extension(path: &str) -> (r: Option<String>)
    ensures
        is_plain(path@) ==> opt_text(r) == name_extension(file_name(path@, false)) || opt_text(r)
            == name_extension(file_name(path@, true)),
        r matches Some(e) ==> !e@.contains('.'),
{
    Path::new(path).extension().and_then(|e| e.to_str()).map(|e| e.to_owned())
}

/// A path with another extension: in place of the one that its file's name has, or behind it.
pub open spec fn extended(path: Seq<char>, ext: Seq<char>, back: bool) -> Seq<char> {
    match name_extension(file_name(path, back)) {
        Some(e) => path.take(path.len() - e.len()) + ext,
        None => path + seq!['.'] + ext,
    }
}

/// `Path::with_extension`. Of a plain path whose file's name does not begin with two dots it is the
/// path with the extension of that name replaced or, where it has none, added, in one of the two
/// ways of taking the path apart. On every path the result ends in a dot and the extension, or in
/// the two dots that a name may begin with, or else is the path itself; more is not said of others.
#[verifier::external_body]
fn path_with_extension(path: &str, ext: &str) -> (r: String)
    requires
        ext@.len() > 0,
        !ext@.contains('/'),
        !ext@.contains('\\'),
    ensures
        is_plain(path@) && !is_dotted(path@) ==> r@ == extended(path@, ext@, false) || r@ == extended(
            path@,
            ext@,
            true,
        ),
        r@ == path@ || (seq!['.'] + ext@).is_suffix_of(r@) || seq!['.', '.'].is_suffix_of(r@),
{
    Path::new(path).with_extension(ext).to_string_lossy().into_owned()
}

/// A relative path of names joined by single backslashes, none of which begins with a dot.
pub open spec fn is_tidy(part: Seq<char>) -> bool {
    &&& part.len() > 0
    &&& part[0] != '\\'
    &&& part[0] != '.'
    &&& part.last() != '\\'
    &&& forall|i: int|
        0 <= i < part.len() ==> #[trigger] part[i] != '/' && part[i] != ':' && (part[i] == '\\'
            ==> part[i + 1] != '\\' && part[i + 1] != '.')
}

/// Whether a path is another with a tidy one behind it, and a separator between them where one is
/// wanted: behind a slash or nothing there is none, behind a backslash or a bare drive a platform
/// may go without, and elsewhere there is one.
pub open spec fn is_joined(r: Seq<char>, base: Seq<char>, part: Seq<char>) -> bool {
    if base.len() == 0 || base.last() == '/' {
        r == base + part
    } else if base.last() == '\\' || (base.len() == 2 && has_drive(base)) {
        r == base + part || r == base + seq!['/'] + part
    } else {
        r == base + seq!['/'] + part || r == base + seq!['\\'] + part
    }
}

/// A verbatim path with nothing in it to be put into another form: its names are parted by single
/// backslashes, hold no slashes, and none begins with a dot.
pub open spec fn is_clean(path: Seq<char>) -> bool {
    &&& path.last() != '\\'
    &&& !path.contains('/')
    &&& forall|i: int|
        3 <= i < path.len() - 1 && #[trigger] path[i] == '\\' ==> path[i + 1] != '\\' && path[i
            + 1] != '.'
}

/// `Path::join` with a tidy path. The result ends in that path. What stands before it is the path
/// that it is joined to, and a separator where the platform wants one; a verbatim path that is not
/// clean may be put into another form first, of which nothing is said.
#[verifier::external_body]
fn path_join(base: &str, part: &str) -> (r: String)
    requires
        is_tidy(part@),
    ensures
        part@.is_suffix_of(r@),
        !is_verbatim(base@) || is_clean(base@) ==> is_joined(r@, base@, part@),
{
    Path::new(base).join(part).to_string_lossy().into_owned()
}

// ---------------------------------------------------------------------------
// What is known of a file
// ---------------------------------------------------------------------------

/// What the choice of an entry goes by in a file.
pub struct FileFacts {
    /// Its path.
    pub path: String,
    /// Whether it is there, as a file.
    pub exists: bool,
    /// Its extension in lower case, or nothing.
    pub ext: String,
    /// Its path with the extension `cmd`.
    pub as_cmd: String,
    /// Its path with the extension `bat`.
    pub as_bat: String,
    /// Its path with the extension `exe`.
    pub as_exe: String,
}

/// The content of [`FileFacts`].
#[verifier::ext_equal]
pub struct FileView {
    pub path: Seq<char>,
    pub exists: bool,
    pub ext: Seq<char>,
    pub as_cmd: Seq<char>,
    pub as_bat: Seq<char>,
    pub as_exe: Seq<char>,
}

impl View for FileFacts {
    type V = FileView;

    open spec fn view(&self) -> FileView {
        FileView {
            path: self.path@,
            exists: self.exists,
            ext: self.ext@,
            as_cmd: self.as_cmd@,
            as_bat: self.as_bat@,
            as_exe: self.as_exe@,
        }
    }
}

/// The extension of the file at a path, or nothing.
pub open spec fn ext_text(path: Seq<char>, back: bool) -> Seq<char> {
    match name_extension(file_name(path, back)) {
        Some(e) => e,
        None => Seq::empty(),
    }
}

/// A sibling of a file: the path with another extension, in one of the two ways of taking it apart.
/// Where it does not end in a name that has one it is the path itself, or ends in that extension or
/// in two dots.
pub open spec fn is_sibling(r: Seq<char>, path: Seq<char>, ext: Seq<char>) -> bool {
    &&& is_plain(path) && !is_dotted(path) ==> r == extended(path, ext, false) || r == extended(
        path,
        ext,
        true,
    )
    &&& r == path || (seq!['.'] + ext).is_suffix_of(r) || seq!['.', '.'].is_suffix_of(r)
}

/// Whether a text is another in lower case.
pub open spec fn is_lower_of(r: Seq<char>, s: Seq<char>) -> bool {
    r == lowercase(s) && (all_ascii(s) ==> r == ascii_lowercase(s))
}

/// Whether something is known of the file at a path, by what the path says: the extension and the
/// siblings, each in one of the two ways of taking the path apart.
pub open spec fn are_facts_of(f: FileView, path: Seq<char>) -> bool {
    &&& f.path == path
    &&& exists|ext: Seq<char>|
        {
            &&& #[trigger] is_lower_of(f.ext, ext)
            &&& !ext.contains('.')
            &&& is_plain(path) ==> ext == ext_text(path, false) || ext == ext_text(path, true)
        }
    &&& is_sibling(f.as_cmd, path, "cmd"@)
    &&& is_sibling(f.as_bat, path, "bat"@)
    &&& is_sibling(f.as_exe, path, "exe"@)
}

/// What is known of a file at a path, given whether there is one.
pub fn file_facts(path: &str, exists: bool) -> (r: FileFacts)
    ensures
        r.exists == exists,
        are_facts_of(r@, path@),
{
    proof {
        reveal_strlit("cmd");
        reveal_strlit("bat");
        reveal_strlit("exe");
    }
    let ext: String = match path_extension(path) {
        Some(e) => e,
        None => String::new(),
    };
    let r: FileFacts = FileFacts {
        path: path.to_owned(),
        exists,
        ext: to_lower(ext.as_str()),
        as_cmd: path_with_extension(path, "cmd"),
        as_bat: path_with_extension(path, "bat"),
        as_exe: path_with_extension(path, "exe"),
    };
    proof {
        assert(is_lower_of(r@.ext, ext@));
        assert(!ext@.contains('.'));
        assert(is_plain(path@) ==> ext@ == ext_text(path@, false) || ext@ == ext_text(path@, true));
        assert(is_sibling(r@.as_cmd, path@, "cmd"@));
        assert(is_sibling(r@.as_bat, path@, "bat"@));
        assert(is_sibling(r@.as_exe, path@, "exe"@));
    }
    r
}

// ---------------------------------------------------------------------------
// Paths that all platforms read alike, and siblings
// ---------------------------------------------------------------------------

/// A plain path of whose extension both ways of taking it apart say the same, and whose file's name
/// does not begin with two dots.
pub open spec fn is_settled(path: Seq<char>) -> bool {
    &&& is_plain(path)
    &&& !is_dotted(path)
    &&& name_extension(file_name(path, false)) == name_extension(file_name(path, true))
}

/// Whether what is known of a file goes by one way of taking its path apart.
pub open spec fn is_read_as(f: FileView, path: Seq<char>, back: bool) -> bool {
    &&& f.path == path
    &&& is_plain(path) ==> is_lower_of(f.ext, ext_text(path, back))
    &&& is_plain(path) && !is_dotted(path) ==> {
        &&& f.as_cmd == extended(path, "cmd"@, back)
        &&& f.as_bat == extended(path, "bat"@, back)
        &&& f.as_exe == extended(path, "exe"@, back)
    }
}

/// What is known of the file at a settled path goes by both ways of taking it apart.
pub proof fn settled_path_is_read_alike(f: FileView, path: Seq<char>, back: bool)
    requires
        is_settled(path),
        are_facts_of(f, path),
    ensures
        is_read_as(f, path, back),
{
}

/// A text that can be an extension: not empty, without dots and without what parts a path.
pub open spec fn is_extension(ext: Seq<char>) -> bool {
    &&& ext.len() > 0
    &&& forall|i: int|
        0 <= i < ext.len() ==> #[trigger] ext[i] != '.' && ext[i] != ':' && !is_cut(ext[i], true)
}

/// A text without what parts a path.
pub open spec fn is_part(more: Seq<char>) -> bool {
    forall|i: int| 0 <= i < more.len() ==> #[trigger] more[i] != ':' && !is_cut(more[i], true)
}

proof fn lemma_behind(path: Seq<char>, more: Seq<char>, back: bool)
    requires
        is_part(more),
    ensures
        behind(path + more, back) == behind(path, back) + more,
    decreases more.len(),
{
    if more.len() == 0 {
        assert(path + more == path);
        assert(behind(path, back) + more == behind(path, back));
    } else {
        let front = more.drop_last();
        assert forall|i: int| 0 <= i < front.len() implies #[trigger] front[i] != ':' && !is_cut(
            front[i],
            true,
        ) by {
            assert(front[i] == more[i]);
        }
        lemma_behind(path, front, back);
        assert(!is_cut(more[more.len() - 1], true));
        assert((path + more).drop_last() == path + front);
        assert((behind(path, back) + front).push(more.last()) == behind(path, back) + more);
    }
}

/// What is put behind a path, and holds nothing that parts it, is put behind its file's name.
proof fn lemma_name_grows(path: Seq<char>, more: Seq<char>, back: bool)
    requires
        is_part(more),
    ensures
        file_name(path + more, back) == file_name(path, back) + more,
{
    lemma_behind(path, more, back);
    let long = path + more;
    if path.len() < 2 {
        if long.len() >= 2 {
            assert(long[1] == more[1 - path.len()]);
        }
        assert(!has_drive(long));
    } else {
        assert(has_drive(long) == has_drive(path));
    }
    if has_drive(path) {
        assert(long.skip(2) == path.skip(2) + more);
    }
}

/// A path of some length is verbatim or doubled as before with a part put behind it.
proof fn lemma_same_beginning(path: Seq<char>, more: Seq<char>)
    requires
        path.len() > 0,
        is_part(more) || path.len() > 3,
        path.len() > 1 || !is_cut(path[0], true),
    ensures
        is_verbatim(path + more) == is_verbatim(path),
        is_doubled(path + more) == is_doubled(path),
{
    let long = path + more;
    let prefix = seq!['\\', '\\', '?', '\\'];
    if path.len() > 3 {
        assert(long.subrange(0, 4) == path.subrange(0, 4));
    } else if long.len() > 3 {
        assert(long.subrange(0, 4)[3] == long[3]);
        assert(long[3] == more[3 - path.len()]);
        assert(!is_cut(long[3], true));
        if is_verbatim(long) {
            assert(long.subrange(0, 4)[3] == prefix[3]);
        }
    }
}

/// A grounded path stays grounded with anything put behind it that does not change how it begins.
proof fn lemma_grounded_grows(path: Seq<char>, more: Seq<char>)
    requires
        is_grounded(path),
        path.len() > 0,
        is_part(more) || path.len() > 3,
        path.len() > 1 || !is_cut(path[0], true),
    ensures
        is_grounded(path + more),
{
    let long = path + more;
    lemma_same_beginning(path, more);
    if is_verbatim(path) {
        if path.len() > 6 && has_drive(path.skip(4)) && path[6] == '\\' {
            assert(long.skip(4)[0] == path.skip(4)[0]);
            assert(long.skip(4)[1] == path.skip(4)[1]);
        } else {
            let (i, j, k) = choose|i: int, j: int, k: int| is_volume_of(path, i, j, k);
            assert(is_volume_of(long, i, j, k));
        }
    } else if is_doubled(path) {
        let (i, j) = choose|i: int, j: int| is_share_of(path, i, j);
        assert(is_share_of(long, i, j));
    }
}

/// What stands behind the last `c` is no longer than what stands behind any.
proof fn lemma_last_is_short(s: Seq<char>, c: char, i: int)
    requires
        0 <= i < s.len(),
        s[i] == c,
    ensures
        after_last(s, c).len() <= s.len() - 1 - i,
    decreases s.len(),
{
    if s.last() != c {
        assert(s.drop_last()[i] == s[i]);
        lemma_last_is_short(s.drop_last(), c, i);
    }
}

/// A dot stands before what stands behind the last one, unless that is all there is.
proof fn lemma_dot_before(name: Seq<char>)
    ensures
        after_last(name, '.').len() <= name.len(),
        after_last(name, '.').len() < name.len() ==> name[name.len() - after_last(name, '.').len()
            - 1] == '.',
    decreases name.len(),
{
    if name.len() > 0 && name.last() != '.' {
        lemma_dot_before(name.drop_last());
    }
}

/// A name with an extension has one with anything put behind it.
proof fn lemma_extension_stays(name: Seq<char>, more: Seq<char>)
    requires
        name_extension(name) is Some,
    ensures
        name_extension(name + more) is Some,
{
    let i = name.len() - after_last(name, '.').len() - 1;
    lemma_dot_before(name);
    assert((name + more)[i] == '.');
    lemma_last_is_short(name + more, '.', i);
}

/// A plain path stays plain, and without leading dots in its file's name, when its name grows.
proof fn lemma_plain_grows(path: Seq<char>, more: Seq<char>)
    requires
        is_plain(path),
        is_part(more),
        more.len() > 0,
    ensures
        is_plain(path + more),
        !is_dotted(path) ==> !is_dotted(path + more),
{
    let long = path + more;
    lemma_named_path(path);
    lemma_name_grows(path, more, false);
    lemma_name_grows(path, more, true);
    lemma_longer_name(file_name(path, false), more);
    lemma_longer_name(file_name(path, true), more);
    lemma_grounded_grows(path, more);
    if is_verbatim(long) {
        assert(is_verbatim(path)) by {
            lemma_same_beginning(path, more);
        }
        if path.contains('/') {
            lemma_extension_stays(file_name(path, true), more);
        } else if long.contains('/') {
            let i = choose|i: int| 0 <= i < long.len() && long[i] == '/';
            if i < path.len() {
                assert(path[i] == '/');
            } else {
                assert(is_cut(more[i - path.len()], true));
            }
        }
    }
}

/// A path with a file's name is not empty.
proof fn lemma_named_path(path: Seq<char>)
    requires
        names_file(file_name(path, false)),
    ensures
        path.len() > 0,
{
}

/// A file's name with something behind it is a file's name, and begins with two dots only where it
/// did before.
proof fn lemma_longer_name(name: Seq<char>, more: Seq<char>)
    requires
        names_file(name),
        more.len() > 0,
    ensures
        names_file(name + more),
        seq!['.', '.'].is_prefix_of(name + more) ==> seq!['.', '.'].is_prefix_of(name),
{
    let long = name + more;
    let dots = seq!['.', '.'];
    if name.len() == 1 {
        if long[0] == '.' {
            assert(name == seq!['.']);
        }
        if dots.is_prefix_of(long) {
            assert(long.subrange(0, 2)[0] == dots[0]);
        }
    } else {
        if dots.is_prefix_of(long) {
            assert(name.subrange(0, 2) == long.subrange(0, 2));
        }
    }
    if long == dots {
        assert(long.len() == 2);
    }
}

proof fn lemma_dot_and_extension(ext: Seq<char>)
    requires
        is_extension(ext),
    ensures
        is_part(seq!['.'] + ext),
{
    let more = seq!['.'] + ext;
    assert forall|i: int| 0 <= i < more.len() implies #[trigger] more[i] != ':' && !is_cut(
        more[i],
        true,
    ) by {
        if i > 0 {
            assert(more[i] == ext[i - 1]);
        }
    }
}

/// A name with a dot and an extension put behind it has that extension.
proof fn lemma_new_extension(name: Seq<char>, ext: Seq<char>)
    requires
        name.len() > 0,
        is_extension(ext),
    ensures
        name_extension(name + (seq!['.'] + ext)) == Some(ext),
{
    assert(!ext.contains('.'));
    assert(name + (seq!['.'] + ext) == name + seq!['.'] + ext);
    lemma_after_last(name, '.', ext);
}

/// A name that ends in a dot, with an extension put behind it, has that extension.
proof fn lemma_extension_behind_dot(name: Seq<char>, ext: Seq<char>)
    requires
        name_extension(name) == Some(Seq::<char>::empty()),
        is_extension(ext),
    ensures
        name_extension(name + ext) == Some(ext),
{
    let stem = name.drop_last();
    assert(name.last() == '.');
    assert(name + ext == stem + (seq!['.'] + ext));
    lemma_new_extension(stem, ext);
}

/// A sibling of a plain path without an extension is plain too, and has the extension that it was
/// made for, in the way of taking paths apart that it was made in.
pub proof fn sibling_has_its_extension(path: Seq<char>, ext: Seq<char>, back: bool)
    requires
        is_plain(path),
        ext_text(path, back).len() == 0,
        is_extension(ext),
    ensures
        is_plain(extended(path, ext, back)),
        !is_dotted(path) ==> !is_dotted(extended(path, ext, back)),
        name_extension(file_name(extended(path, ext, back), back)) == Some(ext),
{
    let name = file_name(path, back);
    match name_extension(name) {
        Some(e) => {
            assert(path.take(path.len() - e.len()) == path);
            lemma_plain_grows(path, ext);
            lemma_name_grows(path, ext, back);
            lemma_extension_behind_dot(name, ext);
        },
        None => {
            let more = seq!['.'] + ext;
            lemma_dot_and_extension(ext);
            lemma_plain_grows(path, more);
            lemma_name_grows(path, more, back);
            assert(path + seq!['.'] + ext == path + more);
            lemma_new_extension(name, ext);
        },
    }
}

/// A sibling of a settled path without an extension is the same in both ways of taking the path
/// apart. It is settled too, and its extension is the one that it was made for.
pub proof fn sibling_of_settled_path_is_settled(path: Seq<char>, ext: Seq<char>)
    requires
        is_settled(path),
        ext_text(path, true).len() == 0,
        is_extension(ext),
    ensures
        extended(path, ext, false) == extended(path, ext, true),
        is_settled(extended(path, ext, true)),
        ext_text(extended(path, ext, true), false) == ext,
        ext_text(extended(path, ext, true), true) == ext,
{
    sibling_has_its_extension(path, ext, false);
    sibling_has_its_extension(path, ext, true);
}

// ---------------------------------------------------------------------------
// The vendor directory
// ---------------------------------------------------------------------------

/// Where the launcher's own copy of the entry may lie.
pub struct VendorPaths {
    /// The directory that holds it.
    pub dir: String,
    /// The files that it may be, in the order in which they are tried.
    pub candidates: Vec<String>,
    /// The script that is tried last.
    pub main_js: String,
}

/// The content of [`VendorPaths`].
#[verifier::ext_equal]
pub struct VendorView {
    pub dir: Seq<char>,
    pub candidates: Seq<Seq<char>>,
    pub main_js: Seq<char>,
}

impl View for VendorPaths {
    type V = VendorView;

    open spec fn view(&self) -> VendorView {
        VendorView {
            dir: self.dir@,
            candidates: texts(self.candidates@),
            main_js: self.main_js@,
        }
    }
}

/// The names of the files that are tried in the vendor directory, in that order.
pub open spec fn vendor_names() -> Seq<Seq<char>> {
    seq!["dsh.exe"@, "dsh.cmd"@, "bin\\dsh.exe"@, "bin\\dsh.cmd"@]
}

/// Whether a path is another with a tidy one behind it, or at least ends in that where the other is
/// verbatim and not clean.
pub open spec fn is_inside(r: Seq<char>, base: Seq<char>, part: Seq<char>) -> bool {
    &&& part.is_suffix_of(r)
    &&& !is_verbatim(base) || is_clean(base) ==> is_joined(r, base, part)
}

/// Whether places are those of the vendor directory `vendor`, `dsh` in the launcher's directory.
pub open spec fn are_vendor_paths(v: VendorView, exe_dir: Seq<char>) -> bool {
    &&& exists|vendor: Seq<char>|
        #[trigger] is_inside(vendor, exe_dir, "vendor"@) && is_inside(v.dir, vendor, "dsh"@)
    &&& v.candidates.len() == vendor_names().len()
    &&& forall|i: int|
        0 <= i < vendor_names().len() ==> is_inside(
            #[trigger] v.candidates[i],
            v.dir,
            vendor_names()[i],
        )
    &&& is_inside(v.main_js, v.dir, "main.js"@)
}

/// The places of the vendor directory `vendor`, `dsh` beside the launcher.
pub fn vendor_paths(exe_dir: &str) -> (r: VendorPaths)
    ensures
        are_vendor_paths(r@, exe_dir@),
{
    proof {
        reveal_strlit("vendor");
        reveal_strlit("dsh");
        reveal_strlit("dsh.exe");
        reveal_strlit("dsh.cmd");
        reveal_strlit("bin\\dsh.exe");
        reveal_strlit("bin\\dsh.cmd");
        reveal_strlit("main.js");
    }
    let vendor: String = path_join(exe_dir, "vendor");
    let dir: String = path_join(vendor.as_str(), "dsh");
    let mut candidates: Vec<String> = Vec::new();
    candidates.push(path_join(dir.as_str(), "dsh.exe"));
    candidates.push(path_join(dir.as_str(), "dsh.cmd"));
    candidates.push(path_join(dir.as_str(), "bin\\dsh.exe"));
    candidates.push(path_join(dir.as_str(), "bin\\dsh.cmd"));
    let main_js: String = path_join(dir.as_str(), "main.js");
    assert(is_inside(vendor@, exe_dir@, "vendor"@));
    VendorPaths { dir, candidates, main_js }
}

/// A text that another ends in is what is put behind the rest of it.
proof fn lemma_suffix(path: Seq<char>, end: Seq<char>) -> (rest: Seq<char>)
    requires
        end.is_suffix_of(path),
    ensures
        path == rest + end,
{
    let rest = path.take(path.len() - end.len());
    assert(path == rest + end);
    rest
}

/// The file at a path that ends in a name with an extension has that extension, whichever way the
/// path is taken apart.
proof fn lemma_named(path: Seq<char>, stem: Seq<char>, ext: Seq<char>, back: bool)
    requires
        stem.len() > 0,
        is_part(stem),
        is_extension(ext),
        (stem + seq!['.'] + ext).is_suffix_of(path),
    ensures
        name_extension(file_name(path, back)) == Some(ext),
        file_name(path, back).len() > 2,
{
    let end = stem + seq!['.'] + ext;
    let rest = lemma_suffix(path, end);
    assert forall|i: int| 0 <= i < end.len() implies #[trigger] end[i] != ':' && !is_cut(
        end[i],
        true,
    ) by {
        if i < stem.len() {
            assert(end[i] == stem[i]);
        } else if i > stem.len() {
            assert(end[i] == ext[i - stem.len() - 1]);
        }
    }
    lemma_name_grows(rest, end, back);
    let front = file_name(rest, back) + stem;
    assert(file_name(path, back) == front + (seq!['.'] + ext));
    lemma_new_extension(front, ext);
}

/// Of the file at a plain path that ends in a name with an ASCII extension, that extension is known,
/// in lower case.
pub proof fn extension_in_the_name_is_known(
    f: FileView,
    path: Seq<char>,
    stem: Seq<char>,
    ext: Seq<char>,
)
    requires
        is_plain(path),
        are_facts_of(f, path),
        stem.len() > 0,
        is_part(stem),
        is_extension(ext),
        all_ascii(ext),
        (stem + seq!['.'] + ext).is_suffix_of(path),
    ensures
        f.ext == ascii_lowercase(ext),
{
    lemma_named(path, stem, ext, false);
    lemma_named(path, stem, ext, true);
}

/// What the names of the vendor directory's candidates end in: `dsh.exe` and `dsh.cmd` in turn.
pub open spec fn candidate_ext(i: int) -> Seq<char> {
    if i % 2 == 0 {
        "exe"@
    } else {
        "cmd"@
    }
}

proof fn lemma_candidate_name(i: int)
    requires
        0 <= i < vendor_names().len(),
    ensures
        ("dsh"@ + seq!['.'] + candidate_ext(i)).is_suffix_of(vendor_names()[i]),
        is_part("dsh"@),
        "dsh"@.len() == 3,
        is_extension(candidate_ext(i)),
        all_ascii(candidate_ext(i)),
        ascii_lowercase(candidate_ext(i)) == candidate_ext(i),
{
    reveal_strlit("dsh");
    reveal_strlit("exe");
    reveal_strlit("cmd");
    reveal_strlit("dsh.exe");
    reveal_strlit("dsh.cmd");
    reveal_strlit("bin\\dsh.exe");
    reveal_strlit("bin\\dsh.cmd");
    let end = "dsh"@ + seq!['.'] + candidate_ext(i);
    let name = vendor_names()[i];
    assert(name.subrange(name.len() - end.len(), name.len() as int) == end);
}

/// The candidates of a grounded vendor directory (one that is clean too, where it is verbatim) lie
/// at plain paths, which end in `dsh.exe` and `dsh.cmd` in turn.
pub proof fn vendor_candidate_is_plain(v: VendorView, exe_dir: Seq<char>, i: int)
    requires
        are_vendor_paths(v, exe_dir),
        is_grounded(v.dir),
        is_verbatim(v.dir) ==> is_clean(v.dir),
        0 <= i < v.candidates.len(),
    ensures
        is_plain(v.candidates[i]),
        ("dsh"@ + seq!['.'] + candidate_ext(i)).is_suffix_of(v.candidates[i]),
{
    let path = v.candidates[i];
    let part = vendor_names()[i];
    let end = "dsh"@ + seq!['.'] + candidate_ext(i);
    lemma_candidate_name(i);
    let before = lemma_suffix(part, end);
    let rest = lemma_suffix(path, part);
    assert(path == (rest + before) + end);
    assert(path.subrange(path.len() - end.len(), path.len() as int) == end);
    lemma_named(path, "dsh"@, candidate_ext(i), false);
    lemma_named(path, "dsh"@, candidate_ext(i), true);
    let dir = v.dir;
    assert("dsh"@.is_suffix_of(dir));
    let more = path.skip(dir.len() as int);
    assert(path == dir + more) by {
        assert(is_joined(path, dir, part));
    }
    if dir.len() == 3 {
        assert(dir == "dsh"@);
        reveal_strlit("dsh");
        assert(path[0] == 'd');
        if is_verbatim(path) {
            assert(path.subrange(0, 4)[0] == path[0]);
        }
    } else {
        lemma_grounded_grows(dir, more);
    }
}

proof fn lemma_no_dot(path: Seq<char>, back: bool)
    requires
        !path.contains('.'),
    ensures
        name_extension(file_name(path, back)) is None,
{
    lemma_behind_is_of(path, back);
    let name = file_name(path, back);
    lemma_dot_before(name);
    let n = after_last(name, '.').len();
    if n < name.len() {
        let i = name.len() - n - 1;
        assert(path[path.len() - name.len() + i] == '.');
    }
}

/// The last part of a path is what the path ends in.
proof fn lemma_behind_is_of(path: Seq<char>, back: bool)
    ensures
        behind(path, back).is_suffix_of(path),
        file_name(path, back).is_suffix_of(path),
        forall|i: int|
            0 <= i < file_name(path, back).len() ==> #[trigger] file_name(path, back)[i] == path[path.len()
                - file_name(path, back).len() + i],
    decreases path.len(),
{
    if path.len() > 0 && !is_cut(path.last(), back) {
        lemma_behind_is_of(path.drop_last(), back);
        let front = behind(path.drop_last(), back);
        assert(path.subrange(path.len() - front.len() - 1, path.len() as int) =~= front.push(path.last()))
            by {
            let d = path.drop_last();
            assert(d.subrange(d.len() - front.len(), d.len() as int) == front);
            assert forall|i: int| 0 <= i < front.len() implies path[path.len() - front.len() - 1 + i]
                == front[i] by {
                assert(d.subrange(d.len() - front.len(), d.len() as int)[i] == front[i]);
            }
        }
    } else {
        assert(path.subrange(path.len() as int, path.len() as int) =~= Seq::<char>::empty());
    }
    let b = behind(path, back);
    assert(path.subrange(path.len() - b.len(), path.len() as int) == b);
    assert forall|i: int| 0 <= i < b.len() implies #[trigger] b[i] == path[path.len() - b.len() + i] by {
        assert(path.subrange(path.len() - b.len(), path.len() as int)[i] == b[i]);
    }
    let name = file_name(path, back);
    assert(path.subrange(path.len() - name.len(), path.len() as int) =~= name);
}

/// Of the file at a plain path without dots no extension is known, and its siblings are the path with
/// a dot and their extension behind it.
pub proof fn path_without_dots_has_no_extension(f: FileView, path: Seq<char>)
    requires
        is_plain(path),
        !path.contains('.'),
        are_facts_of(f, path),
    ensures
        f.path == path,
        f.ext == Seq::<char>::empty(),
        f.as_cmd == path + seq!['.', 'c', 'm', 'd'],
        f.as_bat == path + seq!['.', 'b', 'a', 't'],
        f.as_exe == path + seq!['.', 'e', 'x', 'e'],
{
    lemma_no_dot(path, false);
    lemma_no_dot(path, true);
    assert(ascii_lowercase(Seq::<char>::empty()) =~= Seq::<char>::empty());
    reveal_strlit("cmd");
    reveal_strlit("bat");
    reveal_strlit("exe");
    assert(!is_dotted(path)) by {
        lemma_behind_is_of(path, false);
        lemma_behind_is_of(path, true);
        let dots = seq!['.', '.'];
        let a = file_name(path, false);
        let b = file_name(path, true);
        if dots.is_prefix_of(a) {
            assert(a.subrange(0, 2)[0] == dots[0]);
            assert(path.contains(path[path.len() - a.len()]));
        }
        if dots.is_prefix_of(b) {
            assert(b.subrange(0, 2)[0] == dots[0]);
            assert(path.contains(path[path.len() - b.len()]));
        }
    }
    assert(path + seq!['.'] + "cmd"@ =~= path + seq!['.', 'c', 'm', 'd']);
    assert(path + seq!['.'] + "bat"@ =~= path + seq!['.', 'b', 'a', 't']);
    assert(path + seq!['.'] + "exe"@ =~= path + seq!['.', 'e', 'x', 'e']);
}

/// The siblings of the file at a plain path that ends in a name with an extension are the path with
/// their extension in place of that one.
pub proof fn siblings_change_the_extension_alone(
    f: FileView,
    base: Seq<char>,
    stem: Seq<char>,
    ext: Seq<char>,
)
    requires
        is_plain(base + (stem + seq!['.'] + ext)),
        !is_dotted(base + (stem + seq!['.'] + ext)),
        are_facts_of(f, base + (stem + seq!['.'] + ext)),
        stem.len() > 0,
        is_part(stem),
        is_extension(ext),
    ensures
        f.path == base + (stem + seq!['.'] + ext),
        f.as_cmd == base + stem + seq!['.', 'c', 'm', 'd'],
        f.as_bat == base + stem + seq!['.', 'b', 'a', 't'],
        f.as_exe == base + stem + seq!['.', 'e', 'x', 'e'],
{
    let end = stem + seq!['.'] + ext;
    let path = base + end;
    assert(path.subrange(path.len() - end.len(), path.len() as int) =~= end);
    lemma_named(path, stem, ext, false);
    lemma_named(path, stem, ext, true);
    reveal_strlit("cmd");
    reveal_strlit("bat");
    reveal_strlit("exe");
    assert(path.take(path.len() - ext.len()) + "cmd"@ =~= base + stem + seq!['.', 'c', 'm', 'd']);
    assert(path.take(path.len() - ext.len()) + "bat"@ =~= base + stem + seq!['.', 'b', 'a', 't']);
    assert(path.take(path.len() - ext.len()) + "exe"@ =~= base + stem + seq!['.', 'e', 'x', 'e']);
}

/// The vendor directory is `vendor`, `dsh` in the launcher's directory, and its candidates and its
/// script lie in it under their names, in order, whatever the launcher's directory is.
pub proof fn vendor_places_lie_beside_the_launcher(v: VendorView, exe_dir: Seq<char>)
    requires
        are_vendor_paths(v, exe_dir),
        !is_verbatim(exe_dir),
        exe_dir.len() > 3,
    ensures
        exe_dir.is_prefix_of(v.dir),
        "dsh"@.is_suffix_of(v.dir),
        exists|vendor: Seq<char>|
            exe_dir.is_prefix_of(vendor) && "vendor"@.is_suffix_of(vendor) && #[trigger] vendor.is_prefix_of(
                v.dir,
            ) && v.dir.len() <= vendor.len() + 4 && vendor.len() <= exe_dir.len() + 7,
        v.candidates.len() == 4,
        v.dir.is_prefix_of(v.main_js) && "main.js"@.is_suffix_of(v.main_js),
        v.dir.is_prefix_of(v.candidates[0]) && "dsh.exe"@.is_suffix_of(v.candidates[0]),
        v.dir.is_prefix_of(v.candidates[1]) && "dsh.cmd"@.is_suffix_of(v.candidates[1]),
        v.dir.is_prefix_of(v.candidates[2]) && "bin\\dsh.exe"@.is_suffix_of(v.candidates[2]),
        v.dir.is_prefix_of(v.candidates[3]) && "bin\\dsh.cmd"@.is_suffix_of(v.candidates[3]),
        v.candidates[0].len() <= v.dir.len() + 8 && v.candidates[1].len() <= v.dir.len() + 8,
{
    reveal_strlit("vendor");
    reveal_strlit("dsh");
    reveal_strlit("dsh.exe");
    reveal_strlit("dsh.cmd");
    let vendor = choose|vendor: Seq<char>|
        #[trigger] is_inside(vendor, exe_dir, "vendor"@) && is_inside(v.dir, vendor, "dsh"@);
    lemma_inside_is_longer(vendor, exe_dir, "vendor"@);
    lemma_inside_is_longer(v.dir, vendor, "dsh"@);
    assert(v.dir.subrange(0, exe_dir.len() as int) =~= exe_dir) by {
        assert(vendor.subrange(0, exe_dir.len() as int) == exe_dir);
        assert(v.dir.subrange(0, vendor.len() as int) == vendor);
        assert forall|i: int| 0 <= i < exe_dir.len() implies v.dir[i] == exe_dir[i] by {
            assert(vendor.subrange(0, exe_dir.len() as int)[i] == vendor[i]);
            assert(v.dir.subrange(0, vendor.len() as int)[i] == v.dir[i]);
        }
    }
    assert(vendor.is_prefix_of(v.dir));
    let names = vendor_names();
    assert(is_inside(v.candidates[0], v.dir, names[0]));
    assert(is_inside(v.candidates[1], v.dir, names[1]));
    assert(is_inside(v.candidates[2], v.dir, names[2]));
    assert(is_inside(v.candidates[3], v.dir, names[3]));
    lemma_inside_is_longer(v.candidates[0], v.dir, names[0]);
    lemma_inside_is_longer(v.candidates[1], v.dir, names[1]);
    lemma_inside_is_longer(v.candidates[2], v.dir, names[2]);
    lemma_inside_is_longer(v.candidates[3], v.dir, names[3]);
    lemma_inside_is_longer(v.main_js, v.dir, "main.js"@);
}

/// A path inside another of some length begins with it, and is longer by a name and a separator at
/// most.
proof fn lemma_inside_is_longer(r: Seq<char>, base: Seq<char>, part: Seq<char>)
    requires
        is_inside(r, base, part),
        !is_verbatim(base),
        base.len() > 3,
    ensures
        base.is_prefix_of(r),
        part.is_suffix_of(r),
        r.len() <= base.len() + part.len() + 1,
        !is_verbatim(r),
        r.len() > 3,
{
    assert(r.subrange(0, base.len() as int) =~= base);
    if is_verbatim(r) {
        assert(base.subrange(0, 4) =~= r.subrange(0, 4));
    }
}

} // verus!
