//! The entry that is started, and the commands that start and check it.
use vstd::prelude::*;

use crate::paths::{FileFacts, FileView};
use crate::text::{cat2, copy_texts, join, joined, same, texts};

verus! {

/// Something that can be started.
pub struct Entry {
    /// Whether the command interpreter starts it.
    pub via_cmd: bool,
    /// The program or script.
    pub program: String,
    /// What it is started with.
    pub args: Vec<String>,
    /// Whether it is taken without asking for its version.
    pub skip_version: bool,
    /// Whether it may take long to come up, because it is fetched first.
    pub slow_start: bool,
}

/// The content of an [`Entry`].
#[verifier::ext_equal]
pub struct EntryView {
    pub via_cmd: bool,
    pub program: Seq<char>,
    pub args: Seq<Seq<char>>,
    pub skip_version: bool,
    pub slow_start: bool,
}

impl View for Entry {
    type V = EntryView;

    open spec fn view(&self) -> EntryView {
        EntryView {
            via_cmd: self.via_cmd,
            program: self.program@,
            args: texts(self.args@),
            skip_version: self.skip_version,
            slow_start: self.slow_start,
        }
    }
}

/// A program to run, and its arguments.
pub struct CommandLine {
    pub program: String,
    pub args: Vec<String>,
}

/// The content of a [`CommandLine`].
#[verifier::ext_equal]
pub struct CommandView {
    pub program: Seq<char>,
    pub args: Seq<Seq<char>>,
}

impl View for CommandLine {
    type V = CommandView;

    open spec fn view(&self) -> CommandView {
        CommandView { program: self.program@, args: texts(self.args@) }
    }
}

/// A file that is started: a script through the command interpreter, a program by itself.
pub open spec fn file_entry(path: Seq<char>, via_cmd: bool) -> EntryView {
    EntryView {
        via_cmd,
        program: path,
        args: Seq::empty(),
        skip_version: false,
        slow_start: false,
    }
}

/// The script of the vendor directory, which `node` runs.
pub open spec fn node_entry(script: Seq<char>) -> EntryView {
    EntryView {
        via_cmd: false,
        program: "node"@,
        args: seq![script],
        skip_version: false,
        slow_start: false,
    }
}

/// A package that `npx` fetches and starts.
pub open spec fn npx_entry(pkg: Seq<char>) -> EntryView {
    EntryView {
        via_cmd: true,
        program: "npx"@,
        args: seq!["--yes"@, pkg],
        skip_version: true,
        slow_start: true,
    }
}

/// The script of the vendor directory, which `node` runs.
pub fn node_script(script: &str) -> (r: Entry)
    ensures
        r@ == node_entry(script@),
{
    let mut args: Vec<String> = Vec::new();
    args.push(script.to_owned());
    Entry { via_cmd: false, program: "node".to_owned(), args, skip_version: false, slow_start: false }
}

/// A package that `npx` fetches and starts.
pub fn npx_package(pkg: &str) -> (r: Entry)
    ensures
        r@ == npx_entry(pkg@),
{
    let mut args: Vec<String> = Vec::new();
    args.push("--yes".to_owned());
    args.push(pkg.to_owned());
    Entry { via_cmd: true, program: "npx".to_owned(), args, skip_version: true, slow_start: true }
}

// ---------------------------------------------------------------------------
// The entry that a file is
// ---------------------------------------------------------------------------

/// The extensions of scripts, which need the command interpreter.
pub open spec fn is_script(ext: Seq<char>) -> bool {
    ext == "cmd"@ || ext == "bat"@
}

/// The extensions of what can be started.
pub open spec fn is_launchable(ext: Seq<char>) -> bool {
    is_script(ext) || ext == "exe"@
}

/// Whether an extension is that of something that can be started.
pub fn launchable(ext: &str) -> (r: bool)
    ensures
        r == is_launchable(ext@),
{
    same(ext, "cmd") || same(ext, "bat") || same(ext, "exe")
}

/// The entry that a file is by its extension alone: a script, a program (as is a file without an
/// extension), or none.
pub open spec fn entry_by_ext(file: FileView) -> Result<EntryView, Seq<char>> {
    if is_script(file.ext) {
        Ok(file_entry(file.path, true))
    } else if file.ext == "exe"@ || file.ext.len() == 0 {
        Ok(file_entry(file.path, false))
    } else {
        Err("不支持的入口文件类型: "@ + file.path)
    }
}

/// The siblings of a file without an extension, in the order in which they are tried.
pub open spec fn sibling(file: FileView, k: int) -> Seq<char> {
    if k == 0 {
        file.as_cmd
    } else if k == 1 {
        file.as_bat
    } else {
        file.as_exe
    }
}

/// How many siblings a file without an extension has.
pub const SIBLINGS: usize = 3;

/// What a file comes to.
pub enum FileStep {
    /// It is this entry.
    Entry(Entry),
    /// It is none; the text says so.
    Refused(String),
    /// It is whatever the file at this path is, if there is one.
    Sibling(String),
}

/// The content of a [`FileStep`].
pub enum FileStepView {
    Entry(EntryView),
    Refused(Seq<char>),
    Sibling(Seq<char>),
}

impl View for FileStep {
    type V = FileStepView;

    open spec fn view(&self) -> FileStepView {
        match self {
            FileStep::Entry(e) => FileStepView::Entry(e@),
            FileStep::Refused(m) => FileStepView::Refused(m@),
            FileStep::Sibling(p) => FileStepView::Sibling(p@),
        }
    }
}

/// What a file comes to after a number of its siblings were found missing: a file without an
/// extension stands for the first sibling that is there.
pub open spec fn file_step(file: FileView, missing: int) -> FileStepView {
    if file.ext.len() == 0 && missing < SIBLINGS {
        FileStepView::Sibling(sibling(file, missing))
    } else {
        match entry_by_ext(file) {
            Ok(e) => FileStepView::Entry(e),
            Err(m) => FileStepView::Refused(m),
        }
    }
}

/// The path of a sibling of a file without an extension.
pub fn sibling_path(file: &FileFacts, k: usize) -> (r: String)
    ensures
        r@ == sibling(file@, k as int),
{
    if k == 0 {
        file.as_cmd.clone()
    } else if k == 1 {
        file.as_bat.clone()
    } else {
        file.as_exe.clone()
    }
}

/// What a file comes to after a number of its siblings were found missing.
pub fn entry_from_file(file: &FileFacts, missing: usize) -> (r: FileStep)
    ensures
        r@ == file_step(file@, missing as int),
{
    let ext: &str = file.ext.as_str();
    if ext.is_empty() && missing < SIBLINGS {
        FileStep::Sibling(sibling_path(file, missing))
    } else {
        let script: bool = same(ext, "cmd") || same(ext, "bat");
        if script || same(ext, "exe") || ext.is_empty() {
            let args: Vec<String> = Vec::new();
            assert(texts(args@) == Seq::<Seq<char>>::empty());
            FileStep::Entry(
                Entry {
                    via_cmd: script,
                    program: file.path.clone(),
                    args,
                    skip_version: false,
                    slow_start: false,
                },
            )
        } else {
            FileStep::Refused(cat2("不支持的入口文件类型: ", file.path.as_str()))
        }
    }
}

// ---------------------------------------------------------------------------
// Commands
// ---------------------------------------------------------------------------

/// The command that starts an entry.
pub open spec fn start_command(e: EntryView) -> CommandView {
    if e.via_cmd {
        CommandView { program: "cmd.exe"@, args: seq!["/C"@, e.program] + e.args }
    } else {
        CommandView { program: e.program, args: e.args }
    }
}

/// The command that starts an entry.
pub fn spawn_dsh(e: &Entry) -> (r: CommandLine)
    ensures
        r@ == start_command(e@),
{
    let mut args: Vec<String> = copy_texts(&e.args);
    if e.via_cmd {
        let mut line: Vec<String> = Vec::new();
        line.push("/C".to_owned());
        line.push(e.program.clone());
        line.append(&mut args);
        CommandLine { program: "cmd.exe".to_owned(), args: line }
    } else {
        CommandLine { program: e.program.clone(), args }
    }
}

/// The command that asks an entry for its version: the one that starts it, with one more argument.
pub open spec fn version_command(e: EntryView) -> CommandView {
    let start = start_command(e);
    CommandView { program: start.program, args: start.args.push("--version"@) }
}

/// The command whose success says that an entry works, or none for an entry that is taken as it
/// is.
pub fn version_ok(e: &Entry) -> (r: Option<CommandLine>)
    ensures
        e.skip_version ==> r is None,
        !e.skip_version ==> (r matches Some(c) && c@ == version_command(e@)),
{
    if e.skip_version {
        None
    } else {
        let mut c: CommandLine = spawn_dsh(e);
        c.args.push("--version".to_owned());
        Some(c)
    }
}

/// The command whose success says that `npm` is there.
pub open spec fn npm_command() -> CommandView {
    CommandView { program: "cmd.exe"@, args: seq!["/C"@, "npm --version"@] }
}

/// The command whose success says that `npm` is there.
pub fn npm_ok() -> (r: CommandLine)
    ensures
        r@ == npm_command(),
{
    let mut args: Vec<String> = Vec::new();
    args.push("/C".to_owned());
    args.push("npm --version".to_owned());
    CommandLine { program: "cmd.exe".to_owned(), args }
}

/// The command that lists where a package lies on the search path.
pub open spec fn where_command(pkg: Seq<char>) -> CommandView {
    CommandView { program: "where.exe"@, args: seq![pkg] }
}

/// The command that lists where a package lies on the search path.
pub fn where_line(pkg: &str) -> (r: CommandLine)
    ensures
        r@ == where_command(pkg@),
{
    let mut args: Vec<String> = Vec::new();
    args.push(pkg.to_owned());
    CommandLine { program: "where.exe".to_owned(), args }
}

// ---------------------------------------------------------------------------
// What is said of an entry
// ---------------------------------------------------------------------------

/// What is said of the entry that is used.
pub open spec fn entry_message(e: EntryView) -> Seq<char> {
    if e.via_cmd {
        "[INFO] 使用入口: cmd /C \""@ + e.program + "\" "@ + joined(e.args, " "@)
    } else {
        "[INFO] 使用入口: "@ + e.program + " "@ + joined(e.args, " "@)
    }
}

/// What is said of the entry that is used.
pub fn print_entry(e: &Entry) -> (r: String)
    ensures
        r@ == entry_message(e@),
{
    let mut r: String = if e.via_cmd {
        "[INFO] 使用入口: cmd /C \"".to_owned()
    } else {
        "[INFO] 使用入口: ".to_owned()
    };
    r.append(e.program.as_str());
    if e.via_cmd {
        r.append("\" ");
    } else {
        r.append(" ");
    }
    r.append(join(&e.args, " ").as_str());
    r
}

} // verus!
