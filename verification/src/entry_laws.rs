//! What becomes of a file, and what an entry is started with.
use vstd::prelude::*;

use crate::entry::{
    entry_message, file_step, node_entry, npm_command, npx_entry, sibling, start_command,
    version_command, where_command, CommandView, EntryView, FileStepView,
};
use crate::paths::FileView;
use crate::text::joined;

verus! {

/// Everything that an entry has to say is handed over, in order, whatever there is of it: a program
/// gets exactly the entry's arguments, and the command interpreter gets the entry's program and then
/// its arguments.
pub proof fn every_argument_is_handed_over(e: EntryView)
    ensures
        !e.via_cmd ==> start_command(e).program == e.program && start_command(e).args == e.args,
        e.via_cmd ==> start_command(e).program == "cmd.exe"@ && start_command(e).args.len()
            == e.args.len() + 2 && start_command(e).args[0] == "/C"@ && start_command(e).args[1]
            == e.program && start_command(e).args.skip(2) == e.args,
{
    if e.via_cmd {
        assert(start_command(e).args.skip(2) =~= e.args);
    }
}

/// More arguments of an entry are more arguments of its command, behind all others and in order.
pub proof fn more_arguments_come_last(e: EntryView, more: Seq<Seq<char>>)
    ensures
        ({
            let full = EntryView { args: e.args + more, ..e };
            &&& start_command(full).program == start_command(e).program
            &&& start_command(full).args == start_command(e).args + more
        }),
{
    assert(start_command(EntryView { args: e.args + more, ..e }).args =~= start_command(e).args
        + more);
}

/// The version is asked of the very command that starts an entry, with `--version` as one more
/// argument behind all others.
pub proof fn version_is_asked_of_what_is_started(e: EntryView)
    ensures
        version_command(e).program == start_command(e).program,
        version_command(e).args == start_command(e).args + seq!["--version"@],
{
    assert(start_command(e).args.push("--version"@) =~= start_command(e).args + seq![
        "--version"@,
    ]);
}

/// A file is what its extension says: a `cmd` or `bat` goes through the command interpreter, an
/// `exe` does not, and any other is refused by its path. It is started by its own path, with no
/// arguments of its own, and only when it has said its version.
pub proof fn file_is_what_its_extension_says(f: FileView, missing: int)
    requires
        f.ext.len() > 0,
    ensures
        f.ext == "cmd"@ || f.ext == "bat"@ ==> file_step(f, missing) == FileStepView::Entry(
            EntryView {
                via_cmd: true,
                program: f.path,
                args: Seq::empty(),
                skip_version: false,
                slow_start: false,
            },
        ),
        f.ext == "exe"@ ==> file_step(f, missing) == FileStepView::Entry(
            EntryView {
                via_cmd: false,
                program: f.path,
                args: Seq::empty(),
                skip_version: false,
                slow_start: false,
            },
        ),
        f.ext != "cmd"@ && f.ext != "bat"@ && f.ext != "exe"@ ==> file_step(f, missing)
            == FileStepView::Refused("不支持的入口文件类型: "@ + f.path),
{
    reveal_strlit("cmd");
    reveal_strlit("bat");
    reveal_strlit("exe");
    assert("exe"@[0] != "cmd"@[0] && "exe"@[0] != "bat"@[0]);
}

/// A file without an extension stands for its siblings, first `cmd`, then `bat`, then `exe`; where
/// they are missing it is a program itself.
pub proof fn file_without_extension_stands_for_siblings(f: FileView, missing: int)
    requires
        f.ext.len() == 0,
        0 <= missing,
    ensures
        missing == 0 ==> file_step(f, missing) == FileStepView::Sibling(f.as_cmd),
        missing == 1 ==> file_step(f, missing) == FileStepView::Sibling(f.as_bat),
        missing == 2 ==> file_step(f, missing) == FileStepView::Sibling(f.as_exe),
        missing >= 3 ==> file_step(f, missing) == FileStepView::Entry(
            EntryView {
                via_cmd: false,
                program: f.path,
                args: Seq::empty(),
                skip_version: false,
                slow_start: false,
            },
        ),
        sibling(f, 0) == f.as_cmd,
        sibling(f, 1) == f.as_bat,
        sibling(f, 2) == f.as_exe,
{
    reveal_strlit("cmd");
    reveal_strlit("bat");
    assert("cmd"@.len() == 3 && "bat"@.len() == 3);
}

/// The vendor directory's script is run by `node`, with its path as the one argument, and has to say
/// its version; a package is fetched and run by `npx` without asking, and does not.
pub proof fn scripts_and_packages_are_run_by_name(script: Seq<char>, pkg: Seq<char>)
    ensures
        start_command(node_entry(script)) == (CommandView { program: "node"@, args: seq![script] }),
        !node_entry(script).skip_version,
        start_command(npx_entry(pkg)) == (CommandView {
            program: "cmd.exe"@,
            args: seq!["/C"@, "npx"@, "--yes"@, pkg],
        }),
        npx_entry(pkg).skip_version,
        where_command(pkg) == (CommandView { program: "where.exe"@, args: seq![pkg] }),
        npm_command() == (CommandView { program: "cmd.exe"@, args: seq!["/C"@, "npm --version"@] }),
{
    assert(seq!["/C"@, "npx"@] + seq!["--yes"@, pkg] =~= seq!["/C"@, "npx"@, "--yes"@, pkg]);
}

/// What is said of an entry names its program and ends in all of its arguments.
pub proof fn message_names_program_and_arguments(e: EntryView)
    ensures
        entry_message(e) == "[INFO] 使用入口: "@ + (if e.via_cmd {
            "cmd /C \""@ + e.program + "\""@
        } else {
            e.program
        }) + " "@ + joined(e.args, " "@),
{
    reveal_strlit("[INFO] 使用入口: ");
    reveal_strlit("[INFO] 使用入口: cmd /C \"");
    reveal_strlit("cmd /C \"");
    reveal_strlit("\"");
    reveal_strlit("\" ");
    reveal_strlit(" ");
    assert("[INFO] 使用入口: cmd /C \""@ =~= "[INFO] 使用入口: "@ + "cmd /C \""@);
    assert("\" "@ =~= "\""@ + " "@);
    assert(entry_message(e) =~= "[INFO] 使用入口: "@ + (if e.via_cmd {
        "cmd /C \""@ + e.program + "\""@
    } else {
        e.program
    }) + " "@ + joined(e.args, " "@));
}

} // verus!
