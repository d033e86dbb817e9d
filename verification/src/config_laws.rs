//! Which source of the configuration prevails.
use vstd::prelude::*;

use crate::config::{
    command_line, settings_of, takes_value, with_flag, ConfigView,
};
use crate::net::port_of;
use crate::text::{number, words};

verus! {

/// The value that a command line gives a flag: the last, where it gives more than one.
pub open spec fn last_value(args: Seq<Seq<char>>, flag: Seq<char>) -> Option<Seq<char>>
    decreases args.len(),
{
    if args.len() == 0 {
        None
    } else if !takes_value(args[0]) {
        last_value(args.skip(1), flag)
    } else if args.len() == 1 {
        None
    } else {
        match last_value(args.skip(2), flag) {
            Some(v) => Some(v),
            None => if args[0] == flag {
                Some(args[1])
            } else {
                None
            },
        }
    }
}

/// Whether a command line asks for help.
pub open spec fn asks_help(args: Seq<Seq<char>>) -> bool
    decreases args.len(),
{
    if args.len() == 0 {
        false
    } else if !takes_value(args[0]) {
        args[0] == "--help"@ || args[0] == "-h"@ || asks_help(args.skip(1))
    } else if args.len() == 1 {
        false
    } else {
        asks_help(args.skip(2))
    }
}

/// No flag is taken for another.
pub proof fn lemma_flags_differ()
    ensures
        !takes_value("--check"@),
        !takes_value("--help"@),
        !takes_value("-h"@),
        "--check"@ != "--help"@,
        "--check"@ != "-h"@,
        "--url"@ != "--port"@,
        "--url"@ != "--timeout"@,
        "--url"@ != "--package"@,
        "--url"@ != "--args"@,
        "--url"@ != "--dsh-path"@,
        "--port"@ != "--timeout"@,
        "--port"@ != "--package"@,
        "--port"@ != "--args"@,
        "--port"@ != "--dsh-path"@,
        "--timeout"@ != "--package"@,
        "--timeout"@ != "--args"@,
        "--timeout"@ != "--dsh-path"@,
        "--package"@ != "--args"@,
        "--package"@ != "--dsh-path"@,
        "--args"@ != "--dsh-path"@,
{
    reveal_strlit("--check");
    reveal_strlit("--help");
    reveal_strlit("-h");
    reveal_strlit("--url");
    reveal_strlit("--port");
    reveal_strlit("--timeout");
    reveal_strlit("--package");
    reveal_strlit("--args");
    reveal_strlit("--dsh-path");
    assert("--check"@.len() == 7);
    assert("--help"@.len() == 6);
    assert("-h"@.len() == 2);
    assert("--url"@.len() == 5);
    assert("--port"@.len() == 6);
    assert("--timeout"@.len() == 9);
    assert("--package"@.len() == 9);
    assert("--args"@.len() == 6);
    assert("--dsh-path"@.len() == 10);
    assert("--port"@[2] != "--args"@[2]);
    assert("--port"@[2] != "--help"@[2]);
    assert("--args"@[2] != "--help"@[2]);
    assert("--timeout"@[2] != "--package"@[2]);
}

/// What a command line without a mistake makes of a configuration: every flag that it gives
/// prevails, with its last value, over what the configuration said, which stays for all others.
pub open spec fn overridden(cfg: ConfigView, args: Seq<Seq<char>>) -> ConfigView {
    ConfigView {
        url: match last_value(args, "--url"@) {
            Some(v) => Some(v),
            None => cfg.url,
        },
        port: match last_value(args, "--port"@) {
            Some(v) => Some(number(v, u16::MAX as nat)->Some_0 as u16),
            None => cfg.port,
        },
        timeout_secs: match last_value(args, "--timeout"@) {
            Some(v) => Some(number(v, u64::MAX as nat)->Some_0 as u64),
            None => cfg.timeout_secs,
        },
        package: match last_value(args, "--package"@) {
            Some(v) => Some(v),
            None => cfg.package,
        },
        args: match last_value(args, "--args"@) {
            Some(v) => words(v),
            None => cfg.args,
        },
        dsh_path: match last_value(args, "--dsh-path"@) {
            Some(v) => Some(v),
            None => cfg.dsh_path,
        },
    }
}

proof fn lemma_overridden(cfg: ConfigView, args: Seq<Seq<char>>, help: bool)
    requires
        command_line(cfg, args, help).1 is Ok,
    ensures
        command_line(cfg, args, help).0 == overridden(cfg, args),
        command_line(cfg, args, help).1 == Ok::<bool, Seq<char>>(help || asks_help(args)),
    decreases args.len(),
{
    lemma_flags_differ();
    if args.len() == 0 {
    } else if args[0] == "--check"@ {
        lemma_overridden(cfg, args.skip(1), help);
    } else if args[0] == "--help"@ || args[0] == "-h"@ {
        lemma_overridden(cfg, args.skip(1), true);
    } else {
        let c = with_flag(cfg, args[0], args[1])->Ok_0;
        lemma_overridden(c, args.skip(2), help);
    }
}

/// The command line prevails over the configuration, flag by flag and with the last value of each,
/// and leaves the rest of it as it is.
pub proof fn command_line_prevails(cfg: ConfigView, args: Seq<Seq<char>>)
    requires
        command_line(cfg, args, false).1 is Ok,
    ensures
        command_line(cfg, args, false).0 == overridden(cfg, args),
{
    lemma_overridden(cfg, args, false);
}

/// Help is asked for by its flags alone, wherever they stand in the place of a flag.
pub proof fn help_is_asked_for_by_its_flags(cfg: ConfigView, args: Seq<Seq<char>>)
    requires
        command_line(cfg, args, false).1 is Ok,
    ensures
        command_line(cfg, args, false).1 == Ok::<bool, Seq<char>>(asks_help(args)),
{
    lemma_overridden(cfg, args, false);
}

/// The settings of a run come from the command line, else from the configuration, else from the
/// defaults; the port's default is the one that the address names.
pub proof fn settings_have_an_order_of_precedence(cfg: ConfigView, args: Seq<Seq<char>>)
    requires
        command_line(cfg, args, false).1 is Ok,
    ensures
        ({
            let s = settings_of(command_line(cfg, args, false).0);
            &&& s.url == (match (last_value(args, "--url"@), cfg.url) {
                (Some(v), _) => v,
                (None, Some(v)) => v,
                (None, None) => "http://127.0.0.1:3080"@,
            })
            &&& s.package == (match (last_value(args, "--package"@), cfg.package) {
                (Some(v), _) => v,
                (None, Some(v)) => v,
                (None, None) => "dsh"@,
            })
            &&& s.port == (match (last_value(args, "--port"@), cfg.port) {
                (Some(v), _) => number(v, u16::MAX as nat)->Some_0 as u16,
                (None, Some(n)) => n,
                (None, None) => port_of(s.url),
            })
            &&& s.timeout_secs == (match (last_value(args, "--timeout"@), cfg.timeout_secs) {
                (Some(v), _) => number(v, u64::MAX as nat)->Some_0 as u64,
                (None, Some(n)) => n,
                (None, None) => 30,
            })
        }),
{
    lemma_overridden(cfg, args, false);
}

/// The flag for a check changes nothing in the configuration, nor what the rest of the command
/// line comes to.
pub proof fn check_flag_changes_nothing(cfg: ConfigView, args: Seq<Seq<char>>, help: bool)
    ensures
        command_line(cfg, seq!["--check"@] + args, help) == command_line(cfg, args, help),
{
    assert((seq!["--check"@] + args).skip(1) == args);
}

/// An unknown flag is a mistake, whatever follows it, and so is a known one without its value.
pub proof fn mistakes_are_refused(cfg: ConfigView, flag: Seq<char>, rest: Seq<Seq<char>>, help: bool)
    ensures
        !takes_value(flag) && flag != "--check"@ && flag != "--help"@ && flag != "-h"@
            ==> command_line(cfg, seq![flag] + rest, help) == (
            cfg,
            Err::<bool, Seq<char>>("未知参数: "@ + flag + "\n\n可用 -h/--help 查看用法"@),
        ),
        takes_value(flag) ==> command_line(cfg, seq![flag], help) == (
            cfg,
            Err::<bool, Seq<char>>("参数 "@ + flag + " 缺少值"@),
        ),
{
    lemma_flags_differ();
    assert((seq![flag] + rest)[0] == flag);
}

// ---------------------------------------------------------------------------
// Mistakes, and command lines one after the other
// ---------------------------------------------------------------------------

/// Whether a value will do for a flag: those for a port and a time want a number.
pub open spec fn value_will_do(flag: Seq<char>, v: Seq<char>) -> bool {
    &&& flag == "--port"@ ==> number(v, u16::MAX as nat) is Some
    &&& flag == "--timeout"@ ==> number(v, u64::MAX as nat) is Some
}

/// How many arguments stand before the flag at fault, or how many there are where none is.
pub open spec fn read_len(args: Seq<Seq<char>>) -> nat
    decreases args.len(),
{
    if args.len() == 0 {
        0
    } else if args[0] == "--check"@ || args[0] == "--help"@ || args[0] == "-h"@ {
        1 + read_len(args.skip(1))
    } else if takes_value(args[0]) && args.len() > 1 && value_will_do(args[0], args[1]) {
        2 + read_len(args.skip(2))
    } else {
        0
    }
}

/// What is said of a flag at fault and of what follows it: it is not known, or its value is missing
/// or will not do.
pub open spec fn fault(args: Seq<Seq<char>>) -> Seq<char> {
    if !takes_value(args[0]) {
        "未知参数: "@ + args[0] + "\n\n可用 -h/--help 查看用法"@
    } else if args.len() == 1 {
        "参数 "@ + args[0] + " 缺少值"@
    } else if args[0] == "--port"@ {
        "--port 非法数值: "@ + args[1]
    } else {
        "--timeout 非法数值: "@ + args[1]
    }
}

proof fn lemma_read(cfg: ConfigView, args: Seq<Seq<char>>, help: bool)
    ensures
        read_len(args) <= args.len(),
        command_line(cfg, args, help).1 is Ok <==> read_len(args) == args.len(),
        command_line(cfg, args.take(read_len(args) as int), help).1 is Ok,
        command_line(cfg, args.take(read_len(args) as int), help).0 == command_line(
            cfg,
            args,
            help,
        ).0,
        read_len(args) < args.len() ==> command_line(cfg, args, help).1 == Err::<bool, Seq<char>>(
            fault(args.skip(read_len(args) as int)),
        ),
    decreases args.len(),
{
    lemma_flags_differ();
    let n = read_len(args) as int;
    let front = args.take(n);
    if n == 0 {
        assert(args.skip(0) == args);
    } else {
        let k: int = if takes_value(args[0]) {
            2
        } else {
            1
        };
        let rest = args.skip(k);
        let c = if k == 2 {
            with_flag(cfg, args[0], args[1])->Ok_0
        } else {
            cfg
        };
        let h = help || args[0] == "--help"@ || args[0] == "-h"@;
        lemma_read(c, rest, h);
        assert(front.skip(k) == rest.take(n - k));
        assert(rest.skip(n - k) == args.skip(n));
        assert(front[0] == args[0]);
        if k == 2 {
            assert(front[1] == args[1]);
        }
    }
}

/// On a mistake the configuration is what the arguments before the flag at fault make of it, which
/// hold no mistake, and what is said is of that flag.
pub proof fn mistake_leaves_what_stands_before_it(cfg: ConfigView, args: Seq<Seq<char>>)
    requires
        command_line(cfg, args, false).1 is Err,
    ensures
        ({
            let n = read_len(args) as int;
            let before = command_line(cfg, args.take(n), false);
            &&& n < args.len()
            &&& before.1 is Ok
            &&& command_line(cfg, args, false) == (
                before.0,
                Err::<bool, Seq<char>>(fault(args.skip(n))),
            )
        }),
{
    lemma_read(cfg, args, false);
}

proof fn lemma_joined(cfg: ConfigView, a: Seq<Seq<char>>, b: Seq<Seq<char>>, help: bool)
    requires
        command_line(cfg, a, help).1 is Ok,
    ensures
        command_line(cfg, a + b, help) == command_line(
            command_line(cfg, a, help).0,
            b,
            command_line(cfg, a, help).1->Ok_0,
        ),
    decreases a.len(),
{
    let all = a + b;
    if a.len() == 0 {
        assert(all == b);
    } else if a[0] == "--check"@ || a[0] == "--help"@ || a[0] == "-h"@ {
        lemma_flags_differ();
        assert(all.skip(1) == a.skip(1) + b);
        lemma_joined(cfg, a.skip(1), b, help || a[0] == "--help"@ || a[0] == "-h"@);
    } else {
        assert(all.skip(2) == a.skip(2) + b);
        assert(all[1] == a[1]);
        lemma_joined(with_flag(cfg, a[0], a[1])->Ok_0, a.skip(2), b, help);
    }
}

proof fn lemma_help(cfg: ConfigView, args: Seq<Seq<char>>, help: bool)
    ensures
        command_line(cfg, args, help).0 == command_line(cfg, args, false).0,
        command_line(cfg, args, help).1 == (match command_line(cfg, args, false).1 {
            Ok(h) => Ok::<bool, Seq<char>>(help || h),
            Err(m) => Err(m),
        }),
    decreases args.len(),
{
    if args.len() == 0 {
    } else if args[0] == "--check"@ {
        lemma_help(cfg, args.skip(1), help);
    } else if args[0] == "--help"@ || args[0] == "-h"@ {
        lemma_help(cfg, args.skip(1), true);
    } else if takes_value(args[0]) && args.len() > 1 {
        match with_flag(cfg, args[0], args[1]) {
            Ok(c) => lemma_help(c, args.skip(2), help),
            Err(_) => {},
        }
    }
}

/// Reading two command lines one after the other is reading them joined, where the first holds no
/// mistake: the configuration is the same, and so is the mistake of the second, or help is asked for
/// by either.
pub proof fn lines_in_turn_are_one_line(cfg: ConfigView, a: Seq<Seq<char>>, b: Seq<Seq<char>>)
    requires
        command_line(cfg, a, false).1 is Ok,
    ensures
        ({
            let one = command_line(cfg, a, false);
            let two = command_line(one.0, b, false);
            command_line(cfg, a + b, false) == (
                two.0,
                match two.1 {
                    Ok(h) => Ok::<bool, Seq<char>>(one.1->Ok_0 || h),
                    Err(m) => Err(m),
                },
            )
        }),
{
    let one = command_line(cfg, a, false);
    lemma_joined(cfg, a, b, false);
    lemma_help(one.0, b, one.1->Ok_0);
}

/// Reading the same command line twice changes nothing: neither the configuration, nor what is said.
pub proof fn reading_twice_changes_nothing(cfg: ConfigView, args: Seq<Seq<char>>)
    ensures
        command_line(command_line(cfg, args, false).0, args, false) == command_line(
            cfg,
            args,
            false,
        ),
{
    let c = command_line(cfg, args, false).0;
    let front = args.take(read_len(args) as int);
    lemma_read(cfg, args, false);
    lemma_read(c, args, false);
    lemma_overridden(cfg, front, false);
    lemma_overridden(c, front, false);
    assert(overridden(overridden(cfg, front), front) == overridden(cfg, front));
    if read_len(args) == args.len() {
        assert(front == args);
    }
}

// ---------------------------------------------------------------------------
// What each flag does
// ---------------------------------------------------------------------------

proof fn lemma_flag_and_value(
    cfg: ConfigView,
    flag: Seq<char>,
    v: Seq<char>,
    rest: Seq<Seq<char>>,
    help: bool,
)
    requires
        takes_value(flag),
    ensures
        command_line(cfg, seq![flag, v] + rest, help) == (match with_flag(cfg, flag, v) {
            Ok(c) => command_line(c, rest, help),
            Err(m) => (cfg, Err::<bool, Seq<char>>(m)),
        }),
{
    lemma_flags_differ();
    let args = seq![flag, v] + rest;
    assert(args[0] == flag && args[1] == v);
    assert(args.skip(2) == rest);
}

/// A flag with a text for its value puts that text in, whatever it is and whatever else is there,
/// and changes nothing else; the rest of the line is read with that.
pub proof fn text_flags_put_their_value_in(
    cfg: ConfigView,
    v: Seq<char>,
    rest: Seq<Seq<char>>,
    help: bool,
)
    ensures
        command_line(cfg, seq!["--url"@, v] + rest, help) == command_line(
            ConfigView { url: Some(v), ..cfg },
            rest,
            help,
        ),
        command_line(cfg, seq!["--package"@, v] + rest, help) == command_line(
            ConfigView { package: Some(v), ..cfg },
            rest,
            help,
        ),
        command_line(cfg, seq!["--dsh-path"@, v] + rest, help) == command_line(
            ConfigView { dsh_path: Some(v), ..cfg },
            rest,
            help,
        ),
        command_line(cfg, seq!["--args"@, v] + rest, help) == command_line(
            ConfigView { args: words(v), ..cfg },
            rest,
            help,
        ),
{
    lemma_flags_differ();
    lemma_flag_and_value(cfg, "--url"@, v, rest, help);
    lemma_flag_and_value(cfg, "--package"@, v, rest, help);
    lemma_flag_and_value(cfg, "--dsh-path"@, v, rest, help);
    lemma_flag_and_value(cfg, "--args"@, v, rest, help);
}

/// A flag with a number for its value puts the number in, every one that fits, and changes nothing
/// else; what is no such number is a mistake, and ends the reading with all as it was.
pub proof fn number_flags_put_their_value_in(
    cfg: ConfigView,
    v: Seq<char>,
    rest: Seq<Seq<char>>,
    help: bool,
)
    ensures
        command_line(cfg, seq!["--port"@, v] + rest, help) == (match number(v, 65535) {
            Some(n) => command_line(ConfigView { port: Some(n as u16), ..cfg }, rest, help),
            None => (cfg, Err("--port 非法数值: "@ + v)),
        }),
        command_line(cfg, seq!["--timeout"@, v] + rest, help) == (match number(
            v,
            18446744073709551615,
        ) {
            Some(n) => command_line(ConfigView { timeout_secs: Some(n as u64), ..cfg }, rest, help),
            None => (cfg, Err("--timeout 非法数值: "@ + v)),
        }),
{
    lemma_flags_differ();
    lemma_flag_and_value(cfg, "--port"@, v, rest, help);
    lemma_flag_and_value(cfg, "--timeout"@, v, rest, help);
}

/// The flags without a value change no configuration: two of them ask for help, and one does
/// nothing. A line that has come to its end says whether help was asked for.
pub proof fn bare_flags_change_no_configuration(cfg: ConfigView, rest: Seq<Seq<char>>, help: bool)
    ensures
        command_line(cfg, seq!["--check"@] + rest, help) == command_line(cfg, rest, help),
        command_line(cfg, seq!["--help"@] + rest, help) == command_line(cfg, rest, true),
        command_line(cfg, seq!["-h"@] + rest, help) == command_line(cfg, rest, true),
        command_line(cfg, Seq::empty(), help) == (cfg, Ok::<bool, Seq<char>>(help)),
{
    lemma_flags_differ();
    assert((seq!["--check"@] + rest).skip(1) == rest);
    assert((seq!["--help"@] + rest).skip(1) == rest);
    assert((seq!["-h"@] + rest).skip(1) == rest);
    assert((seq!["--help"@] + rest)[0] == "--help"@);
    assert((seq!["-h"@] + rest)[0] == "-h"@);
}

/// What is none of the nine flags is a mistake wherever a flag should stand, and so is a flag whose
/// value is missing; all stays as it was.
pub proof fn anything_else_is_a_mistake(
    cfg: ConfigView,
    flag: Seq<char>,
    rest: Seq<Seq<char>>,
    help: bool,
)
    ensures
        flag != "--check"@ && flag != "--help"@ && flag != "-h"@ && flag != "--url"@ && flag
            != "--port"@ && flag != "--timeout"@ && flag != "--package"@ && flag != "--args"@ && flag
            != "--dsh-path"@ ==> command_line(cfg, seq![flag] + rest, help) == (
            cfg,
            Err::<bool, Seq<char>>("未知参数: "@ + flag + "\n\n可用 -h/--help 查看用法"@),
        ),
        flag == "--url"@ || flag == "--port"@ || flag == "--timeout"@ || flag == "--package"@ || flag
            == "--args"@ || flag == "--dsh-path"@ ==> command_line(cfg, seq![flag], help) == (
            cfg,
            Err::<bool, Seq<char>>("参数 "@ + flag + " 缺少值"@),
        ),
{
    mistakes_are_refused(cfg, flag, rest, help);
}

} // verus!
