//! What the launcher is told: its configuration file, its command line, its defaults.
use vstd::prelude::*;

use crate::net::{parse_port, port_of};
use crate::text::{
    cat2, cat3, number, opt_text, parse_u16, parse_u64, same, split_whitespace,
    texts, words,
};

verus! {

/// The package that is started where none is named.
pub const DEFAULT_PACKAGE: &'static str = "dsh";

/// The address of the service where none is named.
pub const DEFAULT_URL: &'static str = "http://127.0.0.1:3080";

/// How long to wait for the service, in seconds, where nothing else is said.
pub const DEFAULT_TIMEOUT_SECS: u64 = 30;

/// What the configuration file says, with what the command line adds.
pub struct Config {
    /// The path of the entry, in place of looking for one.
    pub dsh_path: Option<String>,
    /// The address of the service.
    pub url: Option<String>,
    /// The port to probe.
    pub port: Option<u16>,
    /// How long to wait for the service, in seconds.
    pub timeout_secs: Option<u64>,
    /// The package to look for.
    pub package: Option<String>,
    /// What the entry is started with.
    pub args: Vec<String>,
}

/// The content of a [`Config`].
#[verifier::ext_equal]
pub struct ConfigView {
    pub dsh_path: Option<Seq<char>>,
    pub url: Option<Seq<char>>,
    pub port: Option<u16>,
    pub timeout_secs: Option<u64>,
    pub package: Option<Seq<char>>,
    pub args: Seq<Seq<char>>,
}

impl View for Config {
    type V = ConfigView;

    open spec fn view(&self) -> ConfigView {
        ConfigView {
            dsh_path: opt_text(self.dsh_path),
            url: opt_text(self.url),
            port: self.port,
            timeout_secs: self.timeout_secs,
            package: opt_text(self.package),
            args: texts(self.args@),
        }
    }
}

/// The arguments of the entry where none are given.
pub open spec fn standard_args() -> Seq<Seq<char>> {
    seq!["web"@]
}

/// The configuration where nothing is given.
pub open spec fn standard_config() -> ConfigView {
    ConfigView {
        dsh_path: None,
        url: None,
        port: None,
        timeout_secs: None,
        package: None,
        args: standard_args(),
    }
}

/// The arguments of the entry where none are given.
pub fn default_args() -> (r: Vec<String>)
    ensures
        texts(r@) == standard_args(),
{
    let mut r: Vec<String> = Vec::new();
    r.push("web".to_owned());
    r
}

impl Default for Config {
    fn default() -> (r: Self)
        ensures
            r@ == standard_config(),
    {
        Config {
            dsh_path: None,
            url: None,
            port: None,
            timeout_secs: None,
            package: None,
            args: default_args(),
        }
    }
}

/// What became of the configuration file.
pub enum ConfigSource {
    /// There is none that can be read.
    Missing,
    /// It is no configuration; the text says why.
    Malformed(String),
    /// It was read.
    Parsed(Config),
}

/// The configuration to start from, and what is to be said about it.
///
/// Without a usable file it is the default one.
pub fn load_config(source: ConfigSource) -> (r: (Config, Option<String>))
    ensures
        r.0@ == (match source {
            ConfigSource::Parsed(c) => c@,
            _ => standard_config(),
        }),
        opt_text(r.1) == (match source {
            ConfigSource::Malformed(e) => Some(
                "[WARN] config.json 解析失败,使用默认配置: "@ + e@,
            ),
            _ => None::<Seq<char>>,
        }),
{
    match source {
        ConfigSource::Missing => (Config::default(), None),
        ConfigSource::Malformed(e) => (
            Config::default(),
            Some(cat2("[WARN] config.json 解析失败,使用默认配置: ", e.as_str())),
        ),
        ConfigSource::Parsed(c) => (c, None),
    }
}

// ---------------------------------------------------------------------------
// The command line
// ---------------------------------------------------------------------------

/// The flags that are followed by a value.
pub open spec fn takes_value(flag: Seq<char>) -> bool {
    ||| flag == "--url"@
    ||| flag == "--port"@
    ||| flag == "--timeout"@
    ||| flag == "--package"@
    ||| flag == "--args"@
    ||| flag == "--dsh-path"@
}

/// The configuration with the value of one flag put in, or why the value will not do.
pub open spec fn with_flag(cfg: ConfigView, flag: Seq<char>, v: Seq<char>) -> Result<
    ConfigView,
    Seq<char>,
> {
    if flag == "--url"@ {
        Ok(ConfigView { url: Some(v), ..cfg })
    } else if flag == "--port"@ {
        match number(v, u16::MAX as nat) {
            Some(n) => Ok(ConfigView { port: Some(n as u16), ..cfg }),
            None => Err("--port 非法数值: "@ + v),
        }
    } else if flag == "--timeout"@ {
        match number(v, u64::MAX as nat) {
            Some(n) => Ok(ConfigView { timeout_secs: Some(n as u64), ..cfg }),
            None => Err("--timeout 非法数值: "@ + v),
        }
    } else if flag == "--package"@ {
        Ok(ConfigView { package: Some(v), ..cfg })
    } else if flag == "--args"@ {
        Ok(ConfigView { args: words(v), ..cfg })
    } else {
        Ok(ConfigView { dsh_path: Some(v), ..cfg })
    }
}

/// What a command line makes of a configuration: the configuration with every flag up to the end
/// or to the first mistake put in, and whether help is asked for or what the mistake is.
pub open spec fn command_line(cfg: ConfigView, args: Seq<Seq<char>>, help: bool) -> (
    ConfigView,
    Result<bool, Seq<char>>,
)
    decreases args.len(),
{
    if args.len() == 0 {
        (cfg, Ok(help))
    } else if args[0] == "--check"@ {
        command_line(cfg, args.skip(1), help)
    } else if args[0] == "--help"@ || args[0] == "-h"@ {
        command_line(cfg, args.skip(1), true)
    } else if takes_value(args[0]) {
        if args.len() == 1 {
            (cfg, Err("参数 "@ + args[0] + " 缺少值"@))
        } else {
            match with_flag(cfg, args[0], args[1]) {
                Ok(c) => command_line(c, args.skip(2), help),
                Err(m) => (cfg, Err(m)),
            }
        }
    } else {
        (cfg, Err("未知参数: "@ + args[0] + "\n\n可用 -h/--help 查看用法"@))
    }
}

/// The content of an outcome that is a value or a message.
pub open spec fn outcome<T>(r: Result<T, String>) -> Result<T, Seq<char>> {
    match r {
        Ok(t) => Ok(t),
        Err(m) => Err(m@),
    }
}

/// Puts the value of one flag into the configuration.
fn set_flag(cfg: &mut Config, flag: &str, v: &String) -> (r: Result<(), String>)
    requires
        takes_value(flag@),
    ensures
        match with_flag(old(cfg)@, flag@, v@) {
            Ok(c) => r is Ok && final(cfg)@ == c,
            Err(m) => outcome(r) == Err::<(), Seq<char>>(m) && final(cfg)@ == old(cfg)@,
        },
{
    if same(flag, "--url") {
        cfg.url = Some(v.clone());
    } else if same(flag, "--port") {
        match parse_u16(v.as_str()) {
            Some(n) => cfg.port = Some(n),
            None => return Err(cat2("--port 非法数值: ", v.as_str())),
        }
    } else if same(flag, "--timeout") {
        match parse_u64(v.as_str()) {
            Some(n) => cfg.timeout_secs = Some(n),
            None => return Err(cat2("--timeout 非法数值: ", v.as_str())),
        }
    } else if same(flag, "--package") {
        cfg.package = Some(v.clone());
    } else if same(flag, "--args") {
        cfg.args = split_whitespace(v.as_str());
    } else {
        cfg.dsh_path = Some(v.clone());
    }
    Ok(())
}

/// Puts a command line into the configuration, and says whether it asks for help.
///
/// On a mistake the flags before it stay put in.
pub fn apply_cli(cfg: &mut Config, args: &[String]) -> (r: Result<bool, String>)
    ensures
        (final(cfg)@, outcome(r)) == command_line(old(cfg)@, texts(args@), false),
{
    let mut help: bool = false;
    let mut i: usize = 0;
    let ghost all = texts(args@);
    assert(all.skip(0) == all);
    while i < args.len()
        invariant
            i <= args@.len(),
            all == texts(args@),
            command_line(cfg@, all.skip(i as int), help) == command_line(old(cfg)@, all, false),
        decreases args@.len() - i,
    {
        let a: &str = args[i].as_str();
        let ghost rest = all.skip(i as int);
        assert(rest[0] == a@);
        assert(rest.skip(1) == all.skip(i + 1));
        if same(a, "--check") {
        } else if same(a, "--help") || same(a, "-h") {
            help = true;
        } else if same(a, "--url") || same(a, "--port") || same(a, "--timeout") || same(
            a,
            "--package",
        ) || same(a, "--args") || same(a, "--dsh-path") {
            i = i + 1;
            if i >= args.len() {
                return Err(cat3("参数 ", a, " 缺少值"));
            }
            assert(rest[1] == args@[i as int]@);
            assert(rest.skip(2) == all.skip(i + 1));
            match set_flag(cfg, a, &args[i]) {
                Ok(()) => {},
                Err(m) => return Err(m),
            }
        } else {
            return Err(cat3("未知参数: ", a, "\n\n可用 -h/--help 查看用法"));
        }
        i = i + 1;
    }
    assert(all.skip(i as int).len() == 0);
    Ok(help)
}

// ---------------------------------------------------------------------------
// The settings of a run
// ---------------------------------------------------------------------------

/// What a run goes by once every source has been asked.
pub struct Settings {
    pub url: String,
    pub port: u16,
    pub timeout_secs: u64,
    pub package: String,
}

/// The content of [`Settings`].
#[verifier::ext_equal]
pub struct SettingsView {
    pub url: Seq<char>,
    pub port: u16,
    pub timeout_secs: u64,
    pub package: Seq<char>,
}

impl View for Settings {
    type V = SettingsView;

    open spec fn view(&self) -> SettingsView {
        SettingsView {
            url: self.url@,
            port: self.port,
            timeout_secs: self.timeout_secs,
            package: self.package@,
        }
    }
}

/// A given value, or else the other.
pub open spec fn or_else<T>(given: Option<T>, other: T) -> T {
    match given {
        Some(t) => t,
        None => other,
    }
}

/// The settings that a configuration comes to: what it gives, else the default, where the port's
/// default is the one that the address names.
pub open spec fn settings_of(cfg: ConfigView) -> SettingsView {
    let url = or_else(cfg.url, DEFAULT_URL@);
    SettingsView {
        url,
        port: or_else(cfg.port, port_of(url)),
        timeout_secs: or_else(cfg.timeout_secs, DEFAULT_TIMEOUT_SECS),
        package: or_else(cfg.package, DEFAULT_PACKAGE@),
    }
}

/// The text of an optional string, or else another.
fn text_or(given: &Option<String>, other: &str) -> (r: String)
    ensures
        r@ == or_else(opt_text(*given), other@),
{
    match given {
        Some(s) => s.clone(),
        None => other.to_owned(),
    }
}

/// The settings that a configuration comes to.
pub fn settings(cfg: &Config) -> (r: Settings)
    ensures
        r@ == settings_of(cfg@),
{
    let url: String = text_or(&cfg.url, DEFAULT_URL);
    let port: u16 = match cfg.port {
        Some(p) => p,
        None => parse_port(url.as_str()),
    };
    let timeout_secs: u64 = match cfg.timeout_secs {
        Some(t) => t,
        None => DEFAULT_TIMEOUT_SECS,
    };
    let package: String = text_or(&cfg.package, DEFAULT_PACKAGE);
    Settings { url, port, timeout_secs, package }
}

} // verus!
