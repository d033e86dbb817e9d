use dsh_launcher::config::{apply_cli, default_args, load_config, settings, Config, ConfigSource};
use dsh_launcher::net::parse_port;

fn cli(v: &[&str]) -> Vec<String> {
    v.iter().map(|s| s.to_string()).collect()
}

#[test]
fn parse_port_default() {
    assert_eq!(parse_port("http://127.0.0.1:8080"), 8080);
    assert_eq!(parse_port("http://127.0.0.1:9090/web"), 9090);
    assert_eq!(parse_port("http://127.0.0.1"), 3080);
}

#[test]
fn default_args_is_web() {
    assert_eq!(Config::default().args, vec!["web"]);
}

#[test]
fn apply_cli_overrides() {
    let mut c = Config::default();
    apply_cli(&mut c, &cli(&["--port", "8899", "--args", "web --port 8899", "--timeout", "60", "--url", "http://127.0.0.1:9000"])).unwrap();
    assert_eq!(c.port, Some(8899));
    assert_eq!(c.args, vec!["web", "--port", "8899"]);
    assert_eq!(c.timeout_secs, Some(60));
    assert_eq!(c.url.as_deref(), Some("http://127.0.0.1:9000"));
}

#[test]
fn apply_cli_unknown_flag() {
    let mut c = Config::default();
    assert!(apply_cli(&mut c, &cli(&["--nope"])).is_err());
}

#[test]
fn apply_cli_missing_value() {
    let mut c = Config::default();
    assert!(apply_cli(&mut c, &cli(&["--port"])).is_err());
    assert!(apply_cli(&mut c, &cli(&["--port", "abc"])).is_err());
}

#[test]
fn apply_cli_ignores_check_and_help() {
    let mut c = Config::default();
    assert!(!apply_cli(&mut c, &cli(&["--check"])).unwrap());
    assert!(apply_cli(&mut c, &cli(&["-h"])).unwrap());
    assert!(apply_cli(&mut c, &cli(&["--help"])).unwrap());
}

fn error(c: &mut Config, v: &[&str]) -> String {
    match apply_cli(c, &cli(v)) {
        Ok(_) => panic!("a mistake was let through"),
        Err(m) => m,
    }
}

#[test]
fn mistakes_are_named() {
    let mut c = Config::default();
    assert_eq!(error(&mut c, &["--nope"]), "未知参数: --nope\n\n可用 -h/--help 查看用法");
    assert_eq!(error(&mut c, &["--dsh-path"]), "参数 --dsh-path 缺少值");
    assert_eq!(error(&mut c, &["--port", "65536"]), "--port 非法数值: 65536");
    assert_eq!(error(&mut c, &["--timeout", "-1"]), "--timeout 非法数值: -1");
}

#[test]
fn flags_before_a_mistake_stay() {
    let mut c = Config::default();
    assert!(apply_cli(&mut c, &cli(&["--package", "other", "--port", "x", "--url", "u"])).is_err());
    assert_eq!(c.package.as_deref(), Some("other"));
    assert_eq!(c.port, None);
    assert_eq!(c.url, None);
}

#[test]
fn last_value_of_a_flag_prevails() {
    let mut c = Config::default();
    c.timeout_secs = Some(7);
    apply_cli(&mut c, &cli(&["--port", "1", "--check", "--port", "+2", "--args", "  a\tb  ", "--dsh-path", "--help"])).unwrap();
    assert_eq!(c.port, Some(2));
    assert_eq!(c.timeout_secs, Some(7));
    assert_eq!(c.args, vec!["a", "b"]);
    assert_eq!(c.dsh_path.as_deref(), Some("--help"));
}

#[test]
fn explicit_args_may_be_none() {
    let mut c = Config::default();
    apply_cli(&mut c, &cli(&["--args", " "])).unwrap();
    assert!(c.args.is_empty());
}

#[test]
fn file_is_used_or_defaults_are() {
    let mut given = Config::default();
    given.port = Some(9);
    let (c, warning) = load_config(ConfigSource::Parsed(given));
    assert_eq!(c.port, Some(9));
    assert_eq!(warning, None);
    let (c, warning) = load_config(ConfigSource::Malformed("eof".to_string()));
    assert_eq!(c.port, None);
    assert_eq!(c.args, default_args());
    assert_eq!(warning.as_deref(), Some("[WARN] config.json 解析失败,使用默认配置: eof"));
    let (c, warning) = load_config(ConfigSource::Missing);
    assert_eq!(c.args, vec!["web"]);
    assert_eq!(warning, None);
}

#[test]
fn settings_by_precedence() {
    let s = settings(&Config::default());
    assert_eq!(s.url, "http://127.0.0.1:3080");
    assert_eq!(s.port, 3080);
    assert_eq!(s.timeout_secs, 30);
    assert_eq!(s.package, "dsh");
    let mut c = Config::default();
    c.url = Some("http://127.0.0.1:9000/x".to_string());
    assert_eq!(settings(&c).port, 9000);
    c.port = Some(1);
    assert_eq!(settings(&c).port, 1);
    apply_cli(&mut c, &cli(&["--url", "http://h:5", "--timeout", "18446744073709551615"])).unwrap();
    let s = settings(&c);
    assert_eq!(s.url, "http://h:5");
    assert_eq!(s.port, 1);
    assert_eq!(s.timeout_secs, u64::MAX);
}

fn shown(c: &Config) -> String {
    format!("{:?} {:?} {:?} {:?} {:?} {:?}", c.dsh_path, c.url, c.port, c.timeout_secs, c.package, c.args)
}

#[test]
fn lines_one_after_the_other_are_read_like_one() {
    let (a, b) = (["--port", "1", "-h"], ["--url", "u", "--port", "2", "--args", "x y"]);
    let mut one = Config::default();
    assert_eq!(apply_cli(&mut one, &cli(&a)), Ok(true));
    assert_eq!(apply_cli(&mut one, &cli(&b)), Ok(false));
    let mut both = Config::default();
    assert_eq!(apply_cli(&mut both, &cli(&[&a[..], &b[..]].concat())), Ok(true));
    assert_eq!(shown(&one), shown(&both));
}

#[test]
fn mistake_leaves_the_flags_before_it() {
    let mut c = Config::default();
    assert_eq!(error(&mut c, &["--url", "u", "--timeout", "1s", "--package", "p"]), "--timeout 非法数值: 1s");
    let mut before = Config::default();
    assert_eq!(apply_cli(&mut before, &cli(&["--url", "u"])), Ok(false));
    assert_eq!(shown(&c), shown(&before));
}

#[test]
fn same_line_again_changes_nothing() {
    for line in [&["--port", "1", "--args", "a b", "--help"][..], &["--url", "u", "--port"][..]] {
        let mut c = Config::default();
        let first = apply_cli(&mut c, &cli(line));
        let once = shown(&c);
        assert_eq!(apply_cli(&mut c, &cli(line)), first);
        assert_eq!(shown(&c), once);
    }
}
