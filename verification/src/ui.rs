//! The windows with a message that the launcher shows.
use vstd::prelude::*;

use crate::utf16::{units, wide};

verus! {

/// The title of an error.
pub const ERROR_TITLE: &'static str = "DSH 启动器错误";

/// The title of the help.
pub const HELP_TITLE: &'static str = "DSH 启动器";

/// The help.
pub const HELP_TEXT: &'static str = "DSH-Launcher v0.1.0 — DeepSeek Harness (dsh) Web 启动器

用法: dsh-launcher.exe [选项]

选项:
  --check           仅验证 dsh 命令解析链,不实际启动
  --url <URL>       服务地址(默认 http://127.0.0.1:3080)
  --port <N>        就绪探测端口(默认取 url 端口)
  --timeout <秒>    就绪等待超时(默认 30)
  --package <名>    npm 包名,npx 拉取用(默认 dsh)
  --args <\"a b c\">  dsh 启动参数(默认 \"web\";显式设置会覆盖 config.json)
  --dsh-path <路径> 显式指定 dsh 入口,跳过解析链
  -h, --help        显示本帮助

配置优先级: 命令行 > config.json > 内置默认
无需 config.json 即可直接运行。";

/// A window with a message: its title and its text, as the system's call takes them.
pub struct MessageBox {
    pub title: Vec<u16>,
    pub text: Vec<u16>,
}

/// The window that shows an error.
pub fn err_popup(message: &str) -> (r: MessageBox)
    ensures
        r.title@ == units(ERROR_TITLE@).push(0),
        r.text@ == units(message@).push(0),
{
    MessageBox { title: wide(ERROR_TITLE), text: wide(message) }
}

/// The window that shows the help.
pub fn show_help() -> (r: MessageBox)
    ensures
        r.title@ == units(HELP_TITLE@).push(0),
        r.text@ == units(HELP_TEXT@).push(0),
{
    MessageBox { title: wide(HELP_TITLE), text: wide(HELP_TEXT) }
}

} // verus!
