//! Whether the privileged helper daemon runs, and what to do when it does not.

use vstd::prelude::*;
use vstd::string::*;
use crate::number::{parse_unsigned, parse_unsigned_chars};
use crate::platform::Platform;
use crate::text::{chars_of, concat, trim, trim_bounds};

verus! {

/// Attempts made to see the daemon come up after asking for elevation.
pub const ELEVATION_WAIT_ATTEMPTS: u32 = 40;

/// Pause between those attempts, in milliseconds.
pub const ELEVATION_WAIT_MS: u64 = 500;

/// The daemon's pid, from its pid file's contents.
pub fn parse_pid(content: &str) -> (r: Option<u32>)
    ensures
        match r {
            Some(p) => parse_unsigned(trim(content@), u32::MAX as nat) == Some(p as nat),
            None => parse_unsigned(trim(content@), u32::MAX as nat) is None,
        },
{
    let cs = chars_of(content);
    let (a, b) = trim_bounds(&cs);
    let t = crate::number::slice_vec(&cs, a, b);
    match parse_unsigned_chars(&t, u32::MAX as u64) {
        Some(p) => Some(p as u32),
        None => None,
    }
}

/// Whether `ps -p <pid> -o pid=` printed anything but whitespace, that is,
/// whether the process exists.
pub fn ps_shows_process(stdout: &str) -> (r: bool)
    ensures
        r == (trim(stdout@).len() > 0),
{
    let cs = chars_of(stdout);
    let (a, b) = trim_bounds(&cs);
    a < b
}

/// What to do when the daemon is not running.
#[derive(Debug, Clone)]
pub enum DaemonStart {
    /// Fail with these instructions for starting it by hand.
    Instruct(String),
    /// Start it elevated, then wait for it.
    Elevate,
    /// Fail: the platform has no daemon.
    Unsupported(String),
}

/// The instructions for starting the daemon by hand from a terminal.
pub open spec fn start_instructions(helper: Seq<char>) -> Seq<char> {
    "权限守护进程未运行。\n\n请在终端中执行以下命令启动它（需要输入一次密码）：\n\nsudo nohup "@ + helper
        + " serve >/dev/null 2>&1 &\n\n启动完成后返回本窗口重新操作。"@
}

/// How to get the daemon (the program at `helper`) running: on macOS the user
/// starts it from a terminal that may access the disks; on Windows it is started
/// elevated; elsewhere there is none.
pub fn daemon_start(platform: Platform, helper: &str) -> (r: DaemonStart)
    ensures
        platform == Platform::MacOs ==> (r matches DaemonStart::Instruct(m) && m@ == start_instructions(helper@)),
        platform == Platform::Windows ==> r is Elevate,
        platform != Platform::MacOs && platform != Platform::Windows ==> (r matches DaemonStart::Unsupported(m)
            && m@ == "此平台暂不支持权限守护进程"@),
{
    match platform {
        Platform::MacOs => DaemonStart::Instruct(
            concat(
                concat("权限守护进程未运行。\n\n请在终端中执行以下命令启动它（需要输入一次密码）：\n\nsudo nohup ", helper).as_str(),
                " serve >/dev/null 2>&1 &\n\n启动完成后返回本窗口重新操作。",
            ),
        ),
        Platform::Windows => DaemonStart::Elevate,
        _ => DaemonStart::Unsupported(String::from_str("此平台暂不支持权限守护进程")),
    }
}

/// Whether `ShellExecuteW` started the elevated daemon: it returns a value above
/// 32 on success.
pub fn elevation_result(code: isize) -> (r: Result<(), String>)
    ensures
        code > 32 ==> r is Ok,
        code <= 32 ==> (r matches Err(e) && e@ == "无法启动提权进程（UAC 被拒绝或 ShellExecute 失败）"@),
{
    if code <= 32 {
        Err(String::from_str("无法启动提权进程（UAC 被拒绝或 ShellExecute 失败）"))
    } else {
        Ok(())
    }
}

/// The error when the elevated daemon did not come up in time.
pub fn elevation_timeout() -> (r: String)
    ensures
        r@ == "等待管理员授权超时，请检查 UAC 对话框"@,
{
    String::from_str("等待管理员授权超时，请检查 UAC 对话框")
}

} // verus!
