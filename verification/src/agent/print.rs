//! Printing: the script that the service sends is run in a process of its own.
use vstd::prelude::*;

use crate::codec;
use crate::codec::encode_base64;
use crate::decimal;
use crate::decimal::{option_i32_text, unsigned_text};
use crate::text;
use crate::text::{text_of_bytes, trimmed_str};

verus! {

/// How long a print process may take, in seconds. It watches the print queue for a
/// minute, but a dialog of a printer driver can keep it for ever.
pub const PRINT_TIMEOUT_SECS: u64 = 120;

/// How long to wait before a print process is looked at again, in milliseconds.
pub const POLL_MILLIS: u64 = 200;

/// The arguments of PowerShell that run a script.
pub open spec fn arguments(script: Seq<char>) -> Seq<Seq<char>> {
    seq!["-NoProfile"@, "-WindowStyle"@, "Hidden"@, "-Command"@, script]
}

/// The arguments of PowerShell that run a script.
pub fn print_arguments(script: &str) -> (r: Vec<String>)
    ensures
        text::texts(r@) == arguments(script@),
{
    let r: Vec<String> = vec![
        "-NoProfile".to_owned(),
        "-WindowStyle".to_owned(),
        "Hidden".to_owned(),
        "-Command".to_owned(),
        script.to_owned(),
    ];
    assert(text::texts(r@) =~= arguments(script@));
    r
}

/// What the print process reads: the picture in base64, which it decodes.
pub fn print_input(png: &[u8]) -> (r: String)
    ensures
        r@ == codec::base64_text(png@),
        codec::base64_bytes(r@) == codec::holds(png@),
{
    encode_base64(png)
}

/// What is to be done about a print process.
#[derive(Debug, PartialEq, Eq, Structural, Clone, Copy)]
pub enum Poll {
    /// It has ended: read what it has written.
    Read,
    /// Its time is up: end it.
    Kill,
    /// Look again later.
    Again,
}

/// Decides what is to be done about a print process. One that has ended is read, even
/// where its time is up.
pub fn poll_process(ended: bool, elapsed_millis: u128, timeout_millis: u128) -> (r: Poll)
    ensures
        r == (if ended {
            Poll::Read
        } else if elapsed_millis >= timeout_millis {
            Poll::Kill
        } else {
            Poll::Again
        }),
{
    if ended {
        Poll::Read
    } else if elapsed_millis >= timeout_millis {
        Poll::Kill
    } else {
        Poll::Again
    }
}

/// What is said of a print process whose time was up.
pub open spec fn timeout_text(secs: u64) -> Seq<char> {
    "打印进程超过 "@ + decimal::decimal(secs as int)
        + " 秒未结束，已终止。通常是打印机无响应，或驱动弹出对话框（如 Microsoft Print to PDF 的“另存为”窗口在服务会话中不可见）"@
}

/// What is said of a print process whose time was up.
pub fn timeout_message(secs: u64) -> (r: String)
    ensures
        r@ == timeout_text(secs),
{
    let mut r = "打印进程超过 ".to_owned();
    r.append(unsigned_text(secs as u128).as_str());
    r.append(
        " 秒未结束，已终止。通常是打印机无响应，或驱动弹出对话框（如 Microsoft Print to PDF 的“另存为”窗口在服务会话中不可见）",
    );
    r
}

/// Why a print failed: what the script has written, or the exit code where it has
/// written nothing.
pub open spec fn failure_text(exit_code: Option<i32>, stderr: Seq<u8>) -> Seq<char> {
    let detail = text::trim(text::lossy_text(stderr));
    if detail.len() == 0 {
        "powershell 打印进程异常退出（退出码 "@ + decimal::option_text(exit_code) + "）"@
    } else {
        detail
    }
}

/// Why a print failed, where `output` is what the script has written.
pub fn failure_message_of(exit_code: Option<i32>, output: &str) -> (r: String)
    ensures
        r@ == (if text::trim(output@).len() == 0 {
            "powershell 打印进程异常退出（退出码 "@ + decimal::option_text(exit_code) + "）"@
        } else {
            text::trim(output@)
        }),
{
    let detail = trimmed_str(output);
    if detail.as_str().is_empty() {
        let mut r = "powershell 打印进程异常退出（退出码 ".to_owned();
        r.append(option_i32_text(exit_code).as_str());
        r.append("）");
        r
    } else {
        detail
    }
}

/// Why a print failed.
pub fn print_failure_message(exit_code: Option<i32>, stderr: &[u8]) -> (r: String)
    ensures
        r@ == failure_text(exit_code, stderr@),
{
    failure_message_of(exit_code, text_of_bytes(stderr).as_str())
}

/// How a print process that has ended is judged: by its exit code.
pub fn print_result(success: bool, exit_code: Option<i32>, stderr: &[u8]) -> (r: Result<(), String>)
    ensures
        match r {
            Ok(()) => success,
            Err(message) => !success && message@ == failure_text(exit_code, stderr@),
        },
{
    if success {
        Ok(())
    } else {
        Err(print_failure_message(exit_code, stderr))
    }
}

/// PowerShell is handed the very script, behind the switches that keep it out of sight.
pub proof fn script_is_handed_over(script: Seq<char>)
    ensures
        arguments(script).len() == 5,
        arguments(script)[0] == "-NoProfile"@,
        arguments(script)[1] == "-WindowStyle"@,
        arguments(script)[2] == "Hidden"@,
        arguments(script)[3] == "-Command"@,
        arguments(script)[4] == script,
{
}

/// A print that failed is told by what the script has written, and by its exit code where it
/// has written nothing but white space.
pub proof fn failures_are_told(code: i32, stderr: Seq<u8>)
    ensures
        text::trim(text::lossy_text(stderr)).len() > 0 ==> failure_text(Some(code), stderr)
            == text::trim(text::lossy_text(stderr)),
        text::trim(text::lossy_text(stderr)).len() == 0 ==> failure_text(Some(code), stderr)
            == "powershell 打印进程异常退出（退出码 "@ + decimal::option_text(Some(code)) + "）"@,
        text::trim(text::lossy_text(stderr)).len() == 0 ==> failure_text(None, stderr)
            == "powershell 打印进程异常退出（退出码 "@ + decimal::option_text(None) + "）"@,
{
}

/// A print whose time was up is told with the number of seconds.
pub proof fn timeouts_are_told(secs: u64)
    ensures
        timeout_text(secs) == "打印进程超过 "@ + decimal::decimal(secs as int)
            + " 秒未结束，已终止。通常是打印机无响应，或驱动弹出对话框（如 Microsoft Print to PDF 的“另存为”窗口在服务会话中不可见）"@,
        PRINT_TIMEOUT_SECS == 120,
{
}

} // verus!
