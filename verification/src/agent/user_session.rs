//! Print processes in the session of the user who is logged in.
use vstd::prelude::*;

use crate::codec;
use crate::codec::encode_base64;
use crate::decimal;
use crate::decimal::unsigned_text;
use crate::text;
use crate::text::{text_of_bytes, trimmed_str};
use crate::utf16;
use crate::utf16::{code_units, little_endian_bytes};

verus! {

/// The program that runs print scripts.
pub const POWERSHELL: &'static str = r"C:\Windows\System32\WindowsPowerShell\v1.0\powershell.exe";

/// A text in UTF-16 with a zero at its end.
pub fn widen(text: &str) -> (r: Vec<u16>)
    ensures
        r@ == utf16::encoded(text@).push(0),
{
    let mut r = code_units(text);
    r.push(0);
    r
}

/// A script as PowerShell takes it on its command line: UTF-16 in base64, which no
/// code page and no quoting can change.
pub open spec fn encoded_script(script: Seq<char>) -> Seq<char> {
    codec::base64_text(utf16::little_endian(utf16::encoded(script)))
}

/// What PowerShell reads of an encoded script.
pub open spec fn read_script(command: Seq<char>) -> Option<Seq<char>> {
    match codec::base64_bytes(command) {
        Ok(bytes) => Some(utf16::decoded(utf16::words(bytes))),
        Err(_) => None,
    }
}

/// A script as PowerShell takes it on its command line. What PowerShell reads is the
/// script.
pub fn encode_script(script: &str) -> (r: String)
    ensures
        r@ == encoded_script(script@),
        read_script(r@) == Some(script@),
{
    let bytes = little_endian_bytes(script);
    proof {
        utf16::words_undo_little_endian(utf16::encoded(script@));
        utf16::decoding_undoes_encoding(script@);
    }
    encode_base64(bytes.as_slice())
}

/// The command line that runs a script.
pub open spec fn command_line(script: Seq<char>) -> Seq<char> {
    "powershell -NoProfile -WindowStyle Hidden -EncodedCommand "@ + encoded_script(script)
}

/// The command line that runs a script.
pub fn script_command_line(script: &str) -> (r: String)
    ensures
        r@ == command_line(script@),
{
    let mut r = "powershell -NoProfile -WindowStyle Hidden -EncodedCommand ".to_owned();
    r.append(encode_script(script).as_str());
    r
}

/// What is said of a print process whose time was up.
pub open spec fn timeout_text(secs: u64, output: Seq<char>) -> Seq<char> {
    "打印进程超过 "@ + decimal::decimal(secs as int)
        + " 秒未结束，已终止。通常是打印机无响应，或驱动弹出对话框（如 Microsoft Print to PDF 的“另存为”窗口）。子进程输出: "@
        + text::trim(output)
}

/// What is said of a print process whose time was up, where `stderr` is what it has
/// written.
pub fn timeout_message(secs: u64, stderr: &[u8]) -> (r: String)
    ensures
        r@ == timeout_text(secs, text::lossy_text(stderr@)),
{
    let mut r = "打印进程超过 ".to_owned();
    r.append(unsigned_text(secs as u128).as_str());
    r.append(
        " 秒未结束，已终止。通常是打印机无响应，或驱动弹出对话框（如 Microsoft Print to PDF 的“另存为”窗口）。子进程输出: ",
    );
    r.append(trimmed_str(text_of_bytes(stderr).as_str()).as_str());
    r
}

/// The exit code of a process as a signed number.
pub fn exit_code_of(code: u32) -> (r: i32)
    ensures
        r as int == (if code <= i32::MAX {
            code as int
        } else {
            code - 0x1_0000_0000
        }),
{
    if code <= 0x7fff_ffff {
        code as i32
    } else {
        (code as i64 - 0x1_0000_0000) as i32
    }
}

// ---------------------------------------------------------------------------
// Starting a process in the session of the user
// ---------------------------------------------------------------------------

/// What is to be done to start a process, or how it ended.
#[derive(Debug, PartialEq, Eq, Structural, Clone, Copy)]
pub enum LaunchStep {
    /// Ask for the session of the user who is logged in.
    QuerySession,
    /// Ask for the token of that user.
    QueryToken,
    /// Make a token of one's own from it.
    DuplicateToken,
    /// Make the pipe for the standard input.
    StdinPipe,
    /// Make the pipe for the error output.
    StderrPipe,
    /// Start the process.
    StartProcess,
    /// Nobody is logged in.
    NoSession,
    /// It could not be started.
    Failed,
    /// It runs.
    Running,
}

/// Handles of the system: which of them are meant.
#[derive(Debug, PartialEq, Eq, Structural, Clone, Copy)]
pub struct Handles {
    pub token: bool,
    pub user_token: bool,
    pub stdin_read: bool,
    pub stdin_write: bool,
    pub stderr_read: bool,
    pub stderr_write: bool,
}

/// No handle.
pub open spec fn no_handles() -> Handles {
    Handles {
        token: false,
        user_token: false,
        stdin_read: false,
        stdin_write: false,
        stderr_read: false,
        stderr_write: false,
    }
}

/// The handles that are open before a step is done.
pub open spec fn open_at(step: LaunchStep) -> Handles {
    match step {
        LaunchStep::QuerySession => no_handles(),
        LaunchStep::QueryToken => no_handles(),
        LaunchStep::DuplicateToken => Handles { token: true, ..no_handles() },
        LaunchStep::StdinPipe => Handles { user_token: true, ..no_handles() },
        LaunchStep::StderrPipe => Handles {
            user_token: true,
            stdin_read: true,
            stdin_write: true,
            ..no_handles()
        },
        LaunchStep::StartProcess => Handles { token: false, ..all_handles() },
        LaunchStep::NoSession => no_handles(),
        LaunchStep::Failed => no_handles(),
        // the ends of the pipes that the print agent itself uses
        LaunchStep::Running => Handles { stdin_write: true, stderr_read: true, ..no_handles() },
    }
}

/// Every handle.
pub open spec fn all_handles() -> Handles {
    Handles {
        token: true,
        user_token: true,
        stdin_read: true,
        stdin_write: true,
        stderr_read: true,
        stderr_write: true,
    }
}

/// The handles that a step opens where it succeeds.
pub open spec fn opened_by(step: LaunchStep) -> Handles {
    match step {
        LaunchStep::QueryToken => Handles { token: true, ..no_handles() },
        LaunchStep::DuplicateToken => Handles { user_token: true, ..no_handles() },
        LaunchStep::StdinPipe => Handles { stdin_read: true, stdin_write: true, ..no_handles() },
        LaunchStep::StderrPipe => Handles { stderr_read: true, stderr_write: true, ..no_handles() },
        _ => no_handles(),
    }
}

/// What follows a step.
pub open spec fn step_after(step: LaunchStep, ok: bool) -> LaunchStep {
    match step {
        LaunchStep::QuerySession => if ok {
            LaunchStep::QueryToken
        } else {
            LaunchStep::NoSession
        },
        LaunchStep::QueryToken => if ok {
            LaunchStep::DuplicateToken
        } else {
            LaunchStep::NoSession
        },
        LaunchStep::DuplicateToken => if ok {
            LaunchStep::StdinPipe
        } else {
            LaunchStep::Failed
        },
        LaunchStep::StdinPipe => if ok {
            LaunchStep::StderrPipe
        } else {
            LaunchStep::Failed
        },
        LaunchStep::StderrPipe => if ok {
            LaunchStep::StartProcess
        } else {
            LaunchStep::Failed
        },
        LaunchStep::StartProcess => if ok {
            LaunchStep::Running
        } else {
            LaunchStep::Failed
        },
        ended => ended,
    }
}

/// The handles that are to be closed once a step is done.
pub open spec fn closed_after(step: LaunchStep, ok: bool) -> Handles {
    match step {
        LaunchStep::DuplicateToken => Handles { token: true, ..no_handles() },
        LaunchStep::StdinPipe => if ok {
            no_handles()
        } else {
            open_at(step)
        },
        LaunchStep::StderrPipe => if ok {
            no_handles()
        } else {
            open_at(step)
        },
        LaunchStep::StartProcess => if ok {
            Handles { user_token: true, stdin_read: true, stderr_write: true, ..no_handles() }
        } else {
            open_at(step)
        },
        _ => no_handles(),
    }
}

/// Decides what follows a step that has succeeded or not, and which handles are to be
/// closed.
pub fn launch_step(step: LaunchStep, ok: bool) -> (r: (LaunchStep, Handles))
    ensures
        r.0 == step_after(step, ok),
        r.1 == closed_after(step, ok),
{
    let none = Handles {
        token: false,
        user_token: false,
        stdin_read: false,
        stdin_write: false,
        stderr_read: false,
        stderr_write: false,
    };
    match step {
        LaunchStep::QuerySession => if ok {
            (LaunchStep::QueryToken, none)
        } else {
            (LaunchStep::NoSession, none)
        },
        LaunchStep::QueryToken => if ok {
            (LaunchStep::DuplicateToken, none)
        } else {
            (LaunchStep::NoSession, none)
        },
        LaunchStep::DuplicateToken => (
            if ok {
                LaunchStep::StdinPipe
            } else {
                LaunchStep::Failed
            },
            Handles { token: true, ..none },
        ),
        LaunchStep::StdinPipe => if ok {
            (LaunchStep::StderrPipe, none)
        } else {
            (LaunchStep::Failed, Handles { user_token: true, ..none })
        },
        LaunchStep::StderrPipe => if ok {
            (LaunchStep::StartProcess, none)
        } else {
            (
                LaunchStep::Failed,
                Handles { user_token: true, stdin_read: true, stdin_write: true, ..none },
            )
        },
        LaunchStep::StartProcess => if ok {
            (
                LaunchStep::Running,
                Handles { user_token: true, stdin_read: true, stderr_write: true, ..none },
            )
        } else {
            (
                LaunchStep::Failed,
                Handles {
                    user_token: true,
                    stdin_read: true,
                    stdin_write: true,
                    stderr_read: true,
                    stderr_write: true,
                    ..none
                },
            )
        },
        LaunchStep::NoSession => (LaunchStep::NoSession, none),
        LaunchStep::Failed => (LaunchStep::Failed, none),
        LaunchStep::Running => (LaunchStep::Running, none),
    }
}

/// The handles of `a` or of `b`.
pub open spec fn either(a: Handles, b: Handles) -> Handles {
    Handles {
        token: a.token || b.token,
        user_token: a.user_token || b.user_token,
        stdin_read: a.stdin_read || b.stdin_read,
        stdin_write: a.stdin_write || b.stdin_write,
        stderr_read: a.stderr_read || b.stderr_read,
        stderr_write: a.stderr_write || b.stderr_write,
    }
}

/// The handles of `a` that are not of `b`.
pub open spec fn but(a: Handles, b: Handles) -> Handles {
    Handles {
        token: a.token && !b.token,
        user_token: a.user_token && !b.user_token,
        stdin_read: a.stdin_read && !b.stdin_read,
        stdin_write: a.stdin_write && !b.stdin_write,
        stderr_read: a.stderr_read && !b.stderr_read,
        stderr_write: a.stderr_write && !b.stderr_write,
    }
}

/// No handle is lost and none is closed twice: what is closed after a step was open,
/// and what is open before the next step is what was open, with what the step has
/// opened, without what is closed. So nothing is left open where no process is
/// started, and only the agent's own ends of the pipes where one runs.
pub proof fn handles_are_accounted_for(step: LaunchStep, ok: bool)
    ensures
        ({
            let opened = if ok {
                opened_by(step)
            } else {
                no_handles()
            };
            let held = either(open_at(step), opened);
            &&& but(closed_after(step, ok), held) == no_handles()
            &&& open_at(step_after(step, ok)) == but(held, closed_after(step, ok))
        }),
        open_at(LaunchStep::NoSession) == no_handles(),
        open_at(LaunchStep::Failed) == no_handles(),
{
}

/// Why a process could not be started; `os_error` is what the system says.
pub open spec fn launch_error(step: LaunchStep, os_error: Seq<char>) -> Seq<char> {
    match step {
        LaunchStep::DuplicateToken => "DuplicateTokenEx 失败（错误码 "@ + os_error + "）"@,
        LaunchStep::StdinPipe => "CreatePipe(stdin) 失败"@,
        LaunchStep::StderrPipe => "CreatePipe(stderr) 失败"@,
        LaunchStep::StartProcess => "CreateProcessAsUserW 失败（错误码 "@ + os_error + "）"@,
        _ => seq![],
    }
}

/// Why a process could not be started, where a step has failed.
pub fn launch_failure(step: LaunchStep, os_error: &str) -> (r: String)
    ensures
        r@ == launch_error(step, os_error@),
{
    match step {
        LaunchStep::DuplicateToken => {
            let mut r = "DuplicateTokenEx 失败（错误码 ".to_owned();
            r.append(os_error);
            r.append("）");
            r
        },
        LaunchStep::StdinPipe => "CreatePipe(stdin) 失败".to_owned(),
        LaunchStep::StderrPipe => "CreatePipe(stderr) 失败".to_owned(),
        LaunchStep::StartProcess => {
            let mut r = "CreateProcessAsUserW 失败（错误码 ".to_owned();
            r.append(os_error);
            r.append("）");
            r
        },
        _ => String::new(),
    }
}

/// A session in which somebody is logged in.
pub fn is_session(session_id: u32) -> (r: bool)
    ensures
        r == (session_id != u32::MAX),
{
    session_id != u32::MAX
}

/// A process runs once the session, both tokens, both pipes and the start have succeeded,
/// in this order. Where nobody is logged in that is told apart from every other failure.
pub proof fn steps_come_in_order(step: LaunchStep, ok: bool)
    ensures
        step_after(LaunchStep::QuerySession, true) == LaunchStep::QueryToken,
        step_after(LaunchStep::QueryToken, true) == LaunchStep::DuplicateToken,
        step_after(LaunchStep::DuplicateToken, true) == LaunchStep::StdinPipe,
        step_after(LaunchStep::StdinPipe, true) == LaunchStep::StderrPipe,
        step_after(LaunchStep::StderrPipe, true) == LaunchStep::StartProcess,
        step_after(LaunchStep::StartProcess, true) == LaunchStep::Running,
        step_after(LaunchStep::QuerySession, false) == LaunchStep::NoSession,
        step_after(LaunchStep::QueryToken, false) == LaunchStep::NoSession,
        step_after(LaunchStep::DuplicateToken, false) == LaunchStep::Failed,
        step_after(LaunchStep::StdinPipe, false) == LaunchStep::Failed,
        step_after(LaunchStep::StderrPipe, false) == LaunchStep::Failed,
        step_after(LaunchStep::StartProcess, false) == LaunchStep::Failed,
        step == LaunchStep::NoSession || step == LaunchStep::Failed || step == LaunchStep::Running
            ==> step_after(step, ok) == step,
{
}

/// Which handles each step leaves to be closed.
pub proof fn handles_are_closed(step: LaunchStep, ok: bool)
    ensures
        closed_after(step, ok).token == (step == LaunchStep::DuplicateToken),
        closed_after(step, ok).user_token == (step == LaunchStep::StartProcess || !ok && (step
            == LaunchStep::StdinPipe || step == LaunchStep::StderrPipe)),
        closed_after(step, ok).stdin_read == (step == LaunchStep::StartProcess || !ok && step
            == LaunchStep::StderrPipe),
        closed_after(step, ok).stdin_write == (!ok && (step == LaunchStep::StartProcess || step
            == LaunchStep::StderrPipe)),
        closed_after(step, ok).stderr_read == (!ok && step == LaunchStep::StartProcess),
        closed_after(step, ok).stderr_write == (step == LaunchStep::StartProcess),
{
}

/// The command line has PowerShell read that very script.
pub proof fn command_line_runs_the_script(script: Seq<char>)
    ensures
        ({
            let head = "powershell -NoProfile -WindowStyle Hidden -EncodedCommand "@;
            let line = command_line(script);
            &&& line.take(head.len() as int) == head
            &&& line.skip(head.len() as int) == codec::base64_text(
                utf16::little_endian(utf16::encoded(script)),
            )
        }),
{
    let head = "powershell -NoProfile -WindowStyle Hidden -EncodedCommand "@;
    let line = command_line(script);
    assert(line.take(head.len() as int) =~= head);
    assert(line.skip(head.len() as int) =~= encoded_script(script));
}

/// What PowerShell reads is the text whose code units the base64 text holds.
pub proof fn scripts_are_read(command: Seq<char>, script: Seq<char>)
    ensures
        codec::base64_bytes(command) == Ok::<Seq<u8>, Seq<char>>(
            utf16::little_endian(utf16::encoded(script)),
        ) ==> read_script(command) == Some(script),
        codec::base64_bytes(command) is Err ==> read_script(command) is None,
{
    utf16::words_undo_little_endian(utf16::encoded(script));
    utf16::decoding_undoes_encoding(script);
}

/// What is told of a process that could not be started, or whose time was up.
pub proof fn failures_are_told(os_error: Seq<char>, secs: u64, output: Seq<char>)
    ensures
        launch_error(LaunchStep::DuplicateToken, os_error) == "DuplicateTokenEx 失败（错误码 "@
            + os_error + "）"@,
        launch_error(LaunchStep::StdinPipe, os_error) == "CreatePipe(stdin) 失败"@,
        launch_error(LaunchStep::StderrPipe, os_error) == "CreatePipe(stderr) 失败"@,
        launch_error(LaunchStep::StartProcess, os_error) == "CreateProcessAsUserW 失败（错误码 "@
            + os_error + "）"@,
        timeout_text(secs, output) == "打印进程超过 "@ + decimal::decimal(secs as int)
            + " 秒未结束，已终止。通常是打印机无响应，或驱动弹出对话框（如 Microsoft Print to PDF 的“另存为”窗口）。子进程输出: "@
            + text::trim(output),
{
}

} // verus!
