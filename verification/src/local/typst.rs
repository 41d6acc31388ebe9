//! Labels rendered by a Typst process that watches its files: the process tells on its
//! error output when it has compiled them anew.
use vstd::prelude::*;

use crate::err;
use crate::err::{CustomError, ErrorView, other_error};
use crate::text;
use crate::text::{chars_of, contains, starts_with};

verus! {

/// The file with the template.
pub const TEMPLATE_FILE: &'static str = "main.typ";

/// The file with the data of the label.
pub const DATA_FILE: &'static str = "data.json";

/// The file with the picture of the label.
pub const OUTPUT_FILE: &'static str = "main.png";

/// How long a compilation may take, in seconds.
pub const COMPILE_TIMEOUT_SECS: u64 = 10;

/// What is known of a process that watches its files.
#[derive(Clone, Copy)]
pub struct WatchState {
    /// The number of compilations that have ended.
    pub seq: u64,
    /// The lines that follow tell what is wrong with the template.
    pub in_error_block: bool,
}

/// What a process has written.
pub enum WatchEvent {
    Line(String),
    /// The process has ended.
    Ended,
    /// Reading what it writes has failed.
    Failed,
}

/// What is to be done about it.
pub struct WatchStep {
    pub state: WatchState,
    /// The outcome of a compilation, to be told to those who wait for it.
    pub publish: Option<Result<(), String>>,
    /// The line tells what is wrong with the template, and is logged.
    pub log_line: bool,
    /// Nothing more is read.
    pub stop: bool,
}

/// What a line of the process means.
#[derive(Debug, PartialEq, Eq, Structural, Clone, Copy)]
pub enum LineKind {
    Success,
    Failure,
    Progress,
    Other,
}

/// What a line of the process means.
pub open spec fn line_kind(line: Seq<char>) -> LineKind {
    if text::occurs(line, "compiled successfully"@) {
        LineKind::Success
    } else if text::occurs(line, "compiled with errors"@) {
        LineKind::Failure
    } else if text::occurs_at(line, "watching"@, 0) || text::occurs(line, "compiling"@) {
        LineKind::Progress
    } else {
        LineKind::Other
    }
}

/// What a line of the process means.
pub fn kind_of_line(line: &str) -> (r: LineKind)
    ensures
        r == line_kind(line@),
{
    if contains(line, "compiled successfully") {
        LineKind::Success
    } else if contains(line, "compiled with errors") {
        LineKind::Failure
    } else if starts_with(chars_of(line).as_slice(), chars_of("watching").as_slice()) || contains(
        line,
        "compiling",
    ) {
        LineKind::Progress
    } else {
        LineKind::Other
    }
}

/// What the outcome of a compilation says.
pub open spec fn compile_result(r: Result<(), String>) -> Result<(), Seq<char>> {
    match r {
        Ok(()) => Ok(()),
        Err(message) => Err(message@),
    }
}

/// `step` is what is to be done about `event`.
pub open spec fn is_step(state: WatchState, event: WatchEvent, step: WatchStep) -> bool {
    match event {
        WatchEvent::Line(line) => !step.stop && match line_kind(line@) {
            LineKind::Success => {
                &&& step.state == WatchState { seq: (state.seq + 1) as u64, in_error_block: false }
                &&& step.publish matches Some(r) && r is Ok
                &&& !step.log_line
            },
            LineKind::Failure => {
                &&& step.state == WatchState { seq: (state.seq + 1) as u64, in_error_block: true }
                &&& step.publish matches Some(r) && compile_result(r) == Err::<(), Seq<char>>(
                    "typst 模板编译失败"@,
                )
                &&& !step.log_line
            },
            LineKind::Progress => {
                &&& step.state == WatchState { seq: state.seq, in_error_block: false }
                &&& step.publish is None
                &&& !step.log_line
            },
            LineKind::Other => {
                &&& step.state == state
                &&& step.publish is None
                &&& step.log_line == state.in_error_block
            },
        },
        WatchEvent::Ended => {
            &&& step.state == state
            &&& step.publish matches Some(r) && compile_result(r) == Err::<(), Seq<char>>(
                "typst watch 进程已退出"@,
            )
            &&& step.stop
            &&& !step.log_line
        },
        WatchEvent::Failed => {
            &&& step.state == state
            &&& step.publish is None
            &&& step.stop
            &&& !step.log_line
        },
    }
}

/// The watcher before the process has written anything.
pub fn watch_start() -> (r: WatchState)
    ensures
        r.seq == 0,
        !r.in_error_block,
{
    WatchState { seq: 0, in_error_block: false }
}

/// Decides what is to be done about what the process has written.
pub fn watch_step(state: WatchState, event: &WatchEvent) -> (r: WatchStep)
    requires
        state.seq < u64::MAX,
    ensures
        is_step(state, *event, r),
{
    match event {
        WatchEvent::Line(line) => match kind_of_line(line.as_str()) {
            LineKind::Success => WatchStep {
                state: WatchState { seq: state.seq + 1, in_error_block: false },
                publish: Some(Ok(())),
                log_line: false,
                stop: false,
            },
            LineKind::Failure => WatchStep {
                state: WatchState { seq: state.seq + 1, in_error_block: true },
                publish: Some(Err("typst 模板编译失败".to_owned())),
                log_line: false,
                stop: false,
            },
            LineKind::Progress => WatchStep {
                state: WatchState { seq: state.seq, in_error_block: false },
                publish: None,
                log_line: false,
                stop: false,
            },
            LineKind::Other => WatchStep {
                state,
                publish: None,
                log_line: state.in_error_block,
                stop: false,
            },
        },
        WatchEvent::Ended => WatchStep {
            state,
            publish: Some(Err("typst watch 进程已退出".to_owned())),
            log_line: false,
            stop: true,
        },
        WatchEvent::Failed => WatchStep { state, publish: None, log_line: false, stop: true },
    }
}

/// The outcome of a compilation counts for a label that was handed in after the
/// compilation `last_seq` has ended.
pub fn is_newer(seq: u64, last_seq: u64) -> (r: bool)
    ensures
        r == (seq > last_seq),
{
    seq > last_seq
}

/// A compilation that ends has a larger number than every one before it, and nothing
/// else that the process writes changes the number: what is told of a larger number
/// comes from a compilation that ended later.
pub proof fn numbers_tell_compilations_apart(state: WatchState, event: WatchEvent, step: WatchStep)
    requires
        state.seq < u64::MAX,
        is_step(state, event, step),
    ensures
        step.state.seq > state.seq <==> (event matches WatchEvent::Line(line) && (line_kind(line@)
            == LineKind::Success || line_kind(line@) == LineKind::Failure)),
        step.state.seq >= state.seq,
        step.state.seq > state.seq ==> step.publish is Some,
{
}

/// The line tells that a compilation has ended.
pub open spec fn ends_compilation(line: Seq<char>) -> bool {
    text::occurs(line, "compiled successfully"@) || text::occurs(line, "compiled with errors"@)
}

/// How many compilations have ended by what a process has written.
pub open spec fn compilations(lines: Seq<String>) -> nat
    decreases lines.len(),
{
    if lines.len() == 0 {
        0
    } else {
        compilations(lines.drop_last()) + if ends_compilation(lines.last()@) {
            1nat
        } else {
            0nat
        }
    }
}

/// How the last of these compilations has ended; well where there was none.
pub open spec fn last_outcome(lines: Seq<String>) -> Result<(), Seq<char>>
    decreases lines.len(),
{
    if lines.len() == 0 {
        Ok(())
    } else if !ends_compilation(lines.last()@) {
        last_outcome(lines.drop_last())
    } else if text::occurs(lines.last()@, "compiled successfully"@) {
        Ok(())
    } else {
        Err("typst 模板编译失败"@)
    }
}

/// The state of a watcher after these steps.
pub open spec fn state_after(steps: Seq<WatchStep>) -> WatchState {
    if steps.len() == 0 {
        WatchState { seq: 0, in_error_block: false }
    } else {
        steps.last().state
    }
}

/// What was told last in the course of these steps: the number of a compilation and its
/// outcome.
pub open spec fn told_last(steps: Seq<WatchStep>) -> (u64, Result<(), Seq<char>>)
    decreases steps.len(),
{
    if steps.len() == 0 {
        (0, Ok(()))
    } else {
        match steps.last().publish {
            Some(r) => (steps.last().state.seq, compile_result(r)),
            None => told_last(steps.drop_last()),
        }
    }
}

/// `steps` are those of a watcher, from its start, on what a process has written.
pub open spec fn is_run(lines: Seq<String>, steps: Seq<WatchStep>) -> bool
    decreases lines.len(),
{
    if lines.len() == 0 {
        steps.len() == 0
    } else {
        &&& steps.len() == lines.len()
        &&& is_run(lines.drop_last(), steps.drop_last())
        &&& is_step(
            state_after(steps.drop_last()),
            WatchEvent::Line(lines.last()),
            steps.last(),
        )
    }
}

/// Until the process ends, what was told last is the number of lines that tell the end
/// of a compilation, and how the last one of them ended.
pub proof fn compilations_are_counted(lines: Seq<String>, steps: Seq<WatchStep>)
    requires
        is_run(lines, steps),
        lines.len() <= u64::MAX,
    ensures
        state_after(steps).seq == compilations(lines),
        told_last(steps) == (compilations(lines) as u64, last_outcome(lines)),
        compilations(lines) <= lines.len(),
    decreases lines.len(),
{
    if lines.len() > 0 {
        compilations_are_counted(lines.drop_last(), steps.drop_last());
    }
}

/// The number never decreases, however much more the process writes.
pub proof fn compilations_never_decrease(lines: Seq<String>, n: int)
    requires
        0 <= n <= lines.len(),
    ensures
        compilations(lines.take(n)) <= compilations(lines),
    decreases lines.len() - n,
{
    if n < lines.len() {
        assert(lines.take(n + 1).drop_last() =~= lines.take(n));
        compilations_never_decrease(lines, n + 1);
    } else {
        assert(lines.take(n) =~= lines);
    }
}

/// How the wait for a compilation ended.
pub enum CompileWait {
    /// The time was up.
    TimedOut,
    /// Nobody is left who could tell.
    Closed,
    /// The compilation has ended.
    Compiled(Result<(), String>),
}

/// What the wait for a compilation gives.
pub open spec fn wait_outcome(wait: CompileWait) -> Result<(), ErrorView> {
    match wait {
        CompileWait::TimedOut => Err(ErrorView::OtherLibraryError("typst 编译超时"@)),
        CompileWait::Closed => Err(ErrorView::OtherLibraryError("typst watch 通道已关闭"@)),
        CompileWait::Compiled(Ok(())) => Ok(()),
        CompileWait::Compiled(Err(message)) => Err(ErrorView::OtherLibraryError(message@)),
    }
}

/// Tells a label that was compiled from one that was not.
pub fn judge_wait(wait: CompileWait) -> (r: Result<(), CustomError>)
    ensures
        err::done(r) == wait_outcome(wait),
{
    match wait {
        CompileWait::TimedOut => Err(other_error("typst 编译超时")),
        CompileWait::Closed => Err(other_error("typst watch 通道已关闭")),
        CompileWait::Compiled(Ok(())) => Ok(()),
        CompileWait::Compiled(Err(message)) => Err(CustomError::OtherLibraryError(message)),
    }
}

/// A line that tells a compilation which succeeded has that told, with the next number.
pub proof fn successes_are_told(
    state: WatchState,
    line: String,
    step: WatchStep,
    head: Seq<char>,
    tail: Seq<char>,
)
    requires
        state.seq < u64::MAX,
        is_step(state, WatchEvent::Line(line), step),
        line@ == head + "compiled successfully"@ + tail,
    ensures
        step.state.seq == state.seq + 1,
        !step.state.in_error_block,
        step.publish matches Some(r) && r is Ok,
        !step.log_line,
        !step.stop,
{
    text::occurrences_are_parts(head, "compiled successfully"@, tail, line@);
}

/// A line that tells a compilation which failed has that told, with the next number, and
/// the lines behind it are logged.
pub proof fn failures_are_told(
    state: WatchState,
    line: String,
    step: WatchStep,
    head: Seq<char>,
    tail: Seq<char>,
)
    requires
        state.seq < u64::MAX,
        is_step(state, WatchEvent::Line(line), step),
        line@ == head + "compiled with errors"@ + tail,
        !text::occurs(line@, "compiled successfully"@),
    ensures
        step.state.seq == state.seq + 1,
        step.state.in_error_block,
        step.publish matches Some(Err(message)) && message@ == "typst 模板编译失败"@,
        !step.log_line,
        !step.stop,
{
    text::occurrences_are_parts(head, "compiled with errors"@, tail, line@);
}

/// Every other line tells no compilation. One that tells of watching or compiling ends what
/// is wrong with the template, and all else is logged where it tells what is wrong.
pub proof fn other_lines_tell_nothing(
    state: WatchState,
    line: String,
    step: WatchStep,
    head: Seq<char>,
    tail: Seq<char>,
)
    requires
        is_step(state, WatchEvent::Line(line), step),
        !text::occurs(line@, "compiled successfully"@),
        !text::occurs(line@, "compiled with errors"@),
    ensures
        step.state.seq == state.seq,
        step.publish is None,
        !step.stop,
        line@ == "watching"@ + tail || line@ == head + "compiling"@ + tail
            ==> !step.state.in_error_block && !step.log_line,
        !text::occurs_at(line@, "watching"@, 0) && !text::occurs(line@, "compiling"@)
            ==> step.state.in_error_block == state.in_error_block && step.log_line
            == state.in_error_block,
{
    text::occurrences_are_parts(head, "compiling"@, tail, line@);
    text::occurrences_are_parts(head, "watching"@, tail, line@);
}

/// Nothing more is read of a process that has ended or cannot be read, and its end is told.
pub proof fn ends_are_told(state: WatchState, ended: WatchStep, failed: WatchStep)
    requires
        is_step(state, WatchEvent::Ended, ended),
        is_step(state, WatchEvent::Failed, failed),
    ensures
        ended.stop,
        failed.stop,
        ended.state == state,
        failed.state == state,
        ended.publish matches Some(Err(message)) && message@ == "typst watch 进程已退出"@,
        failed.publish is None,
        !ended.log_line,
        !failed.log_line,
{
}

/// A label was compiled where that is told in time; else the reason is given.
pub proof fn waits_are_judged(message: String)
    ensures
        wait_outcome(CompileWait::Compiled(Ok(()))) is Ok,
        wait_outcome(CompileWait::Compiled(Err(message))) == Err::<(), ErrorView>(
            ErrorView::OtherLibraryError(message@),
        ),
        wait_outcome(CompileWait::TimedOut) == Err::<(), ErrorView>(
            ErrorView::OtherLibraryError("typst 编译超时"@),
        ),
        wait_outcome(CompileWait::Closed) == Err::<(), ErrorView>(
            ErrorView::OtherLibraryError("typst watch 通道已关闭"@),
        ),
        compile_result(Ok(())) is Ok,
        compile_result(Err(message)) == Err::<(), Seq<char>>(message@),
        TEMPLATE_FILE@ == "main.typ"@,
        DATA_FILE@ == "data.json"@,
        OUTPUT_FILE@ == "main.png"@,
        COMPILE_TIMEOUT_SECS == 10,
{
}

} // verus!
