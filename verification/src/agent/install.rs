//! The print agent as a Windows service: how it is installed and removed.
use vstd::prelude::*;

use crate::text;
use crate::text::same_str;

verus! {

/// The name of the service.
pub const SERVICE_NAME: &'static str = "print-agent";

/// What the program is asked to do.
#[derive(Debug, PartialEq, Eq, Structural, Clone, Copy)]
pub enum Command {
    Install,
    Uninstall,
    /// Run in the console.
    Run,
    /// Run as a service, or else in the console.
    Service,
}

/// What the program is asked to do, by its first argument.
pub fn command_of(argument: Option<&str>) -> (r: Command)
    ensures
        r == (match argument {
            Some(a) => if a@ == "install"@ {
                Command::Install
            } else if a@ == "uninstall"@ {
                Command::Uninstall
            } else if a@ == "run"@ {
                Command::Run
            } else {
                Command::Service
            },
            None => Command::Service,
        }),
{
    match argument {
        Some(a) => {
            if same_str(a, "install") {
                Command::Install
            } else if same_str(a, "uninstall") {
                Command::Uninstall
            } else if same_str(a, "run") {
                Command::Run
            } else {
                Command::Service
            }
        },
        None => Command::Service,
    }
}

/// The arguments of `sc.exe` that make the service, which starts with the machine.
pub open spec fn create_command(exe: Seq<char>) -> Seq<Seq<char>> {
    seq![
        "create"@,
        SERVICE_NAME@,
        "binPath="@,
        "\""@ + exe + "\""@,
        "start="@,
        "auto"@,
        "DisplayName="@,
        "标签打印代理"@,
    ]
}

/// The arguments of `sc.exe` that make the service.
pub fn create_arguments(exe: &str) -> (r: Vec<String>)
    ensures
        text::texts(r@) == create_command(exe@),
{
    let mut path = "\"".to_owned();
    path.append(exe);
    path.append("\"");
    let r: Vec<String> = vec![
        "create".to_owned(),
        SERVICE_NAME.to_owned(),
        "binPath=".to_owned(),
        path,
        "start=".to_owned(),
        "auto".to_owned(),
        "DisplayName=".to_owned(),
        "标签打印代理".to_owned(),
    ];
    assert(text::texts(r@) =~= create_command(exe@));
    r
}

/// The arguments of `sc.exe` that describe the service.
pub open spec fn describe_command() -> Seq<Seq<char>> {
    seq![
        "description"@,
        SERVICE_NAME@,
        "接收标签 PNG 并发送到本机打印机（qr_server 打印代理）"@,
    ]
}

/// The arguments of `sc.exe` that describe the service.
pub fn describe_arguments() -> (r: Vec<String>)
    ensures
        text::texts(r@) == describe_command(),
{
    let r: Vec<String> = vec![
        "description".to_owned(),
        SERVICE_NAME.to_owned(),
        "接收标签 PNG 并发送到本机打印机（qr_server 打印代理）".to_owned(),
    ];
    assert(text::texts(r@) =~= describe_command());
    r
}

/// The arguments of `sc.exe` that have the service started again when it fails: after
/// five, ten and thirty seconds, counted anew each day.
pub open spec fn failure_command() -> Seq<Seq<char>> {
    seq![
        "failure"@,
        SERVICE_NAME@,
        "reset="@,
        "86400"@,
        "actions="@,
        "restart/5000/restart/10000/restart/30000"@,
    ]
}

/// The arguments of `sc.exe` that have the service started again when it fails.
pub fn failure_arguments() -> (r: Vec<String>)
    ensures
        text::texts(r@) == failure_command(),
{
    let r: Vec<String> = vec![
        "failure".to_owned(),
        SERVICE_NAME.to_owned(),
        "reset=".to_owned(),
        "86400".to_owned(),
        "actions=".to_owned(),
        "restart/5000/restart/10000/restart/30000".to_owned(),
    ];
    assert(text::texts(r@) =~= failure_command());
    r
}

/// How a command ended.
pub enum CommandEnd {
    /// It could not be started, for this reason.
    NotStarted(String),
    /// It ended with this status.
    Ended { success: bool, status: String },
}

/// What is said of a service that was to be installed or removed: in the good case, or
/// in the bad one.
pub open spec fn report(
    end: CommandEnd,
    done: Seq<char>,
    failed: Seq<char>,
) -> Result<Seq<char>, Seq<char>> {
    match end {
        CommandEnd::Ended { success, status } => if success {
            Ok(done)
        } else {
            Err(failed + "（退出码 "@ + status@ + "），请用管理员权限运行"@)
        },
        CommandEnd::NotStarted(reason) => Err(failed + ": "@ + reason@),
    }
}

fn report_end(end: &CommandEnd, done: &str, failed: &str) -> (r: Result<String, String>)
    ensures
        text::text_result(r) == report(*end, done@, failed@),
{
    match end {
        CommandEnd::Ended { success, status } => {
            if *success {
                Ok(done.to_owned())
            } else {
                let mut message = failed.to_owned();
                message.append("（退出码 ");
                message.append(status.as_str());
                message.append("），请用管理员权限运行");
                Err(message)
            }
        },
        CommandEnd::NotStarted(reason) => {
            let mut message = failed.to_owned();
            message.append(": ");
            message.append(reason.as_str());
            Err(message)
        },
    }
}

/// What is said of a service that was to be installed.
pub fn service_install(end: &CommandEnd) -> (r: Result<String, String>)
    ensures
        text::text_result(r) == install_report(*end),
{
    report_end(
        end,
        "服务已安装（开机自启，崩溃自动重启）。启动命令: sc start print-agent",
        "安装失败",
    )
}

/// What is said of a service that was to be removed.
pub fn service_uninstall(end: &CommandEnd) -> (r: Result<String, String>)
    ensures
        text::text_result(r) == report(*end, "服务已卸载"@, "卸载失败"@),
{
    report_end(end, "服务已卸载", "卸载失败")
}

/// The commands that install and remove the service.
#[derive(Debug, PartialEq, Eq, Structural, Clone, Copy)]
pub enum ServiceCommand {
    /// Make the service.
    Create,
    /// Describe it.
    Describe,
    /// Have it started again when it fails.
    Recover,
    /// Stop it.
    Stop,
    /// Remove it.
    Delete,
}

/// What is to be done next.
pub enum ServiceStep {
    /// Run `sc.exe` with these arguments.
    Run(ServiceCommand, Vec<String>),
    /// All is done: say so.
    Done(String),
    /// It failed: say why.
    Failed(String),
}

/// What a step says.
pub enum StepView {
    Run(ServiceCommand, Seq<Seq<char>>),
    Done(Seq<char>),
    Failed(Seq<char>),
}

impl View for ServiceStep {
    type V = StepView;

    open spec fn view(&self) -> StepView {
        match *self {
            ServiceStep::Run(command, arguments) => StepView::Run(command, text::texts(arguments@)),
            ServiceStep::Done(message) => StepView::Done(message@),
            ServiceStep::Failed(message) => StepView::Failed(message@),
        }
    }
}

/// What is to be done first to install the service.
pub fn install_first(exe: &str) -> (r: ServiceStep)
    ensures
        r@ == StepView::Run(ServiceCommand::Create, create_command(exe@)),
{
    ServiceStep::Run(ServiceCommand::Create, create_arguments(exe))
}

/// What is to be done first to remove the service.
pub fn uninstall_first() -> (r: ServiceStep)
    ensures
        r@ == StepView::Run(ServiceCommand::Stop, seq!["stop"@, SERVICE_NAME@]),
{
    let arguments: Vec<String> = vec!["stop".to_owned(), SERVICE_NAME.to_owned()];
    assert(text::texts(arguments@) =~= seq!["stop"@, SERVICE_NAME@]);
    ServiceStep::Run(ServiceCommand::Stop, arguments)
}

/// What is said of a service that was to be installed.
pub open spec fn install_report(end: CommandEnd) -> Result<Seq<char>, Seq<char>> {
    report(
        end,
        "服务已安装（开机自启，崩溃自动重启）。启动命令: sc start print-agent"@,
        "安装失败"@,
    )
}

/// What follows a command: a service that was made is described and told what to do when
/// it fails, whether or not that succeeds, and one that could not be made is not; the
/// service is removed whether or not it could be stopped.
pub open spec fn next_step(command: ServiceCommand, end: CommandEnd) -> StepView {
    match command {
        ServiceCommand::Create => match install_report(end) {
            Ok(_) => StepView::Run(ServiceCommand::Describe, describe_command()),
            Err(message) => StepView::Failed(message),
        },
        ServiceCommand::Describe => StepView::Run(ServiceCommand::Recover, failure_command()),
        ServiceCommand::Recover => StepView::Done(
            "服务已安装（开机自启，崩溃自动重启）。启动命令: sc start print-agent"@,
        ),
        ServiceCommand::Stop => StepView::Run(
            ServiceCommand::Delete,
            seq!["delete"@, SERVICE_NAME@],
        ),
        ServiceCommand::Delete => match report(end, "服务已卸载"@, "卸载失败"@) {
            Ok(message) => StepView::Done(message),
            Err(message) => StepView::Failed(message),
        },
    }
}

/// What follows a command, by how it ended.
pub fn service_step(command: ServiceCommand, end: &CommandEnd) -> (r: ServiceStep)
    ensures
        r@ == next_step(command, *end),
{
    match command {
        ServiceCommand::Create => match service_install(end) {
            Ok(_) => ServiceStep::Run(ServiceCommand::Describe, describe_arguments()),
            Err(message) => ServiceStep::Failed(message),
        },
        ServiceCommand::Describe => ServiceStep::Run(
            ServiceCommand::Recover,
            failure_arguments(),
        ),
        ServiceCommand::Recover => ServiceStep::Done(
            "服务已安装（开机自启，崩溃自动重启）。启动命令: sc start print-agent".to_owned(),
        ),
        ServiceCommand::Stop => {
            let arguments: Vec<String> = vec!["delete".to_owned(), SERVICE_NAME.to_owned()];
            assert(text::texts(arguments@) =~= seq!["delete"@, SERVICE_NAME@]);
            ServiceStep::Run(ServiceCommand::Delete, arguments)
        },
        ServiceCommand::Delete => match service_uninstall(end) {
            Ok(message) => ServiceStep::Done(message),
            Err(message) => ServiceStep::Failed(message),
        },
    }
}

/// The service is made from that very program, between quotes, and starts with the machine.
pub proof fn service_runs_the_program(exe: Seq<char>)
    ensures
        ({
            let list = create_command(exe);
            &&& list.len() == 8
            &&& list[0] == "create"@
            &&& list[1] == "print-agent"@
            &&& list[2] == "binPath="@
            &&& list[3] == seq!['"'] + exe + seq!['"']
            &&& list[4] == "start="@
            &&& list[5] == "auto"@
            &&& list[6] == "DisplayName="@
            &&& list[7] == "标签打印代理"@
        }),
{
    reveal_strlit("\"");
    assert("\""@ =~= seq!['"']);
}

/// A service that was made is described, then told what to do when it fails, and then the
/// installation is done; neither of the two later commands can make it fail.
pub proof fn installation_goes_on(status: String, reason: String, any: CommandEnd)
    ensures
        next_step(ServiceCommand::Create, CommandEnd::Ended { success: true, status })
            == StepView::Run(
            ServiceCommand::Describe,
            seq![
                "description"@,
                "print-agent"@,
                "接收标签 PNG 并发送到本机打印机（qr_server 打印代理）"@,
            ],
        ),
        next_step(ServiceCommand::Create, CommandEnd::Ended { success: false, status })
            == StepView::Failed(
            "安装失败"@ + "（退出码 "@ + status@ + "），请用管理员权限运行"@,
        ),
        next_step(ServiceCommand::Create, CommandEnd::NotStarted(reason)) == StepView::Failed(
            "安装失败"@ + ": "@ + reason@,
        ),
        next_step(ServiceCommand::Describe, any) == StepView::Run(
            ServiceCommand::Recover,
            seq![
                "failure"@,
                "print-agent"@,
                "reset="@,
                "86400"@,
                "actions="@,
                "restart/5000/restart/10000/restart/30000"@,
            ],
        ),
        next_step(ServiceCommand::Recover, any) == StepView::Done(
            "服务已安装（开机自启，崩溃自动重启）。启动命令: sc start print-agent"@,
        ),
{
}

/// The service is removed whether or not it could be stopped, and the outcome of that is
/// told.
pub proof fn removal_goes_on(status: String, reason: String, any: CommandEnd)
    ensures
        next_step(ServiceCommand::Stop, any) == StepView::Run(
            ServiceCommand::Delete,
            seq!["delete"@, "print-agent"@],
        ),
        next_step(ServiceCommand::Delete, CommandEnd::Ended { success: true, status })
            == StepView::Done("服务已卸载"@),
        next_step(ServiceCommand::Delete, CommandEnd::Ended { success: false, status })
            == StepView::Failed(
            "卸载失败"@ + "（退出码 "@ + status@ + "），请用管理员权限运行"@,
        ),
        next_step(ServiceCommand::Delete, CommandEnd::NotStarted(reason)) == StepView::Failed(
            "卸载失败"@ + ": "@ + reason@,
        ),
{
}

/// What is said of the service in the good case and in the bad one.
pub proof fn outcomes_are_reported(status: String, reason: String, done: Seq<char>, failed: Seq<char>)
    ensures
        report(CommandEnd::Ended { success: true, status }, done, failed) == Ok::<
            Seq<char>,
            Seq<char>,
        >(done),
        report(CommandEnd::Ended { success: false, status }, done, failed) == Err::<
            Seq<char>,
            Seq<char>,
        >(failed + "（退出码 "@ + status@ + "），请用管理员权限运行"@),
        report(CommandEnd::NotStarted(reason), done, failed) == Err::<Seq<char>, Seq<char>>(
            failed + ": "@ + reason@,
        ),
        install_report(CommandEnd::Ended { success: true, status }) == Ok::<Seq<char>, Seq<char>>(
            "服务已安装（开机自启，崩溃自动重启）。启动命令: sc start print-agent"@,
        ),
        install_report(CommandEnd::Ended { success: false, status }) == Err::<Seq<char>, Seq<char>>(
            "安装失败"@ + "（退出码 "@ + status@ + "），请用管理员权限运行"@,
        ),
        install_report(CommandEnd::NotStarted(reason)) == Err::<Seq<char>, Seq<char>>(
            "安装失败"@ + ": "@ + reason@,
        ),
{
}

/// A step says what it holds.
pub proof fn steps_say_what_they_hold(
    command: ServiceCommand,
    arguments: Vec<String>,
    message: String,
    i: int,
)
    ensures
        ServiceStep::Done(message)@ == StepView::Done(message@),
        ServiceStep::Failed(message)@ == StepView::Failed(message@),
        ServiceStep::Run(command, arguments)@ matches StepView::Run(c, list) && c == command
            && list.len() == arguments@.len() && (0 <= i < list.len() ==> list[i]
            == arguments@[i]@),
{
}

} // verus!
