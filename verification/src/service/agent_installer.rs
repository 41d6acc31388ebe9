//! The script that installs a print agent which connects to this service.
use vstd::prelude::*;

use crate::powershell;
use crate::powershell::quote;
use crate::text::same_str;

verus! {

/// Where the installation script is kept.
pub const INSTALL_SCRIPT_URL: &'static str =
    "https://raw.githubusercontent.com/zy97/qr_server/master/scripts/install-print-agent.ps1";

/// Where print agents connect to the service that was asked under `scheme` and `host`.
pub open spec fn agent_url(scheme: Seq<char>, host: Seq<char>) -> Seq<char> {
    (if scheme == "https"@ {
        "wss"@
    } else {
        "ws"@
    }) + "://"@ + host + "/ws/agent"@
}

/// Where print agents connect to the service that was asked under `scheme` and `host`.
pub fn websocket_url(scheme: &str, host: &str) -> (r: String)
    ensures
        r@ == agent_url(scheme@, host@),
{
    let mut r = if same_str(scheme, "https") {
        "wss".to_owned()
    } else {
        "ws".to_owned()
    };
    r.append("://");
    r.append(host);
    r.append("/ws/agent");
    r
}

/// The script that installs a print agent, up to the address of the service.
pub open spec fn script_head() -> Seq<char> {
    "$script = Invoke-RestMethod '"@ + INSTALL_SCRIPT_URL@
        + "'; & ([scriptblock]::Create($script)) -ServerUrl '"@
}

/// The script that installs a print agent which connects to `server_url`.
pub open spec fn install_script(server_url: Seq<char>) -> Seq<char> {
    script_head() + powershell::quoted(server_url) + "'\r\n"@
}

/// The script that installs a print agent which connects to `server_url`.
pub fn installer_script(server_url: &str) -> (r: String)
    ensures
        r@ == install_script(server_url@),
{
    let mut r = "$script = Invoke-RestMethod '".to_owned();
    r.append(INSTALL_SCRIPT_URL);
    r.append("'; & ([scriptblock]::Create($script)) -ServerUrl '");
    r.append(quote(server_url).as_str());
    r.append("'\r\n");
    r
}

/// The address in the script is read by PowerShell as the address of the service,
/// whatever host the request names, unless a typographic quote stands in it.
pub proof fn server_url_is_read_back(server_url: Seq<char>)
    requires
        powershell::is_plain(server_url),
    ensures
        powershell::literal(install_script(server_url).skip(script_head().len() as int)) == Some(
            (server_url, seq!['\r', '\n']),
        ),
{
    reveal_strlit("'\r\n");
    let rest = seq!['\r', '\n'];
    assert("'\r\n"@ =~= seq!['\''] + rest);
    assert(install_script(server_url).skip(script_head().len() as int) =~= powershell::quoted(
        server_url,
    ) + seq!['\''] + rest);
    powershell::literal_of_quoted(server_url, rest);
}

/// Agents connect to the host that was asked: without encryption, or with it where the
/// request came with it.
pub proof fn agents_connect_to_the_asked_host(scheme: Seq<char>, host: Seq<char>)
    ensures
        agent_url("https"@, host) == "wss://"@ + host + "/ws/agent"@,
        scheme != "https"@ ==> agent_url(scheme, host) == "ws://"@ + host + "/ws/agent"@,
{
    reveal_strlit("wss");
    reveal_strlit("ws");
    reveal_strlit("://");
    reveal_strlit("wss://");
    reveal_strlit("ws://");
    assert("wss"@ + "://"@ =~= "wss://"@);
    assert("ws"@ + "://"@ =~= "ws://"@);
}

/// The script fetches the installation script and runs it with the address of the service.
pub proof fn script_runs_the_installer(server_url: Seq<char>)
    ensures
        install_script(server_url) == "$script = Invoke-RestMethod '"@
            + "https://raw.githubusercontent.com/zy97/qr_server/master/scripts/install-print-agent.ps1"@
            + "'; & ([scriptblock]::Create($script)) -ServerUrl '"@ + powershell::quoted(server_url)
            + "'\r\n"@,
{
}

} // verus!
