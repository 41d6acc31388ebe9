//! Pictures that are sent to a print agent over HTTP.
use vstd::prelude::*;

use crate::err;
use crate::err::{CustomError, ErrorView, other_error, other_error_with};
use crate::text;
use crate::text::{append_chars, chars_of, string_of, trimmed_end_of};

verus! {

/// Where a print agent takes pictures.
pub open spec fn print_address(agent_url: Seq<char>) -> Result<Seq<char>, ErrorView> {
    if agent_url.len() == 0 {
        Err(ErrorView::OtherLibraryError("打印已启用但未配置 print.agent_url"@))
    } else {
        Ok(text::trim_end(agent_url, text::only('/')) + "/print"@)
    }
}

/// Where a print agent takes pictures; an error where no agent is configured.
pub fn print_url(agent_url: &str) -> (r: Result<String, CustomError>)
    ensures
        err::told(r) == print_address(agent_url@),
{
    if agent_url.is_empty() {
        return Err(other_error("打印已启用但未配置 print.agent_url"));
    }
    let chars = chars_of(agent_url);
    let mut url = text::copy_chars(trimmed_end_of(chars.as_slice(), '/'));
    append_chars(&mut url, chars_of("/print").as_slice());
    Ok(string_of(url.as_slice()))
}

/// How a print agent has answered.
pub enum AgentAnswer {
    /// It could not be asked, for this reason.
    NotReached(String),
    /// It has answered with this status and this body.
    Answered { success: bool, status: String, body: String },
}

/// What the answer of a print agent means.
pub open spec fn answer_outcome(answer: AgentAnswer) -> Result<(), ErrorView> {
    match answer {
        AgentAnswer::NotReached(reason) => Err(
            ErrorView::OtherLibraryError("调用打印代理失败: "@ + reason@),
        ),
        AgentAnswer::Answered { success, status, body } => if success {
            Ok(())
        } else {
            Err(
                ErrorView::OtherLibraryError(
                    "打印代理返回 "@ + status@ + ": "@ + body@,
                ),
            )
        },
    }
}

/// Tells a picture that was printed from one that was not.
pub fn judge_answer(answer: &AgentAnswer) -> (r: Result<(), CustomError>)
    ensures
        err::done(r) == answer_outcome(*answer),
{
    match answer {
        AgentAnswer::NotReached(reason) => Err(
            other_error_with("调用打印代理失败: ", reason.as_str()),
        ),
        AgentAnswer::Answered { success, status, body } => {
            if *success {
                Ok(())
            } else {
                let mut message = "打印代理返回 ".to_owned();
                message.append(status.as_str());
                message.append(": ");
                message.append(body.as_str());
                Err(CustomError::OtherLibraryError(message))
            }
        },
    }
}

/// Pictures are sent to `/print` behind the address of the agent, with one slash between
/// them, however many the address ends with.
pub proof fn pictures_go_to_the_agent(address: Seq<char>, slashes: Seq<char>)
    requires
        address.len() > 0 ==> address[address.len() - 1] != '/',
        forall|i: int| 0 <= i < slashes.len() ==> slashes[i] == '/',
    ensures
        (address + slashes).len() > 0 ==> print_address(address + slashes) == Ok::<
            Seq<char>,
            ErrorView,
        >(address + "/print"@),
        print_address(seq![]) == Err::<Seq<char>, ErrorView>(
            ErrorView::OtherLibraryError("打印已启用但未配置 print.agent_url"@),
        ),
{
    slashes_are_trimmed(address, slashes);
}

proof fn slashes_are_trimmed(address: Seq<char>, slashes: Seq<char>)
    requires
        address.len() > 0 ==> address[address.len() - 1] != '/',
        forall|i: int| 0 <= i < slashes.len() ==> slashes[i] == '/',
    ensures
        text::trim_end(address + slashes, text::only('/')) == address,
    decreases slashes.len(),
{
    let whole = address + slashes;
    if slashes.len() == 0 {
        assert(whole =~= address);
    } else {
        let front = slashes.take(slashes.len() - 1);
        slashes_are_trimmed(address, front);
        assert(whole[whole.len() - 1] == slashes[slashes.len() - 1]);
        assert(text::only('/')(whole[whole.len() - 1]));
        assert(whole.take(whole.len() - 1) =~= address + front);
    }
}

/// A picture was printed where the agent says so, and else the reason is told.
pub proof fn answers_are_judged(reason: String, status: String, body: String)
    ensures
        answer_outcome(AgentAnswer::Answered { success: true, status, body }) is Ok,
        answer_outcome(AgentAnswer::Answered { success: false, status, body }) == Err::<
            (),
            ErrorView,
        >(ErrorView::OtherLibraryError("打印代理返回 "@ + status@ + ": "@ + body@)),
        answer_outcome(AgentAnswer::NotReached(reason)) == Err::<(), ErrorView>(
            ErrorView::OtherLibraryError("调用打印代理失败: "@ + reason@),
        ),
{
}

} // verus!
