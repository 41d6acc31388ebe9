//! The headless browser that turns a page into the picture of a label.
use vstd::prelude::*;

use crate::codec;
use crate::codec::html_data_url;
use crate::decimal;
use crate::decimal::unsigned_text;
use crate::err::{CustomError, ErrorView, other_error_with};
use crate::text;
use crate::text::{chars_of, replace_all, string_of};

verus! {

/// A path as the browser's command line takes it: with forward slashes.
pub open spec fn forward_slashes(path: Seq<char>) -> Seq<char> {
    text::replace(path, seq!['\\'], seq!['/'])
}

/// The arguments that make the browser show a page and store a picture of its label.
pub open spec fn arguments(page: Seq<char>, output: Seq<char>) -> Seq<Seq<char>> {
    seq![
        "--session"@,
        "qr-service-agent-browser"@,
        "batch"@,
        "--bail"@,
        "set viewport 1200 800"@,
        "open "@ + codec::page_url(page),
        "wait #app"@,
        "screenshot #app "@ + forward_slashes(output),
    ]
}

/// A path as the browser's command line takes it.
pub fn command_path(path: &str) -> (r: String)
    ensures
        r@ == forward_slashes(path@),
{
    let chars = chars_of(path);
    let from: Vec<char> = vec!['\\'];
    let to: Vec<char> = vec!['/'];
    assert(from@ =~= seq!['\\']);
    assert(to@ =~= seq!['/']);
    string_of(replace_all(chars.as_slice(), from.as_slice(), to.as_slice()).as_slice())
}

fn joined(head: &str, tail: &str) -> (r: String)
    ensures
        r@ == head@ + tail@,
{
    let mut r = head.to_owned();
    r.append(tail);
    r
}

/// The arguments that make the browser show `page` and store a picture of its label
/// at `output`.
pub fn browser_arguments(page: &str, output: &str) -> (r: Vec<String>)
    ensures
        text::texts(r@) == arguments(page@, output@),
{
    let r: Vec<String> = vec![
        "--session".to_owned(),
        "qr-service-agent-browser".to_owned(),
        "batch".to_owned(),
        "--bail".to_owned(),
        "set viewport 1200 800".to_owned(),
        joined("open ", html_data_url(page).as_str()),
        "wait #app".to_owned(),
        joined("screenshot #app ", command_path(output).as_str()),
    ];
    assert(text::texts(r@) =~= arguments(page@, output@));
    r
}

/// The name of the file that a picture is stored in until it is read.
pub open spec fn screenshot_name(process_id: u32, timestamp: u128) -> Seq<char> {
    "qr_service_agent_browser_"@ + decimal::decimal(process_id as int) + "_"@ + decimal::decimal(
        timestamp as int,
    ) + ".png"@
}

/// The name of the file that a picture is stored in until it is read.
pub fn temp_screenshot_name(process_id: u32, timestamp: u128) -> (r: String)
    ensures
        r@ == screenshot_name(process_id, timestamp),
{
    let mut r = "qr_service_agent_browser_".to_owned();
    r.append(unsigned_text(process_id as u128).as_str());
    r.append("_");
    r.append(unsigned_text(timestamp).as_str());
    r.append(".png");
    r
}

/// How the browser's process ended.
pub enum BrowserExit {
    /// It could not be started, for this reason.
    NotStarted(String),
    /// It ended with this status.
    Ended { success: bool, status: String },
}

/// The error of a browser that did not do its work.
pub open spec fn exit_error(exit: BrowserExit, program: Seq<char>) -> Result<(), ErrorView> {
    match exit {
        BrowserExit::NotStarted(reason) => Err(
            ErrorView::OtherLibraryError(
                "failed to start agent-browser at "@ + program + ": "@ + reason@,
            ),
        ),
        BrowserExit::Ended { success, status } => if success {
            Ok(())
        } else {
            Err(
                ErrorView::OtherLibraryError(
                    "agent-browser failed to render label with status "@ + status@,
                ),
            )
        },
    }
}

/// Tells a browser that did its work from one that did not.
pub fn check_exit(exit: &BrowserExit, program: &str) -> (r: Result<(), CustomError>)
    ensures
        crate::err::done(r) == exit_error(*exit, program@),
{
    match exit {
        BrowserExit::NotStarted(reason) => {
            let mut message = "failed to start agent-browser at ".to_owned();
            message.append(program);
            message.append(": ");
            message.append(reason.as_str());
            Err(CustomError::OtherLibraryError(message))
        },
        BrowserExit::Ended { success, status } => {
            if *success {
                Ok(())
            } else {
                Err(
                    other_error_with(
                        "agent-browser failed to render label with status ",
                        status.as_str(),
                    ),
                )
            }
        },
    }
}

/// A path for the browser is the same path with forward slashes.
pub proof fn slashes_are_turned(path: Seq<char>)
    ensures
        forward_slashes(path).len() == path.len(),
        forall|i: int|
            0 <= i < path.len() ==> #[trigger] forward_slashes(path)[i] == (if path[i] == '\\' {
                '/'
            } else {
                path[i]
            }),
    decreases path.len(),
{
    let back = seq!['\\'];
    text::lacking_is_no_occurrence(path, '\\');
    match text::find(path, back) {
        None => {},
        Some(i) => {
            assert(text::first_at(path, back, i));
            let tail = path.skip(i + 1);
            slashes_are_turned(tail);
            let turned = forward_slashes(path);
            assert(turned == path.take(i) + seq!['/'] + forward_slashes(tail));
            assert(path.subrange(i, i + 1)[0] == path[i]);
            assert forall|k: int| 0 <= k < path.len() implies #[trigger] turned[k] == (if path[k]
                == '\\' {
                '/'
            } else {
                path[k]
            }) by {
                if k < i {
                    if path[k] == '\\' {
                        assert(path.subrange(k, k + 1) =~= back);
                        assert(text::occurs_at(path, back, k));
                    }
                } else if k > i {
                    assert(turned[k] == forward_slashes(tail)[k - i - 1]);
                    assert(tail[k - i - 1] == path[k]);
                }
            }
        },
    }
}

/// The browser opens that very page in a window of the right size, waits for the label, and
/// stores the picture of the label at that very path.
pub proof fn browser_takes_the_picture(page: Seq<char>, output: Seq<char>)
    ensures
        ({
            let list = arguments(page, output);
            &&& list.len() == 8
            &&& list[0] == "--session"@
            &&& list[1] == "qr-service-agent-browser"@
            &&& list[2] == "batch"@
            &&& list[3] == "--bail"@
            &&& list[4] == "set viewport 1200 800"@
            &&& list[5] == "open "@ + codec::page_url(page)
            &&& list[6] == "wait #app"@
            &&& list[7] == "screenshot #app "@ + forward_slashes(output)
        }),
{
}

/// A browser that did its work is told from one that did not.
pub proof fn exits_are_judged(reason: String, status: String, program: Seq<char>)
    ensures
        exit_error(BrowserExit::Ended { success: true, status }, program) is Ok,
        exit_error(BrowserExit::Ended { success: false, status }, program) == Err::<
            (),
            ErrorView,
        >(
            ErrorView::OtherLibraryError(
                "agent-browser failed to render label with status "@ + status@,
            ),
        ),
        exit_error(BrowserExit::NotStarted(reason), program) == Err::<(), ErrorView>(
            ErrorView::OtherLibraryError(
                "failed to start agent-browser at "@ + program + ": "@ + reason@,
            ),
        ),
{
}

/// The file of a picture is named after the process and the time.
pub proof fn pictures_are_named(process_id: u32, timestamp: u128)
    ensures
        screenshot_name(process_id, timestamp) == "qr_service_agent_browser_"@ + decimal::decimal(
            process_id as int,
        ) + seq!['_'] + decimal::decimal(timestamp as int) + ".png"@,
{
    reveal_strlit("_");
    assert("_"@ =~= seq!['_']);
}

} // verus!
