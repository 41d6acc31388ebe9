//! The template of the stand-alone server, which is kept in two files.
use vstd::prelude::*;

use crate::design;
use crate::design::check_payload;
use crate::err::{CustomError, ErrorView, other_error_with};
use crate::json;
use crate::json::{Json, JsonView};

verus! {

/// A request to save the template.
pub struct SaveTemplateRequest {
    /// The design.
    pub json: Json,
    /// The page.
    pub html: String,
}

/// The contents of the files of the template.
#[derive(Debug)]
pub struct TemplateFiles {
    /// The design, an indented JSON document.
    pub json: String,
    /// The page.
    pub html: String,
}

/// The files of a template that is saved, where `document` is the JSON document of the
/// design.
pub open spec fn files_with(html: Seq<char>, document: Result<Seq<char>, Seq<char>>) -> Result<
    (Seq<char>, Seq<char>),
    ErrorView,
> {
    match document {
        Ok(text) => Ok((text, html)),
        Err(message) => Err(
            ErrorView::OtherLibraryError("模板 JSON 序列化失败: "@ + message),
        ),
    }
}

/// The files of a template that is saved.
pub open spec fn saved_files(design: JsonView, html: Seq<char>) -> Result<
    (Seq<char>, Seq<char>),
    ErrorView,
> {
    match design::payload_error(Some(design), Some(html)) {
        Some(e) => Err(e),
        None => files_with(html, json::pretty(design)),
    }
}

/// What the outcome of saving a template holds.
pub open spec fn files_result(r: Result<TemplateFiles, CustomError>) -> Result<
    (Seq<char>, Seq<char>),
    ErrorView,
> {
    match r {
        Ok(files) => Ok((files.json@, files.html@)),
        Err(e) => Err(e@),
    }
}

/// The files of a template that is saved, where `document` is the JSON document of the
/// design.
pub fn files_of(html: &str, document: Result<String, String>) -> (r: Result<
    TemplateFiles,
    CustomError,
>)
    ensures
        files_result(r) == files_with(html@, crate::text::text_result(document)),
{
    match document {
        Ok(json) => Ok(TemplateFiles { json, html: html.to_owned() }),
        Err(message) => Err(other_error_with("模板 JSON 序列化失败: ", message.as_str())),
    }
}

/// The contents of the files of a template that is saved. A design without panels, and
/// a page without the element that is turned into a picture, are refused. What is saved
/// can be read back.
pub fn save_template_files(request: &SaveTemplateRequest) -> (r: Result<TemplateFiles, CustomError>)
    ensures
        files_result(r) == saved_files(request.json@, request.html@),
        design::payload_error(Some(request.json@), Some(request.html@)) is None
            && json::reads_back(request.json@) ==> (r matches Ok(files) && json::document(
            files.json@,
        ) == json::says(request.json@)),
{
    match check_payload(Some(&request.json), Some(request.html.as_str())) {
        Err(e) => Err(e),
        Ok(()) => files_of(request.html.as_str(), request.json.to_pretty_text()),
    }
}

/// A template that is saved has its page in one file, as it is, and the indented document of
/// its design in the other; what is wrong with it is told.
pub proof fn saved_files_hold_the_template(
    design: JsonView,
    html: Seq<char>,
    document: Seq<char>,
    message: Seq<char>,
    e: ErrorView,
)
    ensures
        design::payload_error(Some(design), Some(html)) == Some(e) ==> saved_files(design, html)
            == Err::<(Seq<char>, Seq<char>), ErrorView>(e),
        design::payload_error(Some(design), Some(html)) is None && json::pretty(design) == Ok::<
            Seq<char>,
            Seq<char>,
        >(document) ==> saved_files(design, html) == Ok::<(Seq<char>, Seq<char>), ErrorView>(
            (document, html),
        ),
        design::payload_error(Some(design), Some(html)) is None && json::pretty(design) == Err::<
            Seq<char>,
            Seq<char>,
        >(message) ==> saved_files(design, html) == Err::<(Seq<char>, Seq<char>), ErrorView>(
            ErrorView::OtherLibraryError("模板 JSON 序列化失败: "@ + message),
        ),
{
}

/// What is saved is what the files hold.
pub proof fn files_say_what_they_hold(files: TemplateFiles, e: CustomError)
    ensures
        files_result(Ok(files)) == Ok::<(Seq<char>, Seq<char>), ErrorView>(
            (files.json@, files.html@),
        ),
        files_result(Err(e)) == Err::<(Seq<char>, Seq<char>), ErrorView>(e@),
{
}

/// The page goes to its file as it is, and the document of the design to the other one.
pub proof fn files_hold_document_and_page(
    html: Seq<char>,
    document: Seq<char>,
    message: Seq<char>,
)
    ensures
        files_with(html, Ok(document)) == Ok::<(Seq<char>, Seq<char>), ErrorView>(
            (document, html),
        ),
        files_with(html, Err(message)) == Err::<(Seq<char>, Seq<char>), ErrorView>(
            ErrorView::OtherLibraryError("模板 JSON 序列化失败: "@ + message),
        ),
{
}

} // verus!
