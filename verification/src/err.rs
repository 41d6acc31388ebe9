//! The errors of the service, and how they are answered over HTTP.
use vstd::prelude::*;

verus! {

/// What went wrong; an error of another library is known by its text.
#[derive(Debug)]
pub enum CustomError {
    OtherLibraryError(String),
    JsonError(String),
    QrError(String),
    ImageError(String),
    IOError(String),
    TeraError(String),
    AnyhowError(String),
    DbError(String),
    PrinterNoFound,
}

/// What an error says.
pub enum ErrorView {
    OtherLibraryError(Seq<char>),
    JsonError(Seq<char>),
    QrError(Seq<char>),
    ImageError(Seq<char>),
    IOError(Seq<char>),
    TeraError(Seq<char>),
    AnyhowError(Seq<char>),
    DbError(Seq<char>),
    PrinterNoFound,
}

impl View for CustomError {
    type V = ErrorView;

    open spec fn view(&self) -> ErrorView {
        match *self {
            CustomError::OtherLibraryError(m) => ErrorView::OtherLibraryError(m@),
            CustomError::JsonError(m) => ErrorView::JsonError(m@),
            CustomError::QrError(m) => ErrorView::QrError(m@),
            CustomError::ImageError(m) => ErrorView::ImageError(m@),
            CustomError::IOError(m) => ErrorView::IOError(m@),
            CustomError::TeraError(m) => ErrorView::TeraError(m@),
            CustomError::AnyhowError(m) => ErrorView::AnyhowError(m@),
            CustomError::DbError(m) => ErrorView::DbError(m@),
            CustomError::PrinterNoFound => ErrorView::PrinterNoFound,
        }
    }
}

/// The message of an error.
pub open spec fn message(e: ErrorView) -> Seq<char> {
    match e {
        ErrorView::OtherLibraryError(m) => "OtherLibraryError: "@ + m,
        ErrorView::JsonError(m) => "JsonError: "@ + m,
        ErrorView::QrError(m) => "QrError: "@ + m,
        ErrorView::ImageError(m) => "ImageError: "@ + m,
        ErrorView::IOError(m) => "IOError: "@ + m,
        ErrorView::TeraError(m) => "TeraError: "@ + m,
        ErrorView::AnyhowError(m) => "AnyhowError: "@ + m,
        ErrorView::DbError(m) => "DbError: "@ + m,
        ErrorView::PrinterNoFound => "打印程序未找到！"@,
    }
}

/// The body of an HTTP answer.
#[derive(Debug)]
pub enum Body {
    Empty,
    /// A JSON document that is one string.
    JsonText(String),
    Text(String),
}

/// An HTTP answer to a request that failed.
#[derive(Debug)]
pub struct ErrorResponse {
    pub status: u16,
    pub body: Body,
}

fn prefixed(prefix: &str, detail: &str) -> (r: String)
    ensures
        r@ == prefix@ + detail@,
{
    let mut r = prefix.to_owned();
    r.append(detail);
    r
}

impl CustomError {
    /// The message of the error.
    pub fn to_text(&self) -> (r: String)
        ensures
            r@ == message(self@),
    {
        match self {
            CustomError::OtherLibraryError(m) => prefixed("OtherLibraryError: ", m.as_str()),
            CustomError::JsonError(m) => prefixed("JsonError: ", m.as_str()),
            CustomError::QrError(m) => prefixed("QrError: ", m.as_str()),
            CustomError::ImageError(m) => prefixed("ImageError: ", m.as_str()),
            CustomError::IOError(m) => prefixed("IOError: ", m.as_str()),
            CustomError::TeraError(m) => prefixed("TeraError: ", m.as_str()),
            CustomError::AnyhowError(m) => prefixed("AnyhowError: ", m.as_str()),
            CustomError::DbError(m) => prefixed("DbError: ", m.as_str()),
            CustomError::PrinterNoFound => "打印程序未找到！".to_owned(),
        }
    }

    /// The HTTP answer to a request that failed with this error: content that no QR
    /// code can hold is the fault of the request, everything else one of the server.
    pub fn error_response(&self) -> (r: ErrorResponse)
        ensures
            match self@ {
                ErrorView::OtherLibraryError(m) => r.status == 500 && (r.body matches Body::JsonText(
                    t,
                ) && t@ == m),
                ErrorView::QrError(_) => r.status == 400 && r.body is Empty,
                e => r.status == 500 && (r.body matches Body::Text(t) && t@ == "error:"@ + message(
                    e,
                )),
            },
    {
        match self {
            CustomError::OtherLibraryError(m) => ErrorResponse {
                status: 500,
                body: Body::JsonText(m.clone()),
            },
            CustomError::QrError(_) => ErrorResponse { status: 400, body: Body::Empty },
            _ => ErrorResponse {
                status: 500,
                body: Body::Text(prefixed("error:", self.to_text().as_str())),
            },
        }
    }
}

/// An error in words of this library.
pub fn other_error(text: &str) -> (r: CustomError)
    ensures
        r@ == ErrorView::OtherLibraryError(text@),
{
    CustomError::OtherLibraryError(text.to_owned())
}

/// An error in words of this library, followed by a detail.
pub fn other_error_with(text: &str, detail: &str) -> (r: CustomError)
    ensures
        r@ == ErrorView::OtherLibraryError(text@ + detail@),
{
    CustomError::OtherLibraryError(prefixed(text, detail))
}

/// What the outcome of a function that returns nothing says.
pub open spec fn done(r: Result<(), CustomError>) -> Result<(), ErrorView> {
    match r {
        Ok(()) => Ok(()),
        Err(e) => Err(e@),
    }
}

/// What the outcome of a function that returns a text says.
pub open spec fn told(r: Result<String, CustomError>) -> Result<Seq<char>, ErrorView> {
    match r {
        Ok(s) => Ok(s@),
        Err(e) => Err(e@),
    }
}

/// The message of an error tells the detail behind the kind of the error, so two details of
/// one kind are told apart.
pub proof fn messages_tell_the_detail(m: Seq<char>)
    ensures
        message(ErrorView::OtherLibraryError(m)).skip(19) == m,
        message(ErrorView::OtherLibraryError(m)).take(19) == "OtherLibraryError: "@,
        message(ErrorView::JsonError(m)) == "JsonError: "@ + m,
        message(ErrorView::QrError(m)) == "QrError: "@ + m,
        message(ErrorView::ImageError(m)) == "ImageError: "@ + m,
        message(ErrorView::IOError(m)) == "IOError: "@ + m,
        message(ErrorView::TeraError(m)) == "TeraError: "@ + m,
        message(ErrorView::AnyhowError(m)) == "AnyhowError: "@ + m,
        message(ErrorView::DbError(m)) == "DbError: "@ + m,
        message(ErrorView::PrinterNoFound) == "打印程序未找到！"@,
{
    reveal_strlit("OtherLibraryError: ");
    assert(message(ErrorView::OtherLibraryError(m)).skip(19) =~= m);
    assert(message(ErrorView::OtherLibraryError(m)).take(19) =~= "OtherLibraryError: "@);
}

/// An error says its kind and its text, and an outcome says its value or its error.
pub proof fn outcomes_say_what_they_hold(e: CustomError, s: String, m: String)
    ensures
        done(Ok(())) is Ok,
        done(Err(e)) == Err::<(), ErrorView>(e@),
        told(Ok(s)) == Ok::<Seq<char>, ErrorView>(s@),
        told(Err(e)) == Err::<Seq<char>, ErrorView>(e@),
        CustomError::OtherLibraryError(m)@ == ErrorView::OtherLibraryError(m@),
        CustomError::JsonError(m)@ == ErrorView::JsonError(m@),
        CustomError::QrError(m)@ == ErrorView::QrError(m@),
        CustomError::ImageError(m)@ == ErrorView::ImageError(m@),
        CustomError::IOError(m)@ == ErrorView::IOError(m@),
        CustomError::TeraError(m)@ == ErrorView::TeraError(m@),
        CustomError::AnyhowError(m)@ == ErrorView::AnyhowError(m@),
        CustomError::DbError(m)@ == ErrorView::DbError(m@),
        CustomError::PrinterNoFound@ == ErrorView::PrinterNoFound,
{
}

} // verus!
