//! Errors of the library and the message of the last one.

use vstd::prelude::*;

verus! {

/// Everything that can go wrong in a call.
#[derive(Debug, PartialEq, Eq)]
pub enum InferaError {
    /// A required pointer argument was null.
    NullPointer,
    /// A string argument or a path was not valid UTF-8.
    Utf8Error,
    /// No model is loaded under the name.
    ModelNotFound(String),
    /// A file operation failed.
    IoError(String),
    /// The cache directory could not be created.
    CacheDirError(String),
    /// A download could not be requested or was answered with an error.
    HttpRequestError(String),
    /// A BLOB does not hold a whole number of 32-bit values.
    InvalidBlobSize,
    /// The input does not have the shape that the model expects.
    InvalidInputShape(String),
    /// The inference backend reported an error.
    OnnxError(String),
}

/// What an [`InferaError`] says, with texts as sequences of characters.
pub enum ErrorView {
    NullPointer,
    Utf8Error,
    ModelNotFound(Seq<char>),
    IoError(Seq<char>),
    CacheDirError(Seq<char>),
    HttpRequestError(Seq<char>),
    InvalidBlobSize,
    InvalidInputShape(Seq<char>),
    OnnxError(Seq<char>),
}

impl View for InferaError {
    type V = ErrorView;

    open spec fn view(&self) -> ErrorView {
        match self {
            InferaError::NullPointer => ErrorView::NullPointer,
            InferaError::Utf8Error => ErrorView::Utf8Error,
            InferaError::ModelNotFound(s) => ErrorView::ModelNotFound(s@),
            InferaError::IoError(s) => ErrorView::IoError(s@),
            InferaError::CacheDirError(s) => ErrorView::CacheDirError(s@),
            InferaError::HttpRequestError(s) => ErrorView::HttpRequestError(s@),
            InferaError::InvalidBlobSize => ErrorView::InvalidBlobSize,
            InferaError::InvalidInputShape(s) => ErrorView::InvalidInputShape(s@),
            InferaError::OnnxError(s) => ErrorView::OnnxError(s@),
        }
    }
}

impl ErrorView {
    /// The message that describes the error to the caller.
    pub open spec fn message(self) -> Seq<char> {
        match self {
            ErrorView::NullPointer => "Null pointer passed"@,
            ErrorView::Utf8Error => "Invalid UTF-8 string"@,
            ErrorView::ModelNotFound(s) => "Model not found: "@ + s,
            ErrorView::IoError(s) => "IO error: "@ + s,
            ErrorView::CacheDirError(s) => "Failed to create cache directory: "@ + s,
            ErrorView::HttpRequestError(s) => "HTTP request failed: "@ + s,
            ErrorView::InvalidBlobSize => "Invalid BLOB size: length must be a multiple of 4"@,
            ErrorView::InvalidInputShape(s) => "Invalid input shape: "@ + s,
            ErrorView::OnnxError(s) => "ONNX error: "@ + s,
        }
    }
}

/// `prefix` followed by `detail`.
fn joined(prefix: &str, detail: &String) -> (r: String)
    ensures
        r@ == prefix@ + detail@,
{
    let mut text: String = prefix.to_owned();
    text.append(detail.as_str());
    text
}

impl InferaError {
    /// The message that describes the error to the caller.
    pub fn message(&self) -> (r: String)
        ensures
            r@ == self@.message(),
    {
        match self {
            InferaError::NullPointer => "Null pointer passed".to_owned(),
            InferaError::Utf8Error => "Invalid UTF-8 string".to_owned(),
            InferaError::ModelNotFound(s) => joined("Model not found: ", s),
            InferaError::IoError(s) => joined("IO error: ", s),
            InferaError::CacheDirError(s) => joined("Failed to create cache directory: ", s),
            InferaError::HttpRequestError(s) => joined("HTTP request failed: ", s),
            InferaError::InvalidBlobSize => "Invalid BLOB size: length must be a multiple of 4".to_owned(),
            InferaError::InvalidInputShape(s) => joined("Invalid input shape: ", s),
            InferaError::OnnxError(s) => joined("ONNX error: ", s),
        }
    }
}

/// The message of the last error that a call reported, if any has.
#[derive(Debug)]
pub struct LastError {
    message: Option<String>,
}

impl View for LastError {
    type V = Option<Seq<char>>;

    closed spec fn view(&self) -> Option<Seq<char>> {
        match self.message {
            Some(m) => Some(m@),
            None => None,
        }
    }
}

impl LastError {
    /// No error has been reported yet.
    pub fn new() -> (r: LastError)
        ensures
            r@ == None::<Seq<char>>,
    {
        LastError { message: None }
    }

    /// Remembers the message of `error` in place of the one before.
    pub fn set_last_error(&mut self, error: &InferaError)
        ensures
            final(self)@ == Some(error@.message()),
    {
        self.message = Some(error.message());
    }

    /// The message of the last error, if any was reported.
    pub fn infera_last_error(&self) -> (r: Option<String>)
        ensures
            r is Some <==> self@ is Some,
            r matches Some(m) ==> self@ == Some(m@),
    {
        match &self.message {
            Some(m) => Some(m.clone()),
            None => None,
        }
    }
}

/// The message of an error that has a detail ends with the whole of it, behind
/// words that follow from the kind alone.
pub proof fn law_messages_tell_the_detail(detail: Seq<char>)
    ensures
        ErrorView::ModelNotFound(detail).message() == "Model not found: "@ + detail,
        ErrorView::IoError(detail).message() == "IO error: "@ + detail,
        ErrorView::CacheDirError(detail).message() == "Failed to create cache directory: "@ + detail,
        ErrorView::HttpRequestError(detail).message() == "HTTP request failed: "@ + detail,
        ErrorView::InvalidInputShape(detail).message() == "Invalid input shape: "@ + detail,
        ErrorView::OnnxError(detail).message() == "ONNX error: "@ + detail,
        ErrorView::NullPointer.message() == "Null pointer passed"@,
        ErrorView::Utf8Error.message() == "Invalid UTF-8 string"@,
        ErrorView::InvalidBlobSize.message()
            == "Invalid BLOB size: length must be a multiple of 4"@,
{
}

/// What an error says is its kind and its detail.
pub proof fn law_errors_are_seen_as_they_are(detail: String)
    ensures
        InferaError::NullPointer@ == ErrorView::NullPointer,
        InferaError::Utf8Error@ == ErrorView::Utf8Error,
        InferaError::ModelNotFound(detail)@ == ErrorView::ModelNotFound(detail@),
        InferaError::IoError(detail)@ == ErrorView::IoError(detail@),
        InferaError::CacheDirError(detail)@ == ErrorView::CacheDirError(detail@),
        InferaError::HttpRequestError(detail)@ == ErrorView::HttpRequestError(detail@),
        InferaError::InvalidBlobSize@ == ErrorView::InvalidBlobSize,
        InferaError::InvalidInputShape(detail)@ == ErrorView::InvalidInputShape(detail@),
        InferaError::OnnxError(detail)@ == ErrorView::OnnxError(detail@),
{
}

} // verus!
