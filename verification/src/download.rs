//! One download: a request that asks for the file only if it changed.

use crate::error::{ErrorView, InferaError};
use vstd::prelude::*;

verus! {

/// The status of a response to say that the file is as the entity tag knows it.
pub const NOT_MODIFIED: u16 = 304;

/// What came of the request.
#[derive(Debug, PartialEq, Eq)]
pub enum Reply {
    /// It could not be made or got no response, for the reason given.
    Failed(String),
    /// It got a response.
    Response {
        /// The status of the response.
        status: u16,
        /// What is to be told of the response if its status is that of an error.
        error: String,
    },
}

/// What came of writing the body of the response to the destination.
#[derive(Debug, PartialEq, Eq)]
pub enum SavedBody {
    /// The file could not be created or written.
    Failed(String),
    /// The file is complete. The response named the entity tag, if any.
    Saved { etag: Option<String> },
}

/// What comes after the reply.
#[derive(Debug, PartialEq, Eq)]
pub enum DownloadStep {
    /// Write the body to the destination.
    SaveBody,
    /// Stop with the result.
    Finished(Result<Option<(bool, String)>, InferaError>),
}

/// The outcome of a download: whether the file was not modified, and its entity
/// tag.
pub open spec fn outcome_view(r: Result<Option<(bool, String)>, InferaError>) -> Result<
    Option<(bool, Seq<char>)>,
    ErrorView,
> {
    match r {
        Ok(Some((unmodified, etag))) => Ok(Some((unmodified, etag@))),
        Ok(None) => Ok(None),
        Err(error) => Err(error@),
    }
}

/// The response says that the file that the entity tag stands for is current.
pub open spec fn is_unmodified(etag: Seq<char>, status: u16) -> bool {
    etag.len() > 0 && status == NOT_MODIFIED
}

/// The response tells an error of the client or of the server.
pub open spec fn is_error_status(status: u16) -> bool {
    400 <= status < 600
}

/// Decides what to do with the reply to a request for a file whose known entity
/// tag is `etag`, or is not known where that is empty.
pub fn download_file_with_etag(etag: &str, reply: Reply) -> (r: DownloadStep)
    ensures
        reply matches Reply::Failed(reason) ==> {
            &&& r matches DownloadStep::Finished(result)
            &&& outcome_view(result) == Err::<Option<(bool, Seq<char>)>, ErrorView>(
                ErrorView::HttpRequestError(reason@),
            )
        },
        reply matches Reply::Response { status, error } ==> {
            if is_error_status(status) {
                &&& r matches DownloadStep::Finished(result)
                &&& outcome_view(result) == Err::<Option<(bool, Seq<char>)>, ErrorView>(
                    ErrorView::HttpRequestError(error@),
                )
            } else if is_unmodified(etag@, status) {
                &&& r matches DownloadStep::Finished(result)
                &&& outcome_view(result) == Ok::<Option<(bool, Seq<char>)>, ErrorView>(
                    Some((true, etag@)),
                )
            } else {
                r == DownloadStep::SaveBody
            }
        },
{
    match reply {
        Reply::Failed(reason) => DownloadStep::Finished(Err(InferaError::HttpRequestError(reason))),
        Reply::Response { status, error } => {
            if 400 <= status && status < 600 {
                DownloadStep::Finished(Err(InferaError::HttpRequestError(error)))
            } else if !etag.is_empty() && status == NOT_MODIFIED {
                DownloadStep::Finished(Ok(Some((true, etag.to_owned()))))
            } else {
                DownloadStep::SaveBody
            }
        },
    }
}

/// The result of a download whose body was to be written.
pub fn download_saved(saved: SavedBody) -> (r: Result<Option<(bool, String)>, InferaError>)
    ensures
        outcome_view(r) == match saved {
            SavedBody::Failed(reason) => Err(ErrorView::IoError(reason@)),
            SavedBody::Saved { etag: Some(etag) } => Ok(Some((false, etag@))),
            SavedBody::Saved { etag: None } => Ok(Some((false, Seq::empty()))),
        },
{
    match saved {
        SavedBody::Failed(reason) => Err(InferaError::IoError(reason)),
        SavedBody::Saved { etag } => {
            let etag: String = match etag {
                Some(etag) => etag,
                None => String::new(),
            };
            Ok(Some((false, etag)))
        },
    }
}

/// A response fails a download where its status is one of the four or the five
/// hundreds. It says that the file is current where its status is 304 and an
/// entity tag was named. In every other case the body is the file.
pub proof fn law_statuses_decide(etag: Seq<char>, status: u16)
    ensures
        is_error_status(status) <==> status / 100 == 4 || status / 100 == 5,
        is_unmodified(etag, status) <==> status == 304 && etag != Seq::<char>::empty(),
        !(is_error_status(status) && is_unmodified(etag, status)),
{
    if etag.len() == 0 {
        assert(etag =~= Seq::<char>::empty());
    }
}

/// The outcome of a download is seen as it is.
pub proof fn law_outcomes_are_seen_as_they_are(unmodified: bool, etag: String, error: InferaError)
    ensures
        outcome_view(Ok(Some((unmodified, etag)))) == Ok::<Option<(bool, Seq<char>)>, ErrorView>(
            Some((unmodified, etag@)),
        ),
        outcome_view(Ok(None)) == Ok::<Option<(bool, Seq<char>)>, ErrorView>(None),
        outcome_view(Err(error)) == Err::<Option<(bool, Seq<char>)>, ErrorView>(error@),
{
}

} // verus!
