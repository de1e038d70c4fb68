//! What a refused request is answered.
use axum::http::HeaderMap;
use vstd::prelude::*;

use crate::headers;
use crate::headers::{lemma_plain_is_safe, lemma_plain_join, set_header};
use crate::numbers;
use crate::numbers::{lemma_decimal, push_decimal};
use crate::random;
use crate::random::random_id;
use crate::status::{
    BAD_REQUEST, CONFLICT, FORBIDDEN, GONE, INSUFFICIENT_STORAGE, INTERNAL_SERVER_ERROR, NOT_FOUND, PAYLOAD_TOO_LARGE, RANGE_NOT_SATISFIABLE, TOO_MANY_REQUESTS, UNAUTHORIZED, UNPROCESSABLE_ENTITY,
};
use crate::text::owned;

verus! {

/// The ways in which the file service can fail.
#[derive(Debug, Clone, Copy, PartialEq, Eq, Structural)]
pub enum FileErrorKind {
    Invalid,
    NotFound,
    DirectorySnapshotExpired,
    Conflict,
    PermissionDenied,
    DirectoryQueryTooBroad,
    FileTooLarge,
    InsufficientStorage,
    Unavailable,
    Io,
    Serialization,
    PasswordHash,
    Task,
    Image,
}

/// A failure of the file service: its kind, its stable code, and what it says.
#[derive(Debug, Clone, PartialEq, Eq)]
pub struct FileError {
    pub kind: FileErrorKind,
    pub code: String,
    pub message: String,
}

/// An error as it is sent.
#[derive(Debug, Clone, PartialEq, Eq)]
pub struct ApiError {
    pub status: u16,
    pub code: String,
    pub message: String,
    /// By which a report and a log entry find each other.
    pub error_id: Option<String>,
    /// The value of the `Content-Range` header, where there is one.
    pub content_range: Option<String>,
}

/// What an `ApiError` says.
pub struct ApiErrorView {
    pub status: u16,
    pub code: Seq<char>,
    pub message: Seq<char>,
    pub error_id: Option<Seq<char>>,
    pub content_range: Option<Seq<char>>,
}

/// The view of an optional text.
pub open spec fn string_of(text: Option<String>) -> Option<Seq<char>> {
    match text {
        Some(text) => Some(text@),
        None => None,
    }
}

impl View for ApiError {
    type V = ApiErrorView;

    open spec fn view(&self) -> ApiErrorView {
        ApiErrorView {
            status: self.status,
            code: self.code@,
            message: self.message@,
            error_id: string_of(self.error_id),
            content_range: string_of(self.content_range),
        }
    }
}

/// `result` is this answer.
pub open spec fn answers<T>(
    result: Result<T, ApiError>,
    answer: Result<T, ApiErrorView>,
) -> bool {
    match result {
        Ok(value) => answer == Ok::<T, ApiErrorView>(value),
        Err(error) => answer == Err::<T, ApiErrorView>(error@),
    }
}

/// The stable code that goes with a status.
pub open spec fn status_code(status: u16) -> Seq<char> {
    if status == BAD_REQUEST {
        "web_gateway.invalid_request"@
    } else if status == UNAUTHORIZED {
        "web_gateway.unauthenticated"@
    } else if status == FORBIDDEN {
        "web_gateway.permission_denied"@
    } else if status == NOT_FOUND {
        "web_gateway.not_found"@
    } else if status == CONFLICT {
        "web_gateway.conflict"@
    } else if status == GONE {
        "web_gateway.expired"@
    } else if status == TOO_MANY_REQUESTS {
        "web_gateway.rate_limited"@
    } else {
        "web_gateway.internal"@
    }
}

/// An error with a status and a message.
pub open spec fn refusal(status: u16, message: Seq<char>) -> ApiErrorView {
    ApiErrorView {
        status,
        code: status_code(status),
        message,
        error_id: None,
        content_range: None,
    }
}

/// The share or the file is not there.
pub open spec fn missing() -> ApiErrorView {
    refusal(NOT_FOUND, "share or file not found"@)
}

/// The share does not permit it.
pub open spec fn not_permitted() -> ApiErrorView {
    refusal(FORBIDDEN, "this operation is not permitted for the share"@)
}

/// The status that a failure of the file service is reported with.
pub open spec fn kind_status(kind: FileErrorKind) -> u16 {
    match kind {
        FileErrorKind::Invalid => BAD_REQUEST,
        FileErrorKind::NotFound => NOT_FOUND,
        FileErrorKind::DirectorySnapshotExpired => GONE,
        FileErrorKind::Conflict => CONFLICT,
        FileErrorKind::PermissionDenied => FORBIDDEN,
        FileErrorKind::DirectoryQueryTooBroad => UNPROCESSABLE_ENTITY,
        FileErrorKind::FileTooLarge => PAYLOAD_TOO_LARGE,
        FileErrorKind::InsufficientStorage => INSUFFICIENT_STORAGE,
        FileErrorKind::Unavailable
        | FileErrorKind::Io
        | FileErrorKind::Serialization
        | FileErrorKind::PasswordHash
        | FileErrorKind::Task
        | FileErrorKind::Image => INTERNAL_SERVER_ERROR,
    }
}

/// How a failure of the file service is reported. One that is the gateway's
/// own keeps its message to itself and carries `error_id` in its place.
pub open spec fn file_failure(
    kind: FileErrorKind,
    code: Seq<char>,
    message: Seq<char>,
    error_id: Seq<char>,
) -> ApiErrorView {
    let internal = kind_status(kind) == INTERNAL_SERVER_ERROR;
    ApiErrorView {
        status: kind_status(kind),
        code,
        message: if internal {
            "web service is temporarily unavailable"@
        } else {
            message
        },
        error_id: if internal {
            Some(error_id)
        } else {
            None
        },
        content_range: None,
    }
}

/// How a failure inside the gateway is reported.
pub open spec fn internal_failure(error_id: Seq<char>) -> ApiErrorView {
    ApiErrorView {
        status: INTERNAL_SERVER_ERROR,
        code: "web_gateway.internal"@,
        message: "web service is temporarily unavailable"@,
        error_id: Some(error_id),
        content_range: None,
    }
}

/// The `Content-Range` of a file of which no requested part can be sent.
pub open spec fn unsatisfied_range(total: nat) -> Seq<char> {
    "bytes */"@ + numbers::decimal(total)
}

/// How a range outside the file is reported.
pub open spec fn range_failure(total: u64) -> ApiErrorView {
    ApiErrorView {
        status: RANGE_NOT_SATISFIABLE,
        code: "web_gateway.invalid_range"@,
        message: "requested file range is invalid"@,
        error_id: None,
        content_range: Some(unsatisfied_range(total as nat)),
    }
}

fn code_for(status: u16) -> (result: &'static str)
    ensures
        result@ == status_code(status),
{
    if status == BAD_REQUEST {
        "web_gateway.invalid_request"
    } else if status == UNAUTHORIZED {
        "web_gateway.unauthenticated"
    } else if status == FORBIDDEN {
        "web_gateway.permission_denied"
    } else if status == NOT_FOUND {
        "web_gateway.not_found"
    } else if status == CONFLICT {
        "web_gateway.conflict"
    } else if status == GONE {
        "web_gateway.expired"
    } else if status == TOO_MANY_REQUESTS {
        "web_gateway.rate_limited"
    } else {
        "web_gateway.internal"
    }
}

fn status_for(kind: FileErrorKind) -> (result: u16)
    ensures
        result == kind_status(kind),
{
    match kind {
        FileErrorKind::Invalid => BAD_REQUEST,
        FileErrorKind::NotFound => NOT_FOUND,
        FileErrorKind::DirectorySnapshotExpired => GONE,
        FileErrorKind::Conflict => CONFLICT,
        FileErrorKind::PermissionDenied => FORBIDDEN,
        FileErrorKind::DirectoryQueryTooBroad => UNPROCESSABLE_ENTITY,
        FileErrorKind::FileTooLarge => PAYLOAD_TOO_LARGE,
        FileErrorKind::InsufficientStorage => INSUFFICIENT_STORAGE,
        FileErrorKind::Unavailable
        | FileErrorKind::Io
        | FileErrorKind::Serialization
        | FileErrorKind::PasswordHash
        | FileErrorKind::Task
        | FileErrorKind::Image => INTERNAL_SERVER_ERROR,
    }
}

impl ApiError {
    /// An error with the code of its status.
    pub fn new(status: u16, message: &str) -> (result: Self)
        ensures
            result@ == refusal(status, message@),
    {
        ApiError {
            status,
            code: owned(code_for(status)),
            message: owned(message),
            error_id: None,
            content_range: None,
        }
    }

    /// What a failure of the file service is answered, with the identifier
    /// that an internal one gets.
    pub fn bad_request_with(error: FileError, error_id: String) -> (result: Self)
        ensures
            result@ == file_failure(error.kind, error.code@, error.message@, error_id@),
    {
        let status: u16 = status_for(error.kind);
        if status == INTERNAL_SERVER_ERROR {
            ApiError {
                status,
                code: error.code,
                message: owned("web service is temporarily unavailable"),
                error_id: Some(error_id),
                content_range: None,
            }
        } else {
            ApiError {
                status,
                code: error.code,
                message: error.message,
                error_id: None,
                content_range: None,
            }
        }
    }

    /// What a failure of the file service is answered.
    pub fn bad_request(error: FileError) -> (result: Self)
        ensures
            exists|id: Seq<char>| #[trigger]
                random::id_of_number(id) && result@ == file_failure(
                    error.kind,
                    error.code@,
                    error.message@,
                    id,
                ),
    {
        let id = random_id();
        assert(random::id_of_number(id@));
        ApiError::bad_request_with(error, id)
    }

    pub fn not_found() -> (result: Self)
        ensures
            result@ == missing(),
    {
        ApiError::new(NOT_FOUND, "share or file not found")
    }

    pub fn forbidden() -> (result: Self)
        ensures
            result@ == not_permitted(),
    {
        ApiError::new(FORBIDDEN, "this operation is not permitted for the share")
    }

    /// What a failure inside the gateway is answered, under a given identifier.
    pub fn internal_with(error_id: String) -> (result: Self)
        ensures
            result@ == internal_failure(error_id@),
    {
        ApiError {
            status: INTERNAL_SERVER_ERROR,
            code: owned("web_gateway.internal"),
            message: owned("web service is temporarily unavailable"),
            error_id: Some(error_id),
            content_range: None,
        }
    }

    /// What a failure inside the gateway is answered.
    pub fn internal() -> (result: Self)
        ensures
            exists|id: Seq<char>| #[trigger]
                random::id_of_number(id) && result@ == internal_failure(id),
    {
        let id = random_id();
        assert(random::id_of_number(id@));
        ApiError::internal_with(id)
    }

    /// What a range outside a file of `total` bytes is answered.
    pub fn range(total: u64) -> (result: Self)
        ensures
            result@ == range_failure(total),
    {
        let mut content_range = owned("bytes */");
        push_decimal(&mut content_range, total);
        ApiError {
            status: RANGE_NOT_SATISFIABLE,
            code: owned("web_gateway.invalid_range"),
            message: owned("requested file range is invalid"),
            error_id: None,
            content_range: Some(content_range),
        }
    }

    /// Adds the headers that only this error has to its response.
    pub fn apply_headers(&self, response: &mut HeaderMap)
        requires
            headers::room_for(*old(response), 1),
        ensures
            headers::header_values(*final(response)) == match self@.content_range {
                Some(value) if headers::header_safe(value) => headers::with_header(
                    headers::header_values(*old(response)),
                    "content-range"@,
                    value,
                ),
                _ => headers::header_values(*old(response)),
            },
    {
        if let Some(value) = &self.content_range {
            let _ = set_header(response, "content-range", value.as_str());
        }
    }
}

/// An internal failure says nothing of what failed: whatever the file service
/// said, the answer has the same message, and it has an identifier.
pub proof fn law_internal_errors_hide_details(
    kind: FileErrorKind,
    code: Seq<char>,
    message: Seq<char>,
    other: Seq<char>,
    error_id: Seq<char>,
)
    requires
        kind_status(kind) == INTERNAL_SERVER_ERROR,
    ensures
        file_failure(kind, code, message, error_id) == file_failure(kind, code, other, error_id),
        file_failure(kind, code, message, error_id).error_id == Some(error_id),
{
}

/// Identifiers go with internal failures, and with nothing else.
pub proof fn law_only_internal_errors_have_identifiers(
    kind: FileErrorKind,
    code: Seq<char>,
    message: Seq<char>,
    error_id: Seq<char>,
)
    ensures
        file_failure(kind, code, message, error_id).error_id is Some <==> file_failure(
            kind,
            code,
            message,
            error_id,
        ).status == INTERNAL_SERVER_ERROR,
{
}

/// The `Content-Range` of a refused range gives the length of the file, and can
/// be sent whatever that is.
pub proof fn law_a_refused_range_names_the_length(total: u64)
    ensures
        range_failure(total).content_range == Some("bytes */"@ + numbers::decimal(total as nat)),
        headers::header_safe(range_failure(total).content_range->0),
{
    reveal_strlit("bytes */");
    lemma_decimal(total as nat);
    assert(headers::plain("bytes */"@));
    assert(headers::plain(numbers::decimal(total as nat)));
    lemma_plain_join("bytes */"@, numbers::decimal(total as nat));
    lemma_plain_is_safe(unsatisfied_range(total as nat));
}

} // verus!
