//! The envelopes in which the API answers, and how a client reads them back.
//!
//! Every answer is a JSON object: `{"status": "success", "data": ...}` on success and
//! `{"status": "failure", "errors": [...]}` on failure, sent with an HTTP status code.

use vstd::prelude::*;

verus! {

/// HTTP 200 OK.
pub const STATUS_OK: u16 = 200;

/// HTTP 201 Created.
pub const STATUS_CREATED: u16 = 201;

/// HTTP 400 Bad Request.
pub const STATUS_BAD_REQUEST: u16 = 400;

/// HTTP 404 Not Found.
pub const STATUS_NOT_FOUND: u16 = 404;

/// HTTP 500 Internal Server Error.
pub const STATUS_INTERNAL_SERVER_ERROR: u16 = 500;

/// The body of a successful answer.
pub struct ApiSuccess<T> {
    pub data: T,
}

/// The body of a failed answer.
pub struct ApiFailure {
    pub errors: Vec<ApiError>,
}

/// One error of a failed answer: a machine-readable code and an optional explanation.
pub struct ApiError {
    pub error: String,
    pub detail: Option<String>,
}

/// A successful answer: its body and its HTTP status code.
pub struct ApiSuccessResponse<T> {
    body: ApiSuccess<T>,
    status: u16,
}

/// A failed answer: its body and its HTTP status code.
pub struct ApiFailureResponse {
    body: ApiFailure,
    status: u16,
}

/// The return type of the endpoint handlers.
///
/// `ApiResponse` values are created with `ApiResponse::success(...)`, `ApiResponse::created(...)`,
/// `ApiResponse::not_found()`, `ApiResponse::bad_request()`, or from an unexpected error with
/// `ApiFailureResponse::internal_error(...)`, which is always answered with a 500 status code.
pub type ApiResponse<T> = Result<ApiSuccessResponse<T>, ApiFailureResponse>;

impl<T> ApiSuccessResponse<T> {
    /// The HTTP status code of the answer.
    pub closed spec fn spec_status(&self) -> u16 {
        self.status
    }

    /// The data carried by the answer.
    pub closed spec fn spec_data(&self) -> T {
        self.body.data
    }

    /// Returns the HTTP status code of the answer.
    pub fn status(&self) -> (code: u16)
        ensures
            code == self.spec_status(),
    {
        self.status
    }

    /// Returns the body of the answer.
    pub fn into_body(self) -> (body: ApiSuccess<T>)
        ensures
            body.data == self.spec_data(),
    {
        self.body
    }
}

impl ApiFailureResponse {
    /// The HTTP status code of the answer.
    pub closed spec fn spec_status(&self) -> u16 {
        self.status
    }

    /// The errors carried by the answer.
    pub closed spec fn spec_errors(&self) -> Seq<ApiError> {
        self.body.errors@
    }

    /// Whether the answer carries exactly one error, with the given code and detail.
    pub open spec fn has_single_error(&self, code: Seq<char>, detail: Option<Seq<char>>) -> bool {
        &&& self.spec_errors().len() == 1
        &&& self.spec_errors()[0].error@ == code
        &&& match (self.spec_errors()[0].detail, detail) {
            (Some(d), Some(e)) => d@ == e,
            (None, None) => true,
            _ => false,
        }
    }

    /// Returns the HTTP status code of the answer.
    pub fn status(&self) -> (code: u16)
        ensures
            code == self.spec_status(),
    {
        self.status
    }

    /// Returns the body of the answer.
    pub fn into_body(self) -> (body: ApiFailure)
        ensures
            body.errors@ == self.spec_errors(),
    {
        self.body
    }

    /// A failed answer with one error of the given code and detail.
    fn single_error(status: u16, code: &str, detail: Option<String>) -> (r: ApiFailureResponse)
        ensures
            r.spec_status() == status,
            r.spec_errors().len() == 1,
            r.spec_errors()[0].error@ == code@,
            r.spec_errors()[0].detail == detail,
    {
        let mut errors: Vec<ApiError> = Vec::new();
        errors.push(ApiError { error: code.to_owned(), detail });
        ApiFailureResponse { body: ApiFailure { errors }, status }
    }

    /// The answer to an unexpected error: a 500 status code and one `INTERNAL_SERVER_ERROR`
    /// error whose detail is the error's message.
    ///
    /// Expected errors are answered through the methods of `ApiResponseExt` instead.
    pub fn internal_error(message: String) -> (r: ApiFailureResponse)
        ensures
            r.spec_status() == STATUS_INTERNAL_SERVER_ERROR,
            r.has_single_error("INTERNAL_SERVER_ERROR"@, Some(message@)),
    {
        Self::single_error(STATUS_INTERNAL_SERVER_ERROR, "INTERNAL_SERVER_ERROR", Some(message))
    }
}

/// Constructors of the answers of the endpoint handlers.
pub trait ApiResponseExt<T>: Sized {
    /// Return a 200 OK response.
    ///
    /// Result already has an `ok` method which would clash, hence the alternative name.
    fn success(data: T) -> Self;

    /// Return a 201 Created response.
    fn created(data: T) -> Self;

    /// Return a 404 Not Found error.
    fn not_found() -> Self;

    /// Return a 400 Bad Request error.
    fn bad_request() -> Self;
}

impl<T> ApiResponseExt<T> for Result<ApiSuccessResponse<T>, ApiFailureResponse> {
    fn success(data: T) -> (r: Self)
        ensures
            r matches Ok(s) && s.spec_status() == STATUS_OK && s.spec_data() == data,
    {
        Ok(ApiSuccessResponse { body: ApiSuccess { data }, status: STATUS_OK })
    }

    fn created(data: T) -> (r: Self)
        ensures
            r matches Ok(s) && s.spec_status() == STATUS_CREATED && s.spec_data() == data,
    {
        Ok(ApiSuccessResponse { body: ApiSuccess { data }, status: STATUS_CREATED })
    }

    fn not_found() -> (r: Self)
        ensures
            r matches Err(f) && f.spec_status() == STATUS_NOT_FOUND && f.has_single_error(
                "NOT_FOUND"@,
                None,
            ),
    {
        Err(ApiFailureResponse::single_error(STATUS_NOT_FOUND, "NOT_FOUND", None))
    }

    fn bad_request() -> (r: Self)
        ensures
            r matches Err(f) && f.spec_status() == STATUS_BAD_REQUEST && f.has_single_error(
                "BAD_REQUEST"@,
                None,
            ),
    {
        Err(ApiFailureResponse::single_error(STATUS_BAD_REQUEST, "BAD_REQUEST", None))
    }
}

// ---------------------------------------------------------------------------------------------
// Reading answers back
// ---------------------------------------------------------------------------------------------

/// How a client has to read an answer, given its status code and its content type.
#[derive(Clone, Copy, Debug, PartialEq, Eq, Structural)]
pub enum ResponseKind {
    /// A 1xx, 2xx or 3xx answer: the body is a success envelope whose data is returned.
    Success,
    /// A 4xx or 5xx answer in JSON: the body is a failure envelope, reported as an API error.
    ApiFailure,
    /// A 4xx or 5xx answer in another format: reported by its status code alone.
    HttpFailure,
}

/// Whether a status code denotes a client error (400 to 499).
pub open spec fn is_client_error(code: u16) -> bool {
    400 <= code < 500
}

/// Whether a status code denotes a server error (500 to 599).
pub open spec fn is_server_error(code: u16) -> bool {
    500 <= code < 600
}

/// The HTTP error codes are exactly those from 400 to 599: each is a client error or a
/// server error, and no other code is either.
pub proof fn lemma_error_codes(code: u16)
    ensures
        is_client_error(code) || is_server_error(code) <==> 400 <= code <= 599,
        is_client_error(code) <==> 400 <= code <= 499,
        is_server_error(code) <==> 500 <= code <= 599,
{
}

/// Decide how to read an answer. HTTP errors are decoded as failures; their body is only
/// read when it is JSON.
pub fn response_kind(code: u16, content_type_is_json: bool) -> (kind: ResponseKind)
    ensures
        400 <= code <= 599 ==> kind != ResponseKind::Success,
        400 <= code <= 599 && content_type_is_json ==> kind == ResponseKind::ApiFailure,
        400 <= code <= 599 && !content_type_is_json ==> kind == ResponseKind::HttpFailure,
        (code < 400 || code > 599) ==> kind == ResponseKind::Success,
        kind == if is_client_error(code) || is_server_error(code) {
            if content_type_is_json {
                ResponseKind::ApiFailure
            } else {
                ResponseKind::HttpFailure
            }
        } else {
            ResponseKind::Success
        },
{
    if (400 <= code && code < 500) || (500 <= code && code < 600) {
        if content_type_is_json {
            ResponseKind::ApiFailure
        } else {
            ResponseKind::HttpFailure
        }
    } else {
        ResponseKind::Success
    }
}

/// The detail of the first error of a failure envelope, if it has one.
pub open spec fn spec_first_detail(body: &ApiFailure) -> Option<Seq<char>> {
    if body.errors@.len() > 0 {
        match body.errors@[0].detail {
            Some(d) => Some(d@),
            None => None,
        }
    } else {
        None
    }
}

/// The message with which a client reports a failure envelope: `API error {status} for url
/// {url}`, followed by `: {detail}` when the first error has a detail.
pub open spec fn spec_api_error_message(status: Seq<char>, url: Seq<char>, body: &ApiFailure) -> Seq<char> {
    let head = "API error "@ + status + " for url "@ + url;
    match spec_first_detail(body) {
        Some(d) => head + ": "@ + d,
        None => head,
    }
}

/// Returns the message with which a client reports a failure envelope; `status` is the text
/// of the status code and `url` the address that was asked.
pub fn api_error_message(status: &str, url: &str, body: &ApiFailure) -> (message: String)
    ensures
        message@ == spec_api_error_message(status@, url@, body),
{
    let text = "API error ".to_owned();
    let text = text.concat(status);
    let text = text.concat(" for url ");
    let text = text.concat(url);
    if body.errors.len() > 0 {
        match &body.errors[0].detail {
            Some(d) => {
                let text = text.concat(": ");
                text.concat(d.as_str())
            },
            None => text,
        }
    } else {
        text
    }
}

/// Returns the message with which a client reports an HTTP error whose body is not JSON:
/// `HTTP status error {status} for url {url}`.
pub fn http_status_error_message(status: &str, url: &str) -> (message: String)
    ensures
        message@ == "HTTP status error "@ + status@ + " for url "@ + url@,
{
    let text = "HTTP status error ".to_owned();
    let text = text.concat(status);
    let text = text.concat(" for url ");
    text.concat(url)
}

} // verus!
