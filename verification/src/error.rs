//! The application's error categories, their constructors, the text each
//! one shows to a user, and the conversions from lower-level failures.
use vstd::prelude::*;

use crate::text::{dec, push_dec, push_str, IntParseError};

verus! {

/// Error categories for the application.
#[derive(Debug, Clone, PartialEq, Eq)]
pub enum AppError {
    /// File system related errors (file not found, permission denied, etc.)
    FileSystem { message: String, path: Option<String> },
    /// Network/HTTP errors (API calls, downloads, etc.)
    Network { message: String, url: Option<String>, status_code: Option<u16> },
    /// Media processing errors (FFmpeg, Whisper, audio decoding, etc.)
    MediaProcessing { message: String, context: Option<String> },
    /// AI/ML model errors (Whisper, Gemini, model loading, etc.)
    Model { message: String, model_name: Option<String> },
    /// Configuration/settings errors
    Configuration { message: String, key: Option<String> },
    /// User cancellation
    Cancelled { message: String, phase: Option<String> },
    /// Validation errors (invalid input, bad format, etc.)
    Validation { message: String, field: Option<String> },
    /// Unexpected/unknown errors
    Unknown { message: String },
}

/// The mathematical content of an [`AppError`].
pub enum ErrorView {
    FileSystem { message: Seq<char>, path: Option<Seq<char>> },
    Network { message: Seq<char>, url: Option<Seq<char>>, status_code: Option<u16> },
    MediaProcessing { message: Seq<char>, context: Option<Seq<char>> },
    Model { message: Seq<char>, model_name: Option<Seq<char>> },
    Configuration { message: Seq<char>, key: Option<Seq<char>> },
    Cancelled { message: Seq<char>, phase: Option<Seq<char>> },
    Validation { message: Seq<char>, field: Option<Seq<char>> },
    Unknown { message: Seq<char> },
}

/// The characters of an optional string.
pub open spec fn opt_view(o: Option<String>) -> Option<Seq<char>> {
    match o {
        Some(s) => Some(s@),
        None => None,
    }
}

impl View for AppError {
    type V = ErrorView;

    open spec fn view(&self) -> ErrorView {
        match self {
            AppError::FileSystem { message, path } => ErrorView::FileSystem {
                message: message@,
                path: opt_view(*path),
            },
            AppError::Network { message, url, status_code } => ErrorView::Network {
                message: message@,
                url: opt_view(*url),
                status_code: *status_code,
            },
            AppError::MediaProcessing { message, context } => ErrorView::MediaProcessing {
                message: message@,
                context: opt_view(*context),
            },
            AppError::Model { message, model_name } => ErrorView::Model {
                message: message@,
                model_name: opt_view(*model_name),
            },
            AppError::Configuration { message, key } => ErrorView::Configuration {
                message: message@,
                key: opt_view(*key),
            },
            AppError::Cancelled { message, phase } => ErrorView::Cancelled {
                message: message@,
                phase: opt_view(*phase),
            },
            AppError::Validation { message, field } => ErrorView::Validation {
                message: message@,
                field: opt_view(*field),
            },
            AppError::Unknown { message } => ErrorView::Unknown { message: message@ },
        }
    }
}

/// `"<label>: <message>"`, or `"<label> (<detail>): <message>"` when a
/// detail is present.
pub open spec fn labelled(label: Seq<char>, detail: Option<Seq<char>>, message: Seq<char>) -> Seq<
    char,
> {
    match detail {
        Some(d) => label + " ("@ + d + "): "@ + message,
        None => label + ": "@ + message,
    }
}

/// The text a user sees for an error (what `Display` prints).
pub open spec fn display_view(e: ErrorView) -> Seq<char> {
    match e {
        ErrorView::FileSystem { message, path } => labelled("File system error"@, path, message),
        ErrorView::Network { message, url, status_code } => {
            let with_code = match status_code {
                Some(code) => "Network error: "@ + message + " (HTTP "@ + dec(code as nat)
                    + ")"@,
                None => "Network error: "@ + message,
            };
            match url {
                Some(u) => with_code + " ["@ + u + "]"@,
                None => with_code,
            }
        },
        ErrorView::MediaProcessing { message, context } => labelled(
            "Media processing error"@,
            context,
            message,
        ),
        ErrorView::Model { message, model_name } => labelled("Model error"@, model_name, message),
        ErrorView::Configuration { message, key } => labelled(
            "Configuration error"@,
            key,
            message,
        ),
        ErrorView::Cancelled { message, phase } => labelled("Cancelled"@, phase, message),
        ErrorView::Validation { message, field } => labelled("Validation error"@, field, message),
        ErrorView::Unknown { message } => "Unknown error: "@ + message,
    }
}

fn push_labelled(s: &mut String, label: &str, detail: &Option<String>, message: &String)
    ensures
        final(s)@ == old(s)@ + labelled(label@, opt_view(*detail), message@),
{
    push_str(s, label);
    match detail {
        Some(d) => {
            push_str(s, " (");
            push_str(s, d.as_str());
            push_str(s, "): ");
        },
        None => {
            push_str(s, ": ");
        },
    }
    push_str(s, message.as_str());
    proof {
        match detail {
            Some(d) => {
                assert(final(s)@ =~= old(s)@ + labelled(label@, opt_view(*detail), message@));
            },
            None => {
                assert(final(s)@ =~= old(s)@ + labelled(label@, opt_view(*detail), message@));
            },
        }
    }
}

impl AppError {
    /// The text a user sees for this error (what `Display` prints).
    pub fn display_text(&self) -> (r: String)
        ensures
            r@ == display_view(self@),
    {
        let mut s = String::new();
        match self {
            AppError::FileSystem { message, path } => {
                push_labelled(&mut s, "File system error", path, message);
            },
            AppError::Network { message, url, status_code } => {
                push_str(&mut s, "Network error: ");
                push_str(&mut s, message.as_str());
                if let Some(code) = status_code {
                    push_str(&mut s, " (HTTP ");
                    push_dec(&mut s, *code as u64);
                    push_str(&mut s, ")");
                }
                if let Some(u) = url {
                    push_str(&mut s, " [");
                    push_str(&mut s, u.as_str());
                    push_str(&mut s, "]");
                }
                proof {
                    let with_code = match status_code {
                        Some(code) => "Network error: "@ + message@ + " (HTTP "@ + dec(
                            code as nat,
                        ) + ")"@,
                        None => "Network error: "@ + message@,
                    };
                    match url {
                        Some(u) => {
                            assert(s@ =~= with_code + " ["@ + u@ + "]"@);
                        },
                        None => {
                            assert(s@ =~= with_code);
                        },
                    }
                }
            },
            AppError::MediaProcessing { message, context } => {
                push_labelled(&mut s, "Media processing error", context, message);
            },
            AppError::Model { message, model_name } => {
                push_labelled(&mut s, "Model error", model_name, message);
            },
            AppError::Configuration { message, key } => {
                push_labelled(&mut s, "Configuration error", key, message);
            },
            AppError::Cancelled { message, phase } => {
                push_labelled(&mut s, "Cancelled", phase, message);
            },
            AppError::Validation { message, field } => {
                push_labelled(&mut s, "Validation error", field, message);
            },
            AppError::Unknown { message } => {
                push_str(&mut s, "Unknown error: ");
                push_str(&mut s, message.as_str());
            },
        }
        assert(s@ =~= display_view(self@));
        s
    }

    pub fn file_system(message: String, path: Option<String>) -> (r: Self)
        ensures
            r@ == (ErrorView::FileSystem { message: message@, path: opt_view(path) }),
    {
        AppError::FileSystem { message, path }
    }

    pub fn network(message: String, url: Option<String>, status_code: Option<u16>) -> (r: Self)
        ensures
            r@ == (ErrorView::Network {
                message: message@,
                url: opt_view(url),
                status_code: status_code,
            }),
    {
        AppError::Network { message, url, status_code }
    }

    pub fn media_processing(message: String, context: Option<String>) -> (r: Self)
        ensures
            r@ == (ErrorView::MediaProcessing { message: message@, context: opt_view(context) }),
    {
        AppError::MediaProcessing { message, context }
    }

    pub fn model(message: String, model_name: Option<String>) -> (r: Self)
        ensures
            r@ == (ErrorView::Model { message: message@, model_name: opt_view(model_name) }),
    {
        AppError::Model { message, model_name }
    }

    pub fn configuration(message: String, key: Option<String>) -> (r: Self)
        ensures
            r@ == (ErrorView::Configuration { message: message@, key: opt_view(key) }),
    {
        AppError::Configuration { message, key }
    }

    pub fn cancelled(message: String, phase: Option<String>) -> (r: Self)
        ensures
            r@ == (ErrorView::Cancelled { message: message@, phase: opt_view(phase) }),
    {
        AppError::Cancelled { message, phase }
    }

    pub fn validation(message: String, field: Option<String>) -> (r: Self)
        ensures
            r@ == (ErrorView::Validation { message: message@, field: opt_view(field) }),
    {
        AppError::Validation { message, field }
    }

    pub fn unknown(message: String) -> (r: Self)
        ensures
            r@ == (ErrorView::Unknown { message: message@ }),
    {
        AppError::Unknown { message }
    }
}

impl From<String> for AppError {
    fn from(message: String) -> (r: Self) {
        AppError::Unknown { message }
    }
}

impl vstd::std_specs::convert::FromSpecImpl<String> for AppError {
    open spec fn obeys_from_spec() -> bool {
        true
    }

    open spec fn from_spec(message: String) -> AppError {
        AppError::Unknown { message }
    }
}


/// The kinds of I/O failure that get a message of their own.
#[derive(Debug, Clone, Copy, PartialEq, Eq)]
pub enum IoErrorCategory {
    NotFound,
    PermissionDenied,
    Other,
}

/// The kinds of HTTP failure that get a message of their own.
#[derive(Debug, Clone, Copy, PartialEq, Eq)]
pub enum HttpFailureKind {
    Timeout,
    Connect,
    Other,
}

/// What `ParseIntError` prints for each kind of failure.
pub open spec fn int_error_text(kind: IntParseError) -> Seq<char> {
    match kind {
        IntParseError::Empty => "cannot parse integer from empty string"@,
        IntParseError::InvalidDigit => "invalid digit found in string"@,
        IntParseError::PosOverflow => "number too large to fit in target type"@,
    }
}

/// The error for a failed I/O operation of a category, described by `text`.
pub open spec fn io_failure_view(category: IoErrorCategory, text: Seq<char>) -> ErrorView {
    ErrorView::FileSystem {
        message: match category {
            IoErrorCategory::NotFound => "File or directory not found"@,
            IoErrorCategory::PermissionDenied => "Permission denied"@,
            IoErrorCategory::Other => "I/O error: "@ + text,
        },
        path: None,
    }
}

/// The error for a failed HTTP request of a kind, described by `text`.
pub open spec fn http_failure_view(
    kind: HttpFailureKind,
    text: Seq<char>,
    url: Option<Seq<char>>,
    status_code: Option<u16>,
) -> ErrorView {
    ErrorView::Network {
        message: match kind {
            HttpFailureKind::Timeout => "Request timeout"@,
            HttpFailureKind::Connect => "Connection failed"@,
            HttpFailureKind::Other => "HTTP request failed: "@ + text,
        },
        url,
        status_code,
    }
}

/// `prefix` followed by `text`, as a new string.
fn prefixed(prefix: &str, text: &str) -> (r: String)
    ensures
        r@ == prefix@ + text@,
{
    let mut s = String::new();
    push_str(&mut s, prefix);
    push_str(&mut s, text);
    s
}

impl AppError {
    /// The error for a failed I/O operation of the given category, whose
    /// own description is `text`.
    pub fn from_io_failure(category: IoErrorCategory, text: String) -> (r: Self)
        ensures
            r@ == io_failure_view(category, text@),
    {
        match category {
            IoErrorCategory::NotFound => AppError::file_system(
                "File or directory not found".to_owned(),
                None,
            ),
            IoErrorCategory::PermissionDenied => AppError::file_system(
                "Permission denied".to_owned(),
                None,
            ),
            IoErrorCategory::Other => AppError::file_system(
                prefixed("I/O error: ", text.as_str()),
                None,
            ),
        }
    }

    /// The error for a failed I/O operation: by its kind, with the error's
    /// own description for the kinds without a message of their own.
    pub fn from_io_error(err: &std::io::Error) -> (r: Self)
        ensures
            exists|c: IoErrorCategory, t: Seq<char>| r@ == io_failure_view(c, t),
    {
        let category = io_error_category(err);
        let text = io_error_text(err);
        AppError::from_io_failure(category, text)
    }

    /// The error for a failed HTTP request of the given kind; `text` is the
    /// failure's own description.
    pub fn from_http_failure(
        kind: HttpFailureKind,
        text: String,
        url: Option<String>,
        status_code: Option<u16>,
    ) -> (r: Self)
        ensures
            r@ == http_failure_view(kind, text@, opt_view(url), status_code),
    {
        let message = match kind {
            HttpFailureKind::Timeout => "Request timeout".to_owned(),
            HttpFailureKind::Connect => "Connection failed".to_owned(),
            HttpFailureKind::Other => prefixed("HTTP request failed: ", text.as_str()),
        };
        AppError::network(message, url, status_code)
    }

    /// The error for a failed HTTP request.
    pub fn from_reqwest_error(err: &reqwest::Error) -> (r: Self)
        ensures
            exists|k: HttpFailureKind, t: Seq<char>, u: Option<Seq<char>>, c: Option<u16>|
                r@ == http_failure_view(k, t, u, c),
    {
        let kind = if reqwest_error_is_timeout(err) {
            HttpFailureKind::Timeout
        } else if reqwest_error_is_connect(err) {
            HttpFailureKind::Connect
        } else {
            HttpFailureKind::Other
        };
        let text = reqwest_error_text(err);
        let url = reqwest_error_url(err);
        let status = reqwest_error_status(err);
        AppError::from_http_failure(kind, text, url, status)
    }

    /// The error for malformed JSON, whose own description is `text`.
    pub fn from_json_failure(text: String) -> (r: Self)
        ensures
            r@ == (ErrorView::Configuration { message: "JSON parsing error: "@ + text@, key: None }),
    {
        AppError::configuration(prefixed("JSON parsing error: ", text.as_str()), None)
    }

    /// The error for malformed JSON.
    pub fn from_json_error(err: &serde_json::Error) -> (r: Self)
        ensures
            exists|t: Seq<char>|
                r@ == (ErrorView::Configuration { message: "JSON parsing error: "@ + t, key: None }),
    {
        AppError::from_json_failure(json_error_text(err))
    }

    /// The error for a program that could not be located, described by `text`.
    pub fn from_binary_lookup_failure(text: String) -> (r: Self)
        ensures
            r@ == (ErrorView::Configuration { message: "Binary not found: "@ + text@, key: None }),
    {
        AppError::configuration(prefixed("Binary not found: ", text.as_str()), None)
    }

    /// The error for a program that could not be located on the search path.
    pub fn from_which_error(err: &which::Error) -> (r: Self)
        ensures
            exists|t: Seq<char>|
                r@ == (ErrorView::Configuration { message: "Binary not found: "@ + t, key: None }),
    {
        AppError::from_binary_lookup_failure(which_error_text(err))
    }

    /// The error for a broken archive, described by `text`.
    pub fn from_zip_failure(text: String) -> (r: Self)
        ensures
            r@ == (ErrorView::FileSystem { message: "ZIP error: "@ + text@, path: None }),
    {
        AppError::file_system(prefixed("ZIP error: ", text.as_str()), None)
    }

    /// The error for a broken archive.
    pub fn from_zip_error(err: &zip::result::ZipError) -> (r: Self)
        ensures
            exists|t: Seq<char>| r@ == (ErrorView::FileSystem { message: "ZIP error: "@ + t, path: None }),
    {
        AppError::from_zip_failure(zip_error_text(err))
    }

    /// The error for a number that did not parse.
    pub fn from_int_parse_failure(kind: IntParseError) -> (r: Self)
        ensures
            r@ == (ErrorView::Validation {
                message: "Invalid number: "@ + int_error_text(kind),
                field: None,
            }),
    {
        let text = match kind {
            IntParseError::Empty => "cannot parse integer from empty string",
            IntParseError::InvalidDigit => "invalid digit found in string",
            IntParseError::PosOverflow => "number too large to fit in target type",
        };
        AppError::validation(prefixed("Invalid number: ", text), None)
    }

    /// The error for a failure of the desktop shell framework, described by `text`.
    pub fn from_framework_failure(text: String) -> (r: Self)
        ensures
            r@ == (ErrorView::Configuration { message: "Tauri error: "@ + text@, key: None }),
    {
        AppError::configuration(prefixed("Tauri error: ", text.as_str()), None)
    }

    /// The error for a failure to run a child process, described by `text`.
    pub fn from_shell_failure(text: String) -> (r: Self)
        ensures
            r@ == (ErrorView::MediaProcessing { message: "Shell error: "@ + text@, context: None }),
    {
        AppError::media_processing(prefixed("Shell error: ", text.as_str()), None)
    }

    /// The error for a lock whose holder panicked.
    pub fn lock_poisoned() -> (r: Self)
        ensures
            r@ == (ErrorView::Unknown { message: "Internal lock poisoned"@ }),
    {
        AppError::unknown("Internal lock poisoned".to_owned())
    }
}

// ---------------------------------------------------------------------------
// Outside error types and what the library reads of them
// ---------------------------------------------------------------------------
#[verifier::external_type_specification]
#[verifier::external_body]
pub struct ExIoError(std::io::Error);

#[verifier::external_type_specification]
#[verifier::external_body]
pub struct ExJsonError(serde_json::Error);

#[verifier::external_type_specification]
#[verifier::external_body]
pub struct ExWhichError(which::Error);

#[verifier::external_type_specification]
#[verifier::external_body]
pub struct ExZipError(zip::result::ZipError);

#[verifier::external_type_specification]
#[verifier::external_body]
pub struct ExReqwestError(reqwest::Error);

/// `std::io::Error::kind`, with the kinds the library tells apart.
/// Nothing is stated of which category comes back.
#[verifier::external_body]
fn io_error_category(err: &std::io::Error) -> IoErrorCategory {
    match err.kind() {
        std::io::ErrorKind::NotFound => IoErrorCategory::NotFound,
        std::io::ErrorKind::PermissionDenied => IoErrorCategory::PermissionDenied,
        _ => IoErrorCategory::Other,
    }
}

/// What `std::io::Error` prints (its `Display`); it depends on the operating
/// system's message for the error, so nothing is stated of it.
#[verifier::external_body]
fn io_error_text(err: &std::io::Error) -> String {
    err.to_string()
}

/// What `serde_json::Error` prints (its `Display`); nothing is stated of it.
#[verifier::external_body]
fn json_error_text(err: &serde_json::Error) -> String {
    err.to_string()
}

/// What `which::Error` prints (its `Display`); nothing is stated of it.
#[verifier::external_body]
fn which_error_text(err: &which::Error) -> String {
    err.to_string()
}

/// What `zip::result::ZipError` prints (its `Display`); nothing is stated of it.
#[verifier::external_body]
fn zip_error_text(err: &zip::result::ZipError) -> String {
    err.to_string()
}

/// What `reqwest::Error` prints (its `Display`); nothing is stated of it.
#[verifier::external_body]
fn reqwest_error_text(err: &reqwest::Error) -> String {
    err.to_string()
}

/// `reqwest::Error::is_timeout`; nothing is stated of its answer.
#[verifier::external_body]
fn reqwest_error_is_timeout(err: &reqwest::Error) -> bool {
    err.is_timeout()
}

/// `reqwest::Error::is_connect`; nothing is stated of its answer.
#[verifier::external_body]
fn reqwest_error_is_connect(err: &reqwest::Error) -> bool {
    err.is_connect()
}

/// `reqwest::Error::url`, rendered as text; nothing is stated of it.
#[verifier::external_body]
fn reqwest_error_url(err: &reqwest::Error) -> Option<String> {
    err.url().map(|u| u.to_string())
}

/// `reqwest::Error::status`, as its numeric code; nothing is stated of it.
#[verifier::external_body]
fn reqwest_error_status(err: &reqwest::Error) -> Option<u16> {
    err.status().map(|s| s.as_u16())
}

} // verus!
