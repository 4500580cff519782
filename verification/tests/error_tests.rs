use easyvietsub::error::{AppError, HttpFailureKind, IoErrorCategory};
use easyvietsub::text::IntParseError;

fn s(x: &str) -> String {
    x.to_string()
}

#[test]
fn constructors_build_each_category() {
    assert_eq!(
        AppError::file_system(s("m"), Some(s("/p"))),
        AppError::FileSystem { message: s("m"), path: Some(s("/p")) }
    );
    assert_eq!(
        AppError::network(s("m"), Some(s("u")), Some(404)),
        AppError::Network { message: s("m"), url: Some(s("u")), status_code: Some(404) }
    );
    assert_eq!(
        AppError::media_processing(s("m"), None),
        AppError::MediaProcessing { message: s("m"), context: None }
    );
    assert_eq!(
        AppError::model(s("m"), Some(s("small"))),
        AppError::Model { message: s("m"), model_name: Some(s("small")) }
    );
    assert_eq!(
        AppError::configuration(s("m"), Some(s("k"))),
        AppError::Configuration { message: s("m"), key: Some(s("k")) }
    );
    assert_eq!(
        AppError::cancelled(s("m"), Some(s("render"))),
        AppError::Cancelled { message: s("m"), phase: Some(s("render")) }
    );
    assert_eq!(
        AppError::validation(s("m"), Some(s("f"))),
        AppError::Validation { message: s("m"), field: Some(s("f")) }
    );
    assert_eq!(AppError::unknown(s("m")), AppError::Unknown { message: s("m") });
}

#[test]
fn display_text_with_and_without_detail() {
    assert_eq!(AppError::file_system(s("gone"), None).display_text(), "File system error: gone");
    assert_eq!(
        AppError::file_system(s("gone"), Some(s("/a"))).display_text(),
        "File system error (/a): gone"
    );
    assert_eq!(
        AppError::media_processing(s("bad"), Some(s("ffmpeg"))).display_text(),
        "Media processing error (ffmpeg): bad"
    );
    assert_eq!(AppError::media_processing(s("bad"), None).display_text(), "Media processing error: bad");
    assert_eq!(AppError::model(s("x"), Some(s("large"))).display_text(), "Model error (large): x");
    assert_eq!(AppError::model(s("x"), None).display_text(), "Model error: x");
    assert_eq!(
        AppError::configuration(s("x"), Some(s("apiKey"))).display_text(),
        "Configuration error (apiKey): x"
    );
    assert_eq!(AppError::configuration(s("x"), None).display_text(), "Configuration error: x");
    assert_eq!(AppError::cancelled(s("stop"), Some(s("render"))).display_text(), "Cancelled (render): stop");
    assert_eq!(AppError::cancelled(s("stop"), None).display_text(), "Cancelled: stop");
    assert_eq!(
        AppError::validation(s("bad"), Some(s("field"))).display_text(),
        "Validation error (field): bad"
    );
    assert_eq!(AppError::validation(s("bad"), None).display_text(), "Validation error: bad");
    assert_eq!(AppError::unknown(s("?")).display_text(), "Unknown error: ?");
}

#[test]
fn network_display_adds_status_and_url() {
    assert_eq!(AppError::network(s("down"), None, None).display_text(), "Network error: down");
    assert_eq!(
        AppError::network(s("down"), None, Some(503)).display_text(),
        "Network error: down (HTTP 503)"
    );
    assert_eq!(
        AppError::network(s("down"), Some(s("https://x")), None).display_text(),
        "Network error: down [https://x]"
    );
    assert_eq!(
        AppError::network(s("down"), Some(s("https://x")), Some(404)).display_text(),
        "Network error: down (HTTP 404) [https://x]"
    );
}

#[test]
fn string_converts_to_unknown() {
    let e: AppError = s("plain").into();
    assert_eq!(e, AppError::Unknown { message: s("plain") });
}

#[test]
fn io_failures_by_category() {
    assert_eq!(
        AppError::from_io_failure(IoErrorCategory::NotFound, s("ignored")),
        AppError::FileSystem { message: s("File or directory not found"), path: None }
    );
    assert_eq!(
        AppError::from_io_failure(IoErrorCategory::PermissionDenied, s("ignored")),
        AppError::FileSystem { message: s("Permission denied"), path: None }
    );
    assert_eq!(
        AppError::from_io_failure(IoErrorCategory::Other, s("disk full")),
        AppError::FileSystem { message: s("I/O error: disk full"), path: None }
    );
}

#[test]
fn io_errors_convert_by_kind() {
    let not_found = std::io::Error::new(std::io::ErrorKind::NotFound, "missing");
    assert_eq!(
        AppError::from_io_error(&not_found),
        AppError::FileSystem { message: s("File or directory not found"), path: None }
    );
    let denied = std::io::Error::new(std::io::ErrorKind::PermissionDenied, "no");
    assert_eq!(
        AppError::from_io_error(&denied),
        AppError::FileSystem { message: s("Permission denied"), path: None }
    );
    let other = std::io::Error::new(std::io::ErrorKind::Other, "boom");
    assert_eq!(
        AppError::from_io_error(&other),
        AppError::FileSystem { message: s("I/O error: boom"), path: None }
    );
}

#[test]
fn http_failures_by_kind() {
    assert_eq!(
        AppError::from_http_failure(HttpFailureKind::Timeout, s("t"), Some(s("u")), None),
        AppError::Network { message: s("Request timeout"), url: Some(s("u")), status_code: None }
    );
    assert_eq!(
        AppError::from_http_failure(HttpFailureKind::Connect, s("t"), None, None),
        AppError::Network { message: s("Connection failed"), url: None, status_code: None }
    );
    assert_eq!(
        AppError::from_http_failure(HttpFailureKind::Other, s("oops"), None, Some(500)),
        AppError::Network { message: s("HTTP request failed: oops"), url: None, status_code: Some(500) }
    );
}

#[test]
fn json_errors_become_configuration_errors() {
    assert_eq!(
        AppError::from_json_failure(s("eof")),
        AppError::Configuration { message: s("JSON parsing error: eof"), key: None }
    );
    let err = serde_json::from_str::<serde_json::Value>("{").unwrap_err();
    let expected = format!("JSON parsing error: {}", err);
    assert_eq!(
        AppError::from_json_error(&err),
        AppError::Configuration { message: expected, key: None }
    );
}

#[test]
fn binary_lookup_errors_become_configuration_errors() {
    assert_eq!(
        AppError::from_which_error(&which::Error::CannotFindBinaryPath),
        AppError::Configuration { message: s("Binary not found: cannot find binary path"), key: None }
    );
}

#[test]
fn zip_errors_become_file_system_errors() {
    assert_eq!(
        AppError::from_zip_error(&zip::result::ZipError::FileNotFound),
        AppError::FileSystem { message: s("ZIP error: specified file not found in archive"), path: None }
    );
}

#[test]
fn int_parse_failures_name_the_reason() {
    assert_eq!(
        AppError::from_int_parse_failure(IntParseError::Empty),
        AppError::Validation { message: s("Invalid number: cannot parse integer from empty string"), field: None }
    );
    assert_eq!(
        AppError::from_int_parse_failure(IntParseError::InvalidDigit),
        AppError::Validation { message: s("Invalid number: invalid digit found in string"), field: None }
    );
    assert_eq!(
        AppError::from_int_parse_failure(IntParseError::PosOverflow),
        AppError::Validation { message: s("Invalid number: number too large to fit in target type"), field: None }
    );
}

#[test]
fn int_parse_messages_match_std() {
    let empty = "".parse::<u64>().unwrap_err();
    assert_eq!(
        AppError::from_int_parse_failure(IntParseError::Empty),
        AppError::Validation { message: format!("Invalid number: {}", empty), field: None }
    );
    let bad = "x".parse::<u64>().unwrap_err();
    assert_eq!(
        AppError::from_int_parse_failure(IntParseError::InvalidDigit),
        AppError::Validation { message: format!("Invalid number: {}", bad), field: None }
    );
    let big = "99999999999999999999".parse::<u64>().unwrap_err();
    assert_eq!(
        AppError::from_int_parse_failure(IntParseError::PosOverflow),
        AppError::Validation { message: format!("Invalid number: {}", big), field: None }
    );
}

#[test]
fn framework_shell_and_lock_errors() {
    assert_eq!(
        AppError::from_framework_failure(s("window")),
        AppError::Configuration { message: s("Tauri error: window"), key: None }
    );
    assert_eq!(
        AppError::from_shell_failure(s("spawn")),
        AppError::MediaProcessing { message: s("Shell error: spawn"), context: None }
    );
    assert_eq!(AppError::lock_poisoned(), AppError::Unknown { message: s("Internal lock poisoned") });
}
