use helioscope::http::validate::{
    max_request_size, validate_request_size, ValidationError, MAX_REQUEST_SIZE,
};

#[test]
fn test_validate_request_size_within_limit() {
    assert!(validate_request_size(0).is_ok());
    assert!(validate_request_size(1024).is_ok());
    assert!(validate_request_size(MAX_REQUEST_SIZE).is_ok());
}

#[test]
fn test_validate_request_size_exceeds_limit() {
    let result = validate_request_size(MAX_REQUEST_SIZE + 1);
    assert!(result.is_err());

    match result.unwrap_err() {
        ValidationError::RequestTooLarge { size, max } => {
            assert_eq!(size, MAX_REQUEST_SIZE + 1);
            assert_eq!(max, MAX_REQUEST_SIZE);
        }
    }
}

#[test]
fn test_validate_request_size_boundary() {
    // Test exact boundary
    assert!(validate_request_size(MAX_REQUEST_SIZE).is_ok());
    assert!(validate_request_size(MAX_REQUEST_SIZE + 1).is_err());
}

#[test]
fn test_max_request_size_getter() {
    assert_eq!(max_request_size(), MAX_REQUEST_SIZE);
    assert_eq!(max_request_size(), 10 * 1024 * 1024);
}

#[test]
fn test_error_display() {
    let error = ValidationError::RequestTooLarge {
        size: 20_000_000,
        max: MAX_REQUEST_SIZE,
    };
    let error_string = error.to_string();
    assert!(error_string.contains("20000000"));
    assert!(error_string.contains("10485760"));
}

#[test]
fn error_text_is_exact() {
    let error = ValidationError::RequestTooLarge { size: 10485761, max: 10485760 };
    assert_eq!(
        error.to_string(),
        "Request too large: 10485761 bytes (max: 10485760)"
    );
}

#[test]
fn size_guard_admits_ten_mebibytes_and_not_a_byte_more() {
    let ten_mib: usize = 10 * 1024 * 1024;
    assert!(validate_request_size(ten_mib).is_ok());
    assert!(validate_request_size(ten_mib - 1).is_ok());
    assert!(validate_request_size(ten_mib + 1).is_err());
    assert!(validate_request_size(usize::MAX).is_err());
}
