use lastrun::error::{AppError, AppResult};
use std::io;

#[test]
fn test_error_conversion() {
    // Test IO error conversion
    let io_error = io::Error::new(io::ErrorKind::NotFound, "File not found");
    let app_error: AppError = io_error.into();
    match app_error {
        AppError::Io(_) => (),
        _ => panic!("Expected IO error variant"),
    }

    // Test duration parsing error
    let duration_error = AppError::DurationParse("Invalid duration format".to_string());
    let error_msg = duration_error.message();
    assert!(error_msg.contains("Duration parsing error"));

    // Test missing task ID error
    let missing_id_error = AppError::MissingTaskId;
    let error_msg = missing_id_error.message();
    assert_eq!(error_msg, "Task ID is required");

    // Test home directory not found error
    let home_dir_error = AppError::HomeDirectoryNotFound;
    let error_msg = home_dir_error.message();
    assert_eq!(error_msg, "Home directory not found");
}

#[test]
fn test_app_result() {
    // Test successful result
    let success: AppResult<i32> = Ok(42);
    assert_eq!(success.unwrap(), 42);

    // Test error result
    let error: AppResult<()> = Err(AppError::MissingTaskId);
    assert!(error.is_err());

    // Test error chaining with map_err
    let io_error = io::Error::new(io::ErrorKind::PermissionDenied, "Permission denied");
    let result: Result<(), io::Error> = Err(io_error);
    let app_result: AppResult<()> = result.map_err(AppError::from);

    match app_result {
        Err(AppError::Io(e)) => assert_eq!(e.kind(), io::ErrorKind::PermissionDenied),
        _ => panic!("Expected IO error variant"),
    }
}

#[test]
fn error_messages_of_each_variant() {
    assert_eq!(
        AppError::DurationParse("bad".to_string()).message(),
        "Duration parsing error: bad"
    );
    assert_eq!(AppError::DataDirectoryNotFound.message(), "Data directory not found");
    let io_msg = AppError::from(io::Error::new(io::ErrorKind::Other, "disk on fire")).message();
    assert_eq!(io_msg, "IO error: disk on fire");
    let parse_err = chrono::DateTime::parse_from_rfc3339("nope").unwrap_err();
    let date_msg = AppError::DateParse(parse_err).message();
    assert!(date_msg.starts_with("Date parsing error: "));
    assert!(date_msg.len() > "Date parsing error: ".len());
    let db_msg = AppError::Database(rusqlite::Error::InvalidQuery).message();
    assert!(db_msg.starts_with("Database error: "));
}

#[test]
fn conversions_from_outside_errors() {
    assert!(matches!(AppError::from(rusqlite::Error::InvalidQuery), AppError::Database(_)));
    let parse_err = chrono::DateTime::parse_from_rfc3339("2023-13-01T00:00:00Z").unwrap_err();
    assert!(matches!(AppError::from(parse_err), AppError::DateParse(_)));
}
