use jankenoboe::error::AppError;

#[test]
fn test_display_invalid_parameter() {
    let err = AppError::InvalidParameter("bad input".to_string());
    assert_eq!(err.message(), "bad input");
}

#[test]
fn test_display_not_found() {
    let err = AppError::NotFound("missing".to_string());
    assert_eq!(err.message(), "missing");
}

#[test]
fn test_display_database() {
    let err = AppError::Database("db error".to_string());
    assert_eq!(err.message(), "db error");
}

#[test]
fn test_display_internal() {
    let err = AppError::Internal("internal error".to_string());
    assert_eq!(err.message(), "internal error");
}

#[test]
fn test_from_rusqlite_error() {
    let rusqlite_err = rusqlite::Error::QueryReturnedNoRows;
    let app_err: AppError = rusqlite_err.into();
    assert_eq!(app_err.message(), "Query returned no rows");
}

#[test]
fn test_from_serde_json_error() {
    let json_err = serde_json::from_str::<serde_json::Value>("not json").unwrap_err();
    let app_err: AppError = json_err.into();
    assert!(app_err.message().starts_with("Invalid JSON:"));
}

#[test]
fn test_from_anyhow_error() {
    let anyhow_err = anyhow::Error::msg("something broke");
    let app_err: AppError = anyhow_err.into();
    assert_eq!(app_err.message(), "something broke");
}

#[test]
fn test_from_rusqlite_error_is_database() {
    let app_err: AppError = rusqlite::Error::QueryReturnedNoRows.into();
    assert!(matches!(app_err, AppError::Database(_)));
}

#[test]
fn test_from_serde_json_error_is_invalid_parameter() {
    let json_err = serde_json::from_str::<serde_json::Value>("{").unwrap_err();
    let app_err: AppError = json_err.into();
    assert!(matches!(app_err, AppError::InvalidParameter(_)));
}
