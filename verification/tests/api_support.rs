use db_access::api::{
    settlement_lookup_error, settlement_not_found_msg, AppError, DbFailure, Pagination,
};

#[test]
fn pagination_defaults() {
    let p = Pagination { limit: None, offset: None };
    assert_eq!(p.effective_limit(), 20);
    assert_eq!(p.effective_offset(), 0);
}

#[test]
fn pagination_explicit_values() {
    let p = Pagination { limit: Some(7), offset: Some(40) };
    assert_eq!(p.effective_limit(), 7);
    assert_eq!(p.effective_offset(), 40);
}

#[test]
fn missing_row_maps_to_not_found() {
    let id = "42".to_string();
    let e = settlement_lookup_error(&id, DbFailure::RowNotFound);
    match e {
        AppError::NotFound(m) => assert_eq!(m, "Settlement 42 not found"),
        AppError::DatabaseError(_) => panic!("expected a not-found error"),
    }
}

#[test]
fn other_failure_maps_to_database_error() {
    let id = "42".to_string();
    let e = settlement_lookup_error(&id, DbFailure::Other("connection reset".to_string()));
    match e {
        AppError::DatabaseError(m) => assert_eq!(m, "connection reset"),
        AppError::NotFound(_) => panic!("expected a database error"),
    }
}

#[test]
fn not_found_message_rendering() {
    let m = settlement_not_found_msg(&"ab-cd".to_string());
    assert_eq!(m, "Settlement ab-cd not found");
}
