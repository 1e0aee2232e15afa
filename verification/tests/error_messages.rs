use ledger_store::OrmError;

#[test]
fn test_error_message() {
    // Act
    let err = OrmError::Constraint("one or more constraints on record creation was violated".into());
    // Assert
    assert_eq!(
        err.to_string(),
        "Orm Error: constraint violation: one or more constraints on record creation was violated",
        "error string has correct format",
    );

    // Act
    let err = OrmError::DuplicateRecord("uniqueness constraint violated when creating/updating a record".into());
    // Assert
    assert_eq!(
        err.to_string(),
        "Orm Error: duplicate record: uniqueness constraint violated when creating/updating a record",
        "error string has correct format",
    );

    // Act
    let err = OrmError::Internal("non-storage failure".into());
    // Assert
    assert_eq!(
        err.to_string(),
        "Orm Error: internal error: non-storage failure",
        "error string has correct format",
    );

    // Act
    let err = OrmError::RecordNotFound("record affer8979".into());
    // Assert
    assert_eq!(
        err.to_string(),
        "Orm Error: record not found: record affer8979",
        "error string has correct format",
    );

    // Act
    let err = OrmError::Validation("attempt to validate create/update failed".into());
    // Assert
    assert_eq!(
        err.to_string(),
        "Orm Error: validation error: attempt to validate create/update failed",
        "error string has correct format",
    );
}

#[test]
fn error_message_with_empty_detail() {
    let err = OrmError::Internal(String::new());
    assert_eq!(err.to_string(), "Orm Error: internal error: ");
}
