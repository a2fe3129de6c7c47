use bookmark_hub::error::{field_error_pairs, group_field_errors, Error, ResponseShape};

#[test]
fn field_errors_are_grouped_by_field_in_first_order() {
    let groups = group_field_errors(field_error_pairs(&[
        ("name", "too short"),
        ("email", "invalid"),
        ("name", "not unique"),
    ]));
    assert_eq!(
        groups,
        vec![
            (
                "name".to_string(),
                vec!["too short".to_string(), "not unique".to_string()]
            ),
            ("email".to_string(), vec!["invalid".to_string()]),
        ]
    );
}

#[test]
fn status_codes_by_variant() {
    assert_eq!(Error::Unauthorized.status_code(), 401);
    assert_eq!(Error::Forbidden.status_code(), 403);
    assert_eq!(Error::NotFound.status_code(), 404);
    assert_eq!(Error::unprocessable_entity(vec![]).status_code(), 422);
    assert_eq!(Error::bad_request(vec![]).status_code(), 400);
    assert_eq!(Error::constraint_violation("c", "m").status_code(), 400);
    assert_eq!(Error::InvalidToken.status_code(), 400);
    assert_eq!(Error::MissingCredentials.status_code(), 400);
    assert_eq!(Error::WrongCredentials.status_code(), 401);
    assert_eq!(Error::argon2("x".into()).status_code(), 500);
    assert_eq!(Error::DatabaseError { message: "x".into() }.status_code(), 500);
}

#[test]
fn messages_and_response_shapes() {
    assert_eq!(Error::Unauthorized.message(), "authentication_required");
    assert_eq!(Error::NotFound.message(), "request_path_not_found");
    assert_eq!(Error::bad_request(vec![]).message(), "invalid_payload");
    assert_eq!(Error::Unauthorized.response_shape(), ResponseShape::Challenge);
    assert_eq!(
        Error::unprocessable_entity(vec![]).response_shape(),
        ResponseShape::FieldErrors
    );
    assert_eq!(Error::Forbidden.response_shape(), ResponseShape::Message);
}
