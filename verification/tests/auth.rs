use bookmark_hub::auth::{
    bearer_token, signup_error, token_expiration, user_not_found, validate_signin, validate_signup,
    SignInRequest, SignUpRequest,
};
use bookmark_hub::error::Error;

fn signup(username: &str, password: &str, confirmation: &str) -> SignUpRequest {
    SignUpRequest {
        username: username.into(),
        password: password.into(),
        password_confirmation: confirmation.into(),
    }
}

#[test]
fn valid_signup_passes() {
    assert!(validate_signup(&signup("alice", "secret", "secret")).is_ok());
}

#[test]
fn signup_reports_every_problem_by_field() {
    match validate_signup(&signup(" ", "", "x")) {
        Err(Error::UnprocessableEntity { errors }) => assert_eq!(
            errors,
            vec![
                ("username".to_string(), vec!["username must not be empty".to_string()]),
                (
                    "password".to_string(),
                    vec![
                        "password must not be empty".to_string(),
                        "password confirmation should match".to_string()
                    ]
                ),
            ]
        ),
        other => panic!("unexpected {other:?}"),
    }
}

#[test]
fn signin_needs_username_and_password() {
    assert!(validate_signin(&SignInRequest { username: "a".into(), password: "b".into() }).is_ok());
    match validate_signin(&SignInRequest { username: "a".into(), password: "  ".into() }) {
        Err(Error::UnprocessableEntity { errors }) => assert_eq!(
            errors,
            vec![("password".to_string(), vec!["password must not be empty".to_string()])]
        ),
        other => panic!("unexpected {other:?}"),
    }
}

#[test]
fn taken_username_is_a_bad_request() {
    let e = signup_error(Error::constraint_violation("unique_username", "duplicate"));
    match e {
        Error::BadRequest { errors } => assert_eq!(
            errors,
            vec![("username".to_string(), vec!["username already created".to_string()])]
        ),
        other => panic!("unexpected {other:?}"),
    }
    assert!(matches!(
        signup_error(Error::constraint_violation("other", "x")),
        Error::ConstraintViolation { .. }
    ));
    assert!(matches!(signup_error(Error::NotFound), Error::NotFound));
}

#[test]
fn missing_user_and_token_lifetime() {
    assert!(matches!(user_not_found(), Error::BadRequest { .. }));
    assert_eq!(token_expiration(1_000), 1_000 + 14 * 24 * 3600);
}

#[test]
fn bearer_token_follows_the_scheme() {
    assert_eq!(bearer_token("Bearer abc.def").as_deref(), Some("abc.def"));
    assert_eq!(bearer_token("Bearer ").as_deref(), Some(""));
    assert_eq!(bearer_token("bearer abc"), None);
    assert_eq!(bearer_token("Basic xyz"), None);
    assert_eq!(bearer_token("Bear"), None);
}
