//! The rules of signing up and signing in: which payloads are refused and
//! how, and how long a token is valid.
use crate::error::{field_errors_view, grouped, pairs_view, Error};
use crate::text::{blank, is_blank};
use vstd::prelude::*;

verus! {

/// Seconds a token stays valid: two weeks.
pub const TOKEN_LIFETIME_SECS: i64 = 1_209_600;

/// A request to create an account.
#[derive(Debug, Clone)]
pub struct SignUpRequest {
    pub username: String,
    pub password: String,
    pub password_confirmation: String,
}

/// A request to sign in.
#[derive(Debug, Clone)]
pub struct SignInRequest {
    pub username: String,
    pub password: String,
}

/// The field errors of a sign-up: a blank username, a blank password, a
/// confirmation that differs from the password, in that order.
pub open spec fn signup_errors(r: SignUpRequest) -> Seq<(Seq<char>, Seq<char>)> {
    let e0 = Seq::<(Seq<char>, Seq<char>)>::empty();
    let e1 = if is_blank(r.username@) {
        e0.push(("username"@, "username must not be empty"@))
    } else {
        e0
    };
    let e2 = if is_blank(r.password@) {
        e1.push(("password"@, "password must not be empty"@))
    } else {
        e1
    };
    if r.password@ != r.password_confirmation@ {
        e2.push(("password"@, "password confirmation should match"@))
    } else {
        e2
    }
}

/// The field errors of a sign-in: a blank username, then a blank password.
pub open spec fn signin_errors(r: SignInRequest) -> Seq<(Seq<char>, Seq<char>)> {
    let e0 = Seq::<(Seq<char>, Seq<char>)>::empty();
    let e1 = if is_blank(r.username@) {
        e0.push(("username"@, "username must not be empty"@))
    } else {
        e0
    };
    if is_blank(r.password@) {
        e1.push(("password"@, "password must not be empty"@))
    } else {
        e1
    }
}

fn push_error(errors: &mut Vec<(String, String)>, field: &str, message: &str)
    ensures
        pairs_view(final(errors)@) == pairs_view(old(errors)@).push((field@, message@)),
{
    let ghost before = pairs_view(errors@);
    errors.push((String::from_str(field), String::from_str(message)));
    assert(pairs_view(errors@) =~= before.push((field@, message@)));
}

/// Checks a sign-up payload: accepted when nothing is wrong, else refused
/// as unprocessable with every problem grouped by field.
pub fn validate_signup(payload: &SignUpRequest) -> (r: Result<(), Error>)
    ensures
        signup_errors(*payload).len() == 0 ==> r is Ok,
        signup_errors(*payload).len() > 0 ==> (r matches Err(Error::UnprocessableEntity { errors })
            && field_errors_view(errors@) == grouped(signup_errors(*payload))),
{
    let mut errors: Vec<(String, String)> = Vec::new();
    if blank(payload.username.as_str()) {
        push_error(&mut errors, "username", "username must not be empty");
    }
    if blank(payload.password.as_str()) {
        push_error(&mut errors, "password", "password must not be empty");
    }
    if payload.password != payload.password_confirmation {
        push_error(&mut errors, "password", "password confirmation should match");
    }
    assert(pairs_view(errors@) =~= signup_errors(*payload));
    if errors.len() == 0 {
        Ok(())
    } else {
        Err(Error::unprocessable_entity(errors))
    }
}

/// Checks a sign-in payload: accepted when nothing is wrong, else refused
/// as unprocessable with every problem grouped by field.
pub fn validate_signin(payload: &SignInRequest) -> (r: Result<(), Error>)
    ensures
        signin_errors(*payload).len() == 0 ==> r is Ok,
        signin_errors(*payload).len() > 0 ==> (r matches Err(Error::UnprocessableEntity { errors })
            && field_errors_view(errors@) == grouped(signin_errors(*payload))),
{
    let mut errors: Vec<(String, String)> = Vec::new();
    if blank(payload.username.as_str()) {
        push_error(&mut errors, "username", "username must not be empty");
    }
    if blank(payload.password.as_str()) {
        push_error(&mut errors, "password", "password must not be empty");
    }
    assert(pairs_view(errors@) =~= signin_errors(*payload));
    if errors.len() == 0 {
        Ok(())
    } else {
        Err(Error::unprocessable_entity(errors))
    }
}

/// A sign-up that breaks the unique user name is reported as a taken
/// name; any other error is reported as it is.
pub fn signup_error(error: Error) -> (r: Error)
    ensures
        (error matches Error::ConstraintViolation { constraint, .. } && constraint@
            == "unique_username"@) ==> (r matches Error::BadRequest { errors } && field_errors_view(
            errors@,
        ) == grouped(seq![("username"@, "username already created"@)])),
        !(error matches Error::ConstraintViolation { constraint, .. } && constraint@
            == "unique_username"@) ==> r == error,
{
    let taken = match &error {
        Error::ConstraintViolation { constraint, .. } => crate::text::same_text(
            constraint.as_str(),
            "unique_username",
        ),
        _ => false,
    };
    if taken {
        let mut errors: Vec<(String, String)> = Vec::new();
        push_error(&mut errors, "username", "username already created");
        assert(pairs_view(errors@) =~= seq![("username"@, "username already created"@)]);
        Error::bad_request(errors)
    } else {
        error
    }
}

/// The error of a profile whose user is gone.
pub fn user_not_found() -> (r: Error)
    ensures
        r matches Error::BadRequest { errors } && field_errors_view(errors@) == grouped(
            seq![("user"@, "user not found"@)],
        ),
{
    let mut errors: Vec<(String, String)> = Vec::new();
    push_error(&mut errors, "user", "user not found");
    assert(pairs_view(errors@) =~= seq![("user"@, "user not found"@)]);
    Error::bad_request(errors)
}

/// The expiry (seconds since the epoch) of a token issued at `now`.
pub fn token_expiration(now: i64) -> (exp: i64)
    requires
        now + TOKEN_LIFETIME_SECS <= i64::MAX,
    ensures
        exp == now + TOKEN_LIFETIME_SECS,
{
    now + TOKEN_LIFETIME_SECS
}

/// The scheme prefix of a bearer authorization header.
pub const BEARER_PREFIX: &'static str = "Bearer ";

/// The token of an authorization header: what follows `Bearer `, where the
/// header starts so.
pub open spec fn bearer_of(header: Seq<char>) -> Option<Seq<char>> {
    let p = BEARER_PREFIX@;
    if p.len() <= header.len() && header.subrange(0, p.len() as int) == p {
        Some(header.subrange(p.len() as int, header.len() as int))
    } else {
        None
    }
}

/// The bearer token of an authorization header, if it carries one.
pub fn bearer_token(header: &str) -> (r: Option<String>)
    ensures
        match r {
            Some(t) => bearer_of(header@) == Some(t@),
            None => bearer_of(header@) is None,
        },
{
    let p = BEARER_PREFIX.unicode_len();
    let n = header.unicode_len();
    if p > n {
        return None;
    }
    let head = header.substring_char(0, p);
    if crate::text::same_text(head, BEARER_PREFIX) {
        Some(String::from_str(header.substring_char(p, n)))
    } else {
        None
    }
}

/// Law: a sign-in is refused exactly when its user name or its password is
/// blank (empty once trimmed), and each blank field is reported under its
/// own name.
pub proof fn law_signin_blank_fields(r: SignInRequest)
    ensures
        signin_errors(r).len() == 0 <==> (!is_blank(r.username@) && !is_blank(r.password@)),
        signin_errors(r).contains(("username"@, "username must not be empty"@)) <==> is_blank(
            r.username@,
        ),
        signin_errors(r).contains(("password"@, "password must not be empty"@)) <==> is_blank(
            r.password@,
        ),
{
    let e = signin_errors(r);
    let u = ("username"@, "username must not be empty"@);
    let p = ("password"@, "password must not be empty"@);
    assert(u != p) by {
        reveal_strlit("username");
        reveal_strlit("password");
        assert(u.0[0] != p.0[0]);
    }
    if is_blank(r.username@) {
        assert(e[0] == u);
    }
    if is_blank(r.password@) {
        assert(e[e.len() - 1] == p);
    }
}

/// Law: a sign-up is refused exactly when its user name or password is
/// blank or the confirmation differs from the password, and each problem is
/// reported: a blank field under its own name, a differing confirmation
/// under `password`.
pub proof fn law_signup_problems(r: SignUpRequest)
    ensures
        signup_errors(r).len() == 0 <==> (!is_blank(r.username@) && !is_blank(r.password@)
            && r.password@ == r.password_confirmation@),
        signup_errors(r).contains(("username"@, "username must not be empty"@)) <==> is_blank(
            r.username@,
        ),
        signup_errors(r).contains(("password"@, "password must not be empty"@)) <==> is_blank(
            r.password@,
        ),
        signup_errors(r).contains(("password"@, "password confirmation should match"@)) <==> r.password@
            != r.password_confirmation@,
{
    let e = signup_errors(r);
    let u = ("username"@, "username must not be empty"@);
    let p = ("password"@, "password must not be empty"@);
    let c = ("password"@, "password confirmation should match"@);
    assert(u != p && u != c) by {
        reveal_strlit("username");
        reveal_strlit("password");
        assert(u.0[0] != p.0[0]);
    }
    assert(p != c) by {
        reveal_strlit("password must not be empty");
        reveal_strlit("password confirmation should match");
        assert(p.1[9] != c.1[9]);
    }
    if is_blank(r.username@) {
        assert(e[0] == u);
    }
    if r.password@ != r.password_confirmation@ {
        assert(e[e.len() - 1] == c);
    }
    if is_blank(r.password@) {
        let i = if is_blank(r.username@) {
            1int
        } else {
            0int
        };
        assert(e[i] == p);
    }
}

} // verus!
