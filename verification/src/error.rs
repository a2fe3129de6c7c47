//! Errors of the service, their HTTP status codes, their messages, and the
//! grouping of field errors by field name.
use vstd::prelude::*;

verus! {

/// Field errors grouped by field name.
pub type FieldErrors = Vec<(String, Vec<String>)>;

/// The abstract value of grouped field errors.
pub type FieldErrorsView = Seq<(Seq<char>, Seq<Seq<char>>)>;

/// The errors a request can end with.
#[derive(Debug)]
pub enum Error {
    Unauthorized,
    Forbidden,
    NotFound,
    UnprocessableEntity { errors: FieldErrors },
    BadRequest { errors: FieldErrors },
    DatabaseError { message: String },
    DatabasePool { message: String },
    ConstraintViolation { constraint: String, message: String },
    Anyhow { message: String },
    WrongCredentials,
    MissingCredentials,
    InvalidToken,
    Jwt { message: String },
    Argon2 { details: String },
}

/// The view of grouped field errors.
pub open spec fn field_errors_view(e: Seq<(String, Vec<String>)>) -> FieldErrorsView {
    e.map_values(|g: (String, Vec<String>)| (g.0@, g.1@.map_values(|v: String| v@)))
}

/// The position of the group of `key`, if there is one.
pub open spec fn group_position(groups: FieldErrorsView, key: Seq<char>) -> Option<int>
    decreases groups.len(),
{
    if groups.len() == 0 {
        None
    } else {
        match group_position(groups.drop_last(), key) {
            Some(i) => Some(i),
            None => if groups.last().0 == key {
                Some(groups.len() - 1)
            } else {
                None
            },
        }
    }
}

/// Adds `value` to the group of `key`, opening the group at the end when
/// there is none.
pub open spec fn add_field_error(groups: FieldErrorsView, key: Seq<char>, value: Seq<char>) -> FieldErrorsView {
    match group_position(groups, key) {
        Some(i) => groups.update(i, (key, groups[i].1.push(value))),
        None => groups.push((key, seq![value])),
    }
}

/// The grouping of the first `n` pairs.
pub open spec fn grouped_prefix(pairs: Seq<(Seq<char>, Seq<char>)>, n: nat) -> FieldErrorsView
    decreases n,
{
    if n == 0 || n > pairs.len() {
        Seq::empty()
    } else {
        add_field_error(grouped_prefix(pairs, (n - 1) as nat), pairs[n - 1].0, pairs[n - 1].1)
    }
}

/// Field errors grouped by field, fields in order of first appearance.
pub open spec fn grouped(pairs: Seq<(Seq<char>, Seq<char>)>) -> FieldErrorsView {
    grouped_prefix(pairs, pairs.len())
}

/// The view of a list of (field, message) pairs.
pub open spec fn pairs_view(pairs: Seq<(String, String)>) -> Seq<(Seq<char>, Seq<char>)> {
    pairs.map_values(|p: (String, String)| (p.0@, p.1@))
}

/// The messages given for `key`, in order.
pub open spec fn messages_for(pairs: Seq<(Seq<char>, Seq<char>)>, key: Seq<char>) -> Seq<Seq<char>>
    decreases pairs.len(),
{
    if pairs.len() == 0 {
        Seq::empty()
    } else if pairs.last().0 == key {
        messages_for(pairs.drop_last(), key).push(pairs.last().1)
    } else {
        messages_for(pairs.drop_last(), key)
    }
}

proof fn lemma_group_position(groups: FieldErrorsView, key: Seq<char>)
    ensures
        match group_position(groups, key) {
            Some(i) => 0 <= i < groups.len() && groups[i].0 == key && forall|j: int|
                0 <= j < i ==> #[trigger] groups[j].0 != key,
            None => forall|j: int| 0 <= j < groups.len() ==> #[trigger] groups[j].0 != key,
        },
    decreases groups.len(),
{
    if groups.len() > 0 {
        let shorter = groups.drop_last();
        lemma_group_position(shorter, key);
        assert forall|j: int| 0 <= j < shorter.len() implies shorter[j] == groups[j] by {}
        match group_position(shorter, key) {
            Some(i) => {
                assert forall|j: int| 0 <= j < i implies #[trigger] groups[j].0 != key by {
                    assert(shorter[j].0 != key);
                }
            },
            None => {
                assert forall|j: int| 0 <= j < shorter.len() implies #[trigger] groups[j].0 != key by {
                    assert(shorter[j].0 != key);
                }
            },
        }
    }
}

fn find_group(groups: &FieldErrors, key: &String) -> (r: Option<usize>)
    ensures
        match r {
            Some(i) => i < groups@.len() && group_position(field_errors_view(groups@), key@) == Some(
                i as int,
            ),
            None => group_position(field_errors_view(groups@), key@) is None,
        },
{
    let ghost gv = field_errors_view(groups@);
    proof {
        lemma_group_position(gv, key@);
    }
    let mut i: usize = 0;
    while i < groups.len()
        invariant
            0 <= i <= groups@.len(),
            gv == field_errors_view(groups@),
            forall|j: int| 0 <= j < i ==> #[trigger] gv[j].0 != key@,
        decreases groups@.len() - i,
    {
        if groups[i].0 == *key {
            assert(gv[i as int].0 == key@);
            proof {
                lemma_group_position(gv, key@);
                match group_position(gv, key@) {
                    Some(p) => {
                        if p < i {
                            assert(gv[p].0 != key@);
                        } else if p > i {
                            assert(gv[i as int].0 != key@);
                        }
                    },
                    None => {
                        assert(gv[i as int].0 != key@);
                    },
                }
            }
            return Some(i);
        }
        i = i + 1;
    }
    proof {
        lemma_group_position(gv, key@);
        if let Some(p) = group_position(gv, key@) {
            assert(gv[p].0 != key@);
        }
    }
    None
}

/// Groups (field, message) pairs by field.
pub fn group_field_errors(pairs: Vec<(String, String)>) -> (groups: FieldErrors)
    ensures
        field_errors_view(groups@) == grouped(pairs_view(pairs@)),
{
    let ghost pv = pairs_view(pairs@);
    let mut groups: FieldErrors = Vec::new();
    let mut rest = pairs;
    let mut pending: Vec<(String, String)> = Vec::new();
    while rest.len() > 0
        invariant
            pairs_view(rest@) + pairs_view(pending@).reverse() == pv,
        decreases rest@.len(),
    {
        let ghost before = pairs_view(rest@);
        let p = rest.pop().unwrap();
        pending.push(p);
        assert(pairs_view(pending@).reverse() =~= seq![before.last()] + pairs_view(
            pending@.drop_last(),
        ).reverse());
        assert(pairs_view(rest@) =~= before.drop_last());
        assert(pairs_view(rest@) + pairs_view(pending@).reverse() =~= before.drop_last() + (seq![
            before.last(),
        ] + pairs_view(pending@.drop_last()).reverse()));
        assert(before =~= before.drop_last() + seq![before.last()]);
    }
    assert(pairs_view(pending@).reverse() =~= pv);
    let ghost total = pv.len();
    while pending.len() > 0
        invariant
            pv.len() == total,
            pairs_view(pending@).reverse() =~= pv.skip(total - pending@.len()),
            pending@.len() <= total,
            field_errors_view(groups@) == grouped_prefix(pv, (total - pending@.len()) as nat),
        decreases pending@.len(),
    {
        let ghost before = pairs_view(pending@);
        let ghost n = (total - pending@.len()) as nat;
        let (key, value) = pending.pop().unwrap();
        assert(before.reverse()[0] == before.last());
        assert(pv.skip(n as int)[0] == pv[n as int]);
        assert((key@, value@) == pv[n as int]);
        assert(pairs_view(pending@).reverse() =~= before.reverse().drop_first());
        assert(pv.skip(n + 1 as int) =~= pv.skip(n as int).drop_first());
        assert(n < total);
        assert(grouped_prefix(pv, (n + 1) as nat) == add_field_error(
            grouped_prefix(pv, n),
            pv[n as int].0,
            pv[n as int].1,
        ));
        match find_group(&groups, &key) {
            Some(i) => {
                let ghost gv = field_errors_view(groups@);
                proof {
                    lemma_group_position(gv, key@);
                }
                let (k, mut values) = groups.remove(i);
                let ghost old_values = values@;
                values.push(value);
                assert(values@.map_values(|v: String| v@) =~= old_values.map_values(|v: String| v@).push(
                    pv[n as int].1,
                ));
                groups.insert(i, (k, values));
                assert(field_errors_view(groups@) =~~= gv.update(
                    i as int,
                    (key@, gv[i as int].1.push(pv[n as int].1)),
                ));
                assert(group_position(gv, key@) == Some(i as int));
                assert(gv == grouped_prefix(pv, n));
                assert(field_errors_view(groups@) == grouped_prefix(pv, (n + 1) as nat));
            },
            None => {
                let mut values: Vec<String> = Vec::new();
                values.push(value);
                let ghost gv = field_errors_view(groups@);
                groups.push((key, values));
                assert(field_errors_view(groups@) =~~= gv.push((pv[n as int].0, seq![pv[n as int].1])));
                assert(field_errors_view(groups@) == grouped_prefix(pv, (n + 1) as nat));
            },
        }
    }
    groups
}

proof fn lemma_grouped_prefix(pairs: Seq<(Seq<char>, Seq<char>)>, n: nat)
    requires
        n <= pairs.len(),
    ensures
        forall|i: int, j: int|
            0 <= i < j < grouped_prefix(pairs, n).len() ==> #[trigger] grouped_prefix(pairs, n)[i].0
                != #[trigger] grouped_prefix(pairs, n)[j].0,
        forall|key: Seq<char>|
            #![trigger group_position(grouped_prefix(pairs, n), key)]
            match group_position(grouped_prefix(pairs, n), key) {
                Some(i) => grouped_prefix(pairs, n)[i].1 == messages_for(pairs.take(n as int), key)
                    && messages_for(pairs.take(n as int), key).len() > 0,
                None => messages_for(pairs.take(n as int), key).len() == 0,
            },
    decreases n,
{
    if n > 0 {
        let m = (n - 1) as nat;
        lemma_grouped_prefix(pairs, m);
        let g = grouped_prefix(pairs, m);
        let (k, v) = pairs[m as int];
        let out = grouped_prefix(pairs, n);
        lemma_group_position(g, k);
        assert(pairs.take(n as int).drop_last() =~= pairs.take(m as int));
        assert forall|key: Seq<char>|
            #![trigger group_position(grouped_prefix(pairs, n), key)]
            match group_position(grouped_prefix(pairs, n), key) {
                Some(i) => grouped_prefix(pairs, n)[i].1 == messages_for(pairs.take(n as int), key)
                    && messages_for(pairs.take(n as int), key).len() > 0,
                None => messages_for(pairs.take(n as int), key).len() == 0,
            } by {
            lemma_group_position(g, key);
            lemma_group_position(out, key);
            if key == k {
                match group_position(g, k) {
                    Some(i) => {
                        assert(out[i].0 == key);
                        assert forall|j: int| 0 <= j < i implies #[trigger] out[j].0 != key by {
                            assert(out[j] == g[j]);
                        }
                    },
                    None => {
                        assert(out[out.len() - 1].0 == key);
                        assert forall|j: int| 0 <= j < g.len() implies #[trigger] out[j].0 != key by {
                            assert(out[j] == g[j]);
                        }
                    },
                }
            } else {
                match group_position(g, key) {
                    Some(i) => {
                        assert(out[i] == g[i]);
                        assert forall|j: int| 0 <= j < i implies #[trigger] out[j].0 != key by {
                            assert(g[j].0 != key);
                        }
                    },
                    None => {
                        assert forall|j: int| 0 <= j < out.len() implies #[trigger] out[j].0 != key by {
                            if j < g.len() {
                                assert(g[j].0 != key);
                            }
                        }
                    },
                }
            }
        }
        assert forall|i: int, j: int| 0 <= i < j < out.len() implies #[trigger] out[i].0
            != #[trigger] out[j].0 by {
            match group_position(g, k) {
                Some(p) => {
                    assert(out[i].0 == g[i].0);
                    assert(out[j].0 == g[j].0);
                },
                None => {
                    if j == out.len() - 1 {
                        assert(out[i].0 == g[i].0);
                        assert(g[i].0 != k);
                    }
                },
            }
        }
    }
}

/// Law: grouping field errors gives each field once, and the messages of a
/// field are exactly those given for it, in order.
pub proof fn law_grouped_field_errors(pairs: Seq<(Seq<char>, Seq<char>)>, key: Seq<char>)
    ensures
        forall|i: int, j: int|
            0 <= i < j < grouped(pairs).len() ==> #[trigger] grouped(pairs)[i].0
                != #[trigger] grouped(pairs)[j].0,
        match group_position(grouped(pairs), key) {
            Some(i) => grouped(pairs)[i].1 == messages_for(pairs, key),
            None => messages_for(pairs, key).len() == 0,
        },
{
    lemma_grouped_prefix(pairs, pairs.len());
    assert(pairs.take(pairs.len() as int) =~= pairs);
}

/// HTTP status codes used by the service.
pub const STATUS_BAD_REQUEST: u16 = 400;
pub const STATUS_UNAUTHORIZED: u16 = 401;
pub const STATUS_FORBIDDEN: u16 = 403;
pub const STATUS_NOT_FOUND: u16 = 404;
pub const STATUS_UNPROCESSABLE_ENTITY: u16 = 422;
pub const STATUS_INTERNAL_SERVER_ERROR: u16 = 500;

/// How an error is written as an HTTP response.
#[derive(Debug, Clone, Copy, PartialEq, Eq, Structural)]
pub enum ResponseShape {
    /// A JSON body with the grouped field errors.
    FieldErrors,
    /// The message as body, with a `WWW-Authenticate: Token` header.
    Challenge,
    /// The message as body.
    Message,
}

impl Error {
    /// The HTTP status of an error, by variant.
    pub open spec fn status_of(&self) -> u16 {
        match self {
            Error::Anyhow { .. } => STATUS_INTERNAL_SERVER_ERROR,
            Error::Argon2 { .. } => STATUS_INTERNAL_SERVER_ERROR,
            Error::BadRequest { .. } => STATUS_BAD_REQUEST,
            Error::ConstraintViolation { .. } => STATUS_BAD_REQUEST,
            Error::DatabaseError { .. } => STATUS_INTERNAL_SERVER_ERROR,
            Error::DatabasePool { .. } => STATUS_INTERNAL_SERVER_ERROR,
            Error::Forbidden => STATUS_FORBIDDEN,
            Error::InvalidToken => STATUS_BAD_REQUEST,
            Error::Jwt { .. } => STATUS_INTERNAL_SERVER_ERROR,
            Error::MissingCredentials => STATUS_BAD_REQUEST,
            Error::NotFound => STATUS_NOT_FOUND,
            Error::Unauthorized => STATUS_UNAUTHORIZED,
            Error::UnprocessableEntity { .. } => STATUS_UNPROCESSABLE_ENTITY,
            Error::WrongCredentials => STATUS_UNAUTHORIZED,
        }
    }

    /// An unprocessable-entity error with the given field errors grouped.
    pub fn unprocessable_entity(errors: Vec<(String, String)>) -> (e: Error)
        ensures
            e matches Error::UnprocessableEntity { errors: g } && field_errors_view(g@) == grouped(
                pairs_view(errors@),
            ),
    {
        Error::UnprocessableEntity { errors: group_field_errors(errors) }
    }

    /// A bad-request error with the given field errors grouped.
    pub fn bad_request(errors: Vec<(String, String)>) -> (e: Error)
        ensures
            e matches Error::BadRequest { errors: g } && field_errors_view(g@) == grouped(
                pairs_view(errors@),
            ),
    {
        Error::BadRequest { errors: group_field_errors(errors) }
    }

    /// A violated database constraint.
    pub fn constraint_violation(constraint: &str, message: &str) -> (e: Error)
        ensures
            e matches Error::ConstraintViolation { constraint: c, message: m } && c@ == constraint@
                && m@ == message@,
    {
        Error::ConstraintViolation { constraint: constraint.to_owned(), message: message.to_owned() }
    }

    /// A failure of password hashing.
    pub fn argon2(details: String) -> (e: Error)
        ensures
            e matches Error::Argon2 { details: d } && d == details,
    {
        Error::Argon2 { details }
    }

    /// The HTTP status of the error.
    pub fn status_code(&self) -> (code: u16)
        ensures
            code == self.status_of(),
    {
        match self {
            Error::Anyhow { .. } => STATUS_INTERNAL_SERVER_ERROR,
            Error::Argon2 { .. } => STATUS_INTERNAL_SERVER_ERROR,
            Error::BadRequest { .. } => STATUS_BAD_REQUEST,
            Error::ConstraintViolation { .. } => STATUS_BAD_REQUEST,
            Error::DatabaseError { .. } => STATUS_INTERNAL_SERVER_ERROR,
            Error::DatabasePool { .. } => STATUS_INTERNAL_SERVER_ERROR,
            Error::Forbidden => STATUS_FORBIDDEN,
            Error::InvalidToken => STATUS_BAD_REQUEST,
            Error::Jwt { .. } => STATUS_INTERNAL_SERVER_ERROR,
            Error::MissingCredentials => STATUS_BAD_REQUEST,
            Error::NotFound => STATUS_NOT_FOUND,
            Error::Unauthorized => STATUS_UNAUTHORIZED,
            Error::UnprocessableEntity { .. } => STATUS_UNPROCESSABLE_ENTITY,
            Error::WrongCredentials => STATUS_UNAUTHORIZED,
        }
    }

    /// The message of an error: a short code per variant.
    pub open spec fn message_of(&self) -> Seq<char> {
        match self {
            Error::Unauthorized => "authentication_required"@,
            Error::Forbidden => "action_not_allowed"@,
            Error::NotFound => "request_path_not_found"@,
            Error::UnprocessableEntity { .. } => "invalid_payload"@,
            Error::BadRequest { .. } => "invalid_payload"@,
            Error::DatabaseError { .. } => "database_error"@,
            Error::DatabasePool { .. } => "database_error"@,
            Error::ConstraintViolation { .. } => "constraint_violation"@,
            Error::Anyhow { .. } => "internal_server_error"@,
            Error::WrongCredentials => "wrong_credentials"@,
            Error::MissingCredentials => "missing_credentials"@,
            Error::InvalidToken => "invalid_token"@,
            Error::Jwt { .. } => "internal_error"@,
            Error::Argon2 { .. } => "internal_error"@,
        }
    }

    /// The short code shown to clients for each variant.
    pub fn message(&self) -> (m: &'static str)
        ensures
            m@ == self.message_of(),
    {
        match self {
            Error::Unauthorized => "authentication_required",
            Error::Forbidden => "action_not_allowed",
            Error::NotFound => "request_path_not_found",
            Error::UnprocessableEntity { .. } => "invalid_payload",
            Error::BadRequest { .. } => "invalid_payload",
            Error::DatabaseError { .. } => "database_error",
            Error::DatabasePool { .. } => "database_error",
            Error::ConstraintViolation { .. } => "constraint_violation",
            Error::Anyhow { .. } => "internal_server_error",
            Error::WrongCredentials => "wrong_credentials",
            Error::MissingCredentials => "missing_credentials",
            Error::InvalidToken => "invalid_token",
            Error::Jwt { .. } => "internal_error",
            Error::Argon2 { .. } => "internal_error",
        }
    }

    /// How the error is written as a response: field errors as a JSON body,
    /// a missing authentication as a challenge, anything else as its message.
    pub fn response_shape(&self) -> (shape: ResponseShape)
        ensures
            shape == match self {
                Error::BadRequest { .. } => ResponseShape::FieldErrors,
                Error::UnprocessableEntity { .. } => ResponseShape::FieldErrors,
                Error::Unauthorized => ResponseShape::Challenge,
                _ => ResponseShape::Message,
            },
    {
        match self {
            Error::BadRequest { .. } => ResponseShape::FieldErrors,
            Error::UnprocessableEntity { .. } => ResponseShape::FieldErrors,
            Error::Unauthorized => ResponseShape::Challenge,
            _ => ResponseShape::Message,
        }
    }
}

/// Builds the list of (field, message) pairs from static texts.
pub fn field_error_pairs(pairs: &[(&'static str, &'static str)]) -> (v: Vec<(String, String)>)
    ensures
        v@.len() == pairs@.len(),
        forall|i: int|
            0 <= i < pairs@.len() ==> (#[trigger] v@[i]).0@ == pairs@[i].0@ && v@[i].1@
                == pairs@[i].1@,
{
    let mut v: Vec<(String, String)> = Vec::new();
    let mut i: usize = 0;
    while i < pairs.len()
        invariant
            0 <= i <= pairs@.len(),
            v@.len() == i,
            forall|j: int|
                0 <= j < i ==> (#[trigger] v@[j]).0@ == pairs@[j].0@ && v@[j].1@ == pairs@[j].1@,
        decreases pairs@.len() - i,
    {
        let (k, m) = pairs[i];
        v.push((k.to_owned(), m.to_owned()));
        i = i + 1;
    }
    v
}

} // verus!
