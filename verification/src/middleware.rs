//! Authentication of API requests from their `Authorization` header.
//!
//! A request is authenticated in three steps: the bearer token is taken
//! from the header (`AuthContext::bearer_token`), the token is validated
//! against the signing secret by the caller, and the validated claims
//! become the request's context (`AuthContext::from_claims`). Every
//! rejection answers with status 401 and an `ApiError` body.

use vstd::prelude::*;

verus! {

/// The HTTP status of every authentication rejection.
pub const UNAUTHORIZED: u16 = 401;

/// The JSON body of a rejected request: `{"ok": false, "error": ...}`.
#[derive(Debug, Clone, PartialEq, Eq)]
pub struct ApiError {
    pub ok: bool,
    pub error: String,
}

/// What a valid token says about its holder.
#[derive(Debug, Clone, PartialEq, Eq)]
pub struct Claims {
    pub user_id: u128,
    pub company_id: u128,
    pub role: String,
}

/// The authenticated caller of a request.
#[derive(Debug, Clone, PartialEq, Eq)]
pub struct AuthContext {
    pub user_id: u128,
    pub company_id: u128,
    pub role: String,
}

/// The scheme prefix of a bearer credential.
pub open spec fn bearer_prefix() -> Seq<char> {
    seq!['B', 'e', 'a', 'r', 'e', 'r', ' ']
}

/// The token of a header value that starts with `Bearer ` (case as
/// written, one space), as `str::strip_prefix` gives it.
pub open spec fn bearer_token_of(header: Seq<char>) -> Option<Seq<char>> {
    if header.len() >= 7 && header.take(7) == bearer_prefix() {
        Some(header.skip(7))
    } else {
        None
    }
}

/// Whether `e` is a rejection body with the message `msg`.
pub open spec fn rejects_with(e: ApiError, msg: Seq<char>) -> bool {
    !e.ok && e.error@ == msg
}

fn rejection(msg: &str) -> (e: ApiError)
    ensures
        rejects_with(e, msg@),
{
    ApiError { ok: false, error: String::from_str(msg) }
}

impl AuthContext {
    /// The bearer token of the `Authorization` header value (`None` when
    /// the request has no such header, or its value is not visible ASCII).
    pub fn bearer_token(header: Option<&str>) -> (r: Result<String, ApiError>)
        ensures
            header is None ==> (r matches Err(e) && rejects_with(e, "Missing Authorization header"@)),
            header matches Some(h) ==> match bearer_token_of(h@) {
                Some(t) => (r matches Ok(token) && token@ == t),
                None => (r matches Err(e) && rejects_with(e, "Invalid Authorization format"@)),
            },
    {
        match header {
            None => Err(rejection("Missing Authorization header")),
            Some(h) => {
                let n = h.unicode_len();
                if n >= 7 && h.get_char(0) == 'B' && h.get_char(1) == 'e' && h.get_char(2) == 'a'
                    && h.get_char(3) == 'r' && h.get_char(4) == 'e' && h.get_char(5) == 'r'
                    && h.get_char(6) == ' ' {
                    proof {
                        assert(h@.take(7) =~= bearer_prefix());
                    }
                    Ok(String::from_str(h.substring_char(7, n)))
                } else {
                    proof {
                        if n >= 7 && h@.take(7) == bearer_prefix() {
                            assert(h@[0] == h@.take(7)[0]);
                            assert(h@[1] == h@.take(7)[1]);
                            assert(h@[2] == h@.take(7)[2]);
                            assert(h@[3] == h@.take(7)[3]);
                            assert(h@[4] == h@.take(7)[4]);
                            assert(h@[5] == h@.take(7)[5]);
                            assert(h@[6] == h@.take(7)[6]);
                        }
                    }
                    Err(rejection("Invalid Authorization format"))
                }
            },
        }
    }

    /// The context of a request whose token validated to `claims`
    /// (`None` when validation failed).
    pub fn from_claims(claims: Option<Claims>) -> (r: Result<AuthContext, ApiError>)
        ensures
            claims is None ==> (r matches Err(e) && rejects_with(e, "Invalid or expired token"@)),
            claims matches Some(c) ==> r == Ok::<AuthContext, ApiError>(
                AuthContext { user_id: c.user_id, company_id: c.company_id, role: c.role },
            ),
    {
        match claims {
            None => Err(rejection("Invalid or expired token")),
            Some(c) => Ok(AuthContext { user_id: c.user_id, company_id: c.company_id, role: c.role }),
        }
    }
}

/// A header of `Bearer ` followed by any token yields that token.
pub proof fn law_bearer_roundtrip(token: Seq<char>)
    ensures
        bearer_token_of(bearer_prefix() + token) == Some(token),
{
    let h = bearer_prefix() + token;
    assert(h.take(7) =~= bearer_prefix());
    assert(h.skip(7) =~= token);
}

} // verus!
