//! The access-token exchange: the form sent to the verify endpoint, and the
//! extraction of the token fields from the service's reply.

use vstd::prelude::*;
use crate::text::{chars_of, occurs_at, occurs_at_exec};

verus! {

/// Session credentials returned by the account service, copied verbatim.
pub struct AccessTokenResponse {
    pub access_token: String,
    pub timestamp: String,
    pub expiration: String,
}

/// Why a token could not be obtained.
pub enum AuthError {
    /// The transport failed; carries the underlying message.
    NetworkError(String),
    /// The reply holds no access-token marker pair.
    TokenNotFound,
    /// The access-token capture could not be turned into a string.
    CouldNotParseToken,
    /// The reply is malformed in another way.
    InvalidResponse(String),
}

/// A field capture: `open` at `i`, the first `close` after it at `j`, and
/// no line feed in between (the capture is a single line).
pub open spec fn field_match(s: Seq<char>, open: Seq<char>, close: Seq<char>, i: int, j: int) -> bool {
    &&& occurs_at(s, open, i)
    &&& i + open.len() <= j
    &&& occurs_at(s, close, j)
    &&& forall|k: int| i + open.len() <= k < j ==> s[k] != '\n'
    &&& forall|k: int| i + open.len() <= k < j ==> !occurs_at(s, close, k)
}

/// Some capture of the field starts at `i`.
pub open spec fn match_starts_at(s: Seq<char>, open: Seq<char>, close: Seq<char>, i: int) -> bool {
    exists|j: int| field_match(s, open, close, i, j)
}

/// `i` is the leftmost start of a capture.
pub open spec fn is_first_match(s: Seq<char>, open: Seq<char>, close: Seq<char>, i: int) -> bool {
    &&& match_starts_at(s, open, close, i)
    &&& forall|i2: int| 0 <= i2 < i ==> !match_starts_at(s, open, close, i2)
}

/// The text between the leftmost `open` marker that has a closing marker on
/// its line and the first `close` after it; `None` when there is none.
pub open spec fn marker_field(s: Seq<char>, open: Seq<char>, close: Seq<char>) -> Option<Seq<char>> {
    if exists|i: int| is_first_match(s, open, close, i) {
        let i = choose|i: int| is_first_match(s, open, close, i);
        let j = choose|j: int| field_match(s, open, close, i, j);
        Some(s.subrange(i + open.len(), j))
    } else {
        None
    }
}

proof fn lemma_field_match_unique(s: Seq<char>, open: Seq<char>, close: Seq<char>, i: int, j1: int, j2: int)
    requires
        field_match(s, open, close, i, j1),
        field_match(s, open, close, i, j2),
    ensures
        j1 == j2,
{
}

proof fn lemma_first_match_unique(s: Seq<char>, open: Seq<char>, close: Seq<char>, i1: int, i2: int)
    requires
        is_first_match(s, open, close, i1),
        is_first_match(s, open, close, i2),
    ensures
        i1 == i2,
{
    if i1 < i2 {
        assert(!match_starts_at(s, open, close, i1));
    } else if i2 < i1 {
        assert(!match_starts_at(s, open, close, i2));
    }
}

/// Finds the leftmost capture of the field delimited by `open` and `close`,
/// returning the positions of the two markers.
fn find_field(s: &Vec<char>, open: &Vec<char>, close: &Vec<char>) -> (r: Option<(usize, usize)>)
    ensures
        match r {
            Some((i, j)) => is_first_match(s@, open@, close@, i as int) && field_match(
                s@,
                open@,
                close@,
                i as int,
                j as int,
            ),
            None => forall|i: int| !match_starts_at(s@, open@, close@, i),
        },
{
    let n = s.len();
    let mut i: usize = 0;
    loop
        invariant
            n == s@.len(),
            i <= n,
            forall|i2: int| 0 <= i2 < i ==> !match_starts_at(s@, open@, close@, i2),
        decreases n - i,
    {
        if occurs_at_exec(s, open, i) {
            let start = i + open.len();
            let mut j: usize = start;
            // 0: still scanning, 1: closing marker at `j`, 2: no capture from `i`
            let mut state: u8 = 0;
            while state == 0
                invariant
                    n == s@.len(),
                    occurs_at(s@, open@, i as int),
                    start == i + open@.len(),
                    start <= j <= n,
                    state <= 2,
                    state == 1 ==> field_match(s@, open@, close@, i as int, j as int),
                    state != 1 ==> forall|k: int| start <= k < j ==> !occurs_at(s@, close@, k),
                    state == 0 ==> forall|k: int| start <= k < j ==> s@[k] != '\n',
                    state == 2 ==> forall|j2: int| !field_match(s@, open@, close@, i as int, j2),
                decreases n - j, 2 - state,
            {
                if occurs_at_exec(s, close, j) {
                    state = 1;
                } else if j == n {
                    state = 2;
                    assert forall|j2: int| !field_match(s@, open@, close@, i as int, j2) by {
                        if field_match(s@, open@, close@, i as int, j2) {
                            assert(!occurs_at(s@, close@, j2));
                        }
                    }
                } else if s[j] == '\n' {
                    state = 2;
                    assert forall|j2: int| !field_match(s@, open@, close@, i as int, j2) by {
                        if field_match(s@, open@, close@, i as int, j2) {
                            if j2 <= j {
                                assert(!occurs_at(s@, close@, j2));
                            } else {
                                assert(s@[j as int] == '\n');
                            }
                        }
                    }
                } else {
                    j = j + 1;
                }
            }
            if state == 1 {
                return Some((i, j));
            }
        }
        if i == n {
            assert forall|i2: int| !match_starts_at(s@, open@, close@, i2) by {
                if i2 > n && match_starts_at(s@, open@, close@, i2) {
                    let j2 = choose|j2: int| field_match(s@, open@, close@, i2, j2);
                    assert(occurs_at(s@, open@, i2));
                }
            }
            return None;
        }
        i = i + 1;
    }
}

/// The field between `open` and `close` in `body`, as `marker_field` gives it.
pub fn extract_field(body: &str, open: &str, close: &str) -> (r: Option<String>)
    ensures
        match marker_field(body@, open@, close@) {
            Some(f) => r is Some && r->Some_0@ == f,
            None => r is None,
        },
{
    let s = chars_of(body);
    let o = chars_of(open);
    let c = chars_of(close);
    match find_field(&s, &o, &c) {
        Some((i, j)) => {
            proof {
                let i0 = choose|i0: int| is_first_match(body@, open@, close@, i0);
                lemma_first_match_unique(body@, open@, close@, i0, i as int);
                let j0 = choose|j0: int| field_match(body@, open@, close@, i0, j0);
                lemma_field_match_unique(body@, open@, close@, i as int, j0, j as int);
            }
            let f = body.substring_char(i + open.unicode_len(), j);
            Some(String::from_str(f))
        },
        None => {
            assert(!exists|i: int| is_first_match(body@, open@, close@, i));
            None
        },
    }
}

} // verus!

verus! {

pub open spec fn token_field(body: Seq<char>) -> Option<Seq<char>> {
    marker_field(body, "<AccessToken>"@, "</AccessToken>"@)
}

pub open spec fn timestamp_field(body: Seq<char>) -> Option<Seq<char>> {
    marker_field(body, "<AccessTokenTimestamp>"@, "</AccessTokenTimestamp>"@)
}

pub open spec fn expiration_field(body: Seq<char>) -> Option<Seq<char>> {
    marker_field(body, "<AccessTokenExpiration>"@, "</AccessTokenExpiration>"@)
}

/// `r` is an `InvalidResponse` error with the reason `reason`.
pub open spec fn is_invalid_response(r: Result<AccessTokenResponse, AuthError>, reason: Seq<char>) -> bool {
    r is Err && r->Err_0 is InvalidResponse && r->Err_0->InvalidResponse_0@ == reason
}

/// Extracts the access token, its issue timestamp and its expiration from a
/// reply of the verify endpoint. The checks run in that order and the first
/// missing field decides the error.
pub fn parse_access_token(body: &str) -> (r: Result<AccessTokenResponse, AuthError>)
    ensures
        token_field(body@) is None ==> r is Err && r->Err_0 is TokenNotFound,
        token_field(body@) is Some && timestamp_field(body@) is None ==> is_invalid_response(
            r,
            "Access token timestamp not found"@,
        ),
        token_field(body@) is Some && timestamp_field(body@) is Some && expiration_field(
            body@,
        ) is None ==> is_invalid_response(r, "Access token expiration not found"@),
        r is Ok <==> (token_field(body@) is Some && timestamp_field(body@) is Some
            && expiration_field(body@) is Some),
        r is Ok ==> {
            &&& r->Ok_0.access_token@ == token_field(body@)->Some_0
            &&& r->Ok_0.timestamp@ == timestamp_field(body@)->Some_0
            &&& r->Ok_0.expiration@ == expiration_field(body@)->Some_0
        },
{
    let access_token = match extract_field(body, "<AccessToken>", "</AccessToken>") {
        Some(f) => f,
        None => return Err(AuthError::TokenNotFound),
    };
    let timestamp = match extract_field(body, "<AccessTokenTimestamp>", "</AccessTokenTimestamp>") {
        Some(f) => f,
        None => return Err(AuthError::InvalidResponse(String::from_str("Access token timestamp not found"))),
    };
    let expiration = match extract_field(body, "<AccessTokenExpiration>", "</AccessTokenExpiration>") {
        Some(f) => f,
        None => return Err(AuthError::InvalidResponse(String::from_str("Access token expiration not found"))),
    };
    Ok(AccessTokenResponse { access_token, timestamp, expiration })
}

/// The text a caller sees for an error.
pub open spec fn auth_error_text(e: AuthError) -> Seq<char> {
    match e {
        AuthError::NetworkError(m) => m@,
        AuthError::TokenNotFound => "Access token not found in response"@,
        AuthError::CouldNotParseToken => "Could not parse access token"@,
        AuthError::InvalidResponse(m) => "Invalid response: "@ + m@,
    }
}

impl AuthError {
    /// A readable description of the error. A transport failure is reported
    /// with its own message; the reply body never appears in it.
    pub fn message(&self) -> (r: String)
        ensures
            r@ == auth_error_text(*self),
    {
        match self {
            AuthError::NetworkError(m) => m.clone(),
            AuthError::TokenNotFound => String::from_str("Access token not found in response"),
            AuthError::CouldNotParseToken => String::from_str("Could not parse access token"),
            AuthError::InvalidResponse(m) => String::from_str("Invalid response: ").concat(m.as_str()),
        }
    }
}

} // verus!
