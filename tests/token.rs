use rotmg_stash::token::{parse_access_token, extract_field, AuthError};

const FULL: &str = "<AccessToken>abc123</AccessToken><AccessTokenTimestamp>1700000000</AccessTokenTimestamp><AccessTokenExpiration>1700003600</AccessTokenExpiration>";

#[test]
fn parse_full_reply() {
    let t = match parse_access_token(FULL) {
        Ok(t) => t,
        Err(e) => panic!("unexpected error: {}", e.message()),
    };
    assert_eq!(t.access_token, "abc123");
    assert_eq!(t.timestamp, "1700000000");
    assert_eq!(t.expiration, "1700003600");
}

#[test]
fn parse_reply_inside_other_markup() {
    let body = "<Account>\n  <AccessToken>tok=+/</AccessToken>\n  <AccessTokenTimestamp>1</AccessTokenTimestamp>\n  <AccessTokenExpiration>2</AccessTokenExpiration>\n</Account>";
    let t = parse_access_token(body).ok().unwrap();
    assert_eq!(t.access_token, "tok=+/");
    assert_eq!(t.timestamp, "1");
    assert_eq!(t.expiration, "2");
}

#[test]
fn parse_keeps_empty_captures() {
    let body = "<AccessToken></AccessToken><AccessTokenTimestamp></AccessTokenTimestamp><AccessTokenExpiration></AccessTokenExpiration>";
    let t = parse_access_token(body).ok().unwrap();
    assert_eq!(t.access_token, "");
    assert_eq!(t.timestamp, "");
    assert_eq!(t.expiration, "");
}

#[test]
fn parse_without_token_markers() {
    let body = "<Error>WebChangePasswordDialog.passwordError</Error>";
    assert!(matches!(parse_access_token(body), Err(AuthError::TokenNotFound)));
    assert!(matches!(parse_access_token(""), Err(AuthError::TokenNotFound)));
}

#[test]
fn parse_without_timestamp_markers() {
    let body = "<AccessToken>abc</AccessToken><AccessTokenExpiration>9</AccessTokenExpiration>";
    match parse_access_token(body) {
        Err(AuthError::InvalidResponse(m)) => assert_eq!(m, "Access token timestamp not found"),
        _ => panic!("expected the timestamp error"),
    }
}

#[test]
fn parse_without_expiration_markers() {
    let body = "<AccessToken>abc</AccessToken><AccessTokenTimestamp>1</AccessTokenTimestamp>";
    match parse_access_token(body) {
        Err(e @ AuthError::InvalidResponse(_)) => {
            assert_eq!(e.message(), "Invalid response: Access token expiration not found")
        }
        _ => panic!("expected the expiration error"),
    }
}

#[test]
fn extract_stops_at_first_closing_marker() {
    let f = extract_field("<a>x</a>y</a>", "<a>", "</a>");
    assert_eq!(f, Some("x".to_string()));
}

#[test]
fn extract_takes_leftmost_opening_marker() {
    let f = extract_field("<a>one</a><a>two</a>", "<a>", "</a>");
    assert_eq!(f, Some("one".to_string()));
    let g = extract_field("<a><a>in</a>", "<a>", "</a>");
    assert_eq!(g, Some("<a>in".to_string()));
}

#[test]
fn extract_capture_does_not_span_lines() {
    assert_eq!(extract_field("<a>x\ny</a>", "<a>", "</a>"), None);
    let f = extract_field("<a>x\n<a>y</a>", "<a>", "</a>");
    assert_eq!(f, Some("y".to_string()));
}

#[test]
fn extract_handles_non_ascii_text() {
    let f = extract_field("héllo <a>crème</a>", "<a>", "</a>");
    assert_eq!(f, Some("crème".to_string()));
    assert_eq!(extract_field("<a>unclosed", "<a>", "</a>"), None);
}

#[test]
fn auth_error_messages() {
    assert_eq!(AuthError::TokenNotFound.message(), "Access token not found in response");
    assert_eq!(AuthError::CouldNotParseToken.message(), "Could not parse access token");
    assert_eq!(
        AuthError::InvalidResponse("bad".to_string()).message(),
        "Invalid response: bad"
    );
    assert_eq!(
        AuthError::NetworkError("connection refused".to_string()).message(),
        "connection refused"
    );
}
