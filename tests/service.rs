use rotmg_stash::service::{char_list_url, is_steam, verify_form, verify_url};

fn keys(form: &[(String, String)]) -> Vec<&str> {
    form.iter().map(|p| p.0.as_str()).collect()
}

#[test]
fn steam_form_sends_steam_identity() {
    let form = verify_form("steamworks:12345", "s3cret", Some("dev"));
    assert_eq!(
        form,
        vec![
            ("clientToken".to_string(), "dev".to_string()),
            ("guid".to_string(), "steamworks:12345".to_string()),
            ("steamid".to_string(), "steamworks:12345".to_string()),
            ("secret".to_string(), "s3cret".to_string()),
        ]
    );
    assert!(!keys(&form).contains(&"password"));
}

#[test]
fn plain_form_sends_password() {
    let form = verify_form("user@example.com", "hunter2", None);
    assert_eq!(
        form,
        vec![
            ("clientToken".to_string(), "0".to_string()),
            ("guid".to_string(), "user@example.com".to_string()),
            ("password".to_string(), "hunter2".to_string()),
        ]
    );
    let k = keys(&form);
    assert!(!k.contains(&"steamid"));
    assert!(!k.contains(&"secret"));
}

#[test]
fn steam_prefix_must_lead() {
    assert!(is_steam("steamworks:1"));
    assert!(is_steam("steamworks:"));
    assert!(!is_steam("xsteamworks:1"));
    assert!(!is_steam("steamworks"));
    assert!(!is_steam(""));
}

#[test]
fn service_addresses() {
    assert_eq!(verify_url(), "https://www.realmofthemadgod.com/account/verify");
    assert_eq!(
        char_list_url("abc123"),
        "https://www.realmofthemadgod.com/char/list?muleDump=true&accessToken=abc123"
    );
}

#[test]
fn char_list_url_encodes_token() {
    assert_eq!(
        char_list_url("a b+c/é=&"),
        "https://www.realmofthemadgod.com/char/list?muleDump=true&accessToken=a+b%2Bc%2F%C3%A9%3D%26"
    );
}
