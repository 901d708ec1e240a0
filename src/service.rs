//! What is sent to the account service: the sign-in form and the
//! character-list address.

use vstd::prelude::*;
use vstd::utf8::encode_utf8;
use crate::text::{chars_of, occurs_at, occurs_at_exec};

verus! {

/// The service host that every request goes to.
pub open spec fn base_url() -> Seq<char> {
    "https://www.realmofthemadgod.com"@
}

/// The account identifier names a Steam identity.
pub open spec fn is_steam_guid(guid: Seq<char>) -> bool {
    occurs_at(guid, "steamworks:"@, 0)
}

/// The fields of the sign-in form, in the order they are sent.
pub open spec fn verify_form_fields(guid: Seq<char>, password: Seq<char>, client_token: Seq<char>) -> Seq<(Seq<char>, Seq<char>)> {
    let head = seq![("clientToken"@, client_token), ("guid"@, guid)];
    if is_steam_guid(guid) {
        head + seq![("steamid"@, guid), ("secret"@, password)]
    } else {
        head + seq![("password"@, password)]
    }
}

/// The client token sent for an optional device token.
pub open spec fn client_token_of(device_token: Option<Seq<char>>) -> Seq<char> {
    match device_token {
        Some(d) => d,
        None => "0"@,
    }
}

pub open spec fn form_view(form: Seq<(String, String)>) -> Seq<(Seq<char>, Seq<char>)> {
    form.map_values(|p: (String, String)| (p.0@, p.1@))
}

/// The address the sign-in form is posted to.
pub fn verify_url() -> (r: String)
    ensures
        r@ == base_url() + "/account/verify"@,
{
    String::from_str("https://www.realmofthemadgod.com").concat("/account/verify")
}

/// Whether `guid` names a Steam identity.
pub fn is_steam(guid: &str) -> (r: bool)
    ensures
        r == is_steam_guid(guid@),
{
    let g = chars_of(guid);
    let p = chars_of("steamworks:");
    occurs_at_exec(&g, &p, 0)
}

/// The sign-in form: the client token (`"0"` without a device token) and the
/// identifier, then either the Steam identity and its secret or the password.
pub fn verify_form(guid: &str, password: &str, device_token: Option<&str>) -> (r: Vec<(String, String)>)
    ensures
        form_view(r@) == verify_form_fields(
            guid@,
            password@,
            client_token_of(
                match device_token {
                    Some(d) => Some(d@),
                    None => None,
                },
            ),
        ),
{
    let client_token = match device_token {
        Some(d) => String::from_str(d),
        None => String::from_str("0"),
    };
    let mut form: Vec<(String, String)> = Vec::new();
    form.push((String::from_str("clientToken"), client_token));
    form.push((String::from_str("guid"), String::from_str(guid)));
    if is_steam(guid) {
        form.push((String::from_str("steamid"), String::from_str(guid)));
        form.push((String::from_str("secret"), String::from_str(password)));
    } else {
        form.push((String::from_str("password"), String::from_str(password)));
    }
    assert(form_view(form@) =~= verify_form_fields(
        guid@,
        password@,
        client_token_of(
            match device_token {
                Some(d) => Some(d@),
                None => None,
            },
        ),
    ));
    form
}

/// Bytes that the form byte serializer leaves as they are.
pub open spec fn form_unchanged(b: u8) -> bool {
    b == 42 || b == 45 || b == 46 || (48 <= b <= 57) || (65 <= b <= 90) || b == 95 || (97 <= b
        <= 122)
}

pub open spec fn upper_hex_digit(d: u8) -> char {
    "0123456789ABCDEF"@[d as int]
}

/// One byte in `application/x-www-form-urlencoded` form: kept, a space as
/// `+`, anything else as `%` and two upper-case hex digits.
pub open spec fn form_encoded_byte(b: u8) -> Seq<char> {
    if form_unchanged(b) {
        seq![b as char]
    } else if b == 32 {
        seq!['+']
    } else {
        seq!['%', upper_hex_digit(b / 16), upper_hex_digit(b % 16)]
    }
}

pub open spec fn form_encoded(bytes: Seq<u8>) -> Seq<char>
    decreases bytes.len(),
{
    if bytes.len() == 0 {
        Seq::empty()
    } else {
        form_encoded_byte(bytes[0]) + form_encoded(bytes.drop_first())
    }
}

/// `name=value`, each part form-encoded over its UTF-8 bytes.
pub open spec fn form_pair(name: Seq<char>, value: Seq<char>) -> Seq<char> {
    form_encoded(encode_utf8(name)) + "="@ + form_encoded(encode_utf8(value))
}

/// Relies on url::form_urlencoded::Serializer: on an empty target,
/// `append_pair` writes the serialized name, `=` and the serialized value
/// (byte_serialize over the UTF-8 bytes), and `finish` hands the text back.
#[verifier::external_body]
fn form_urlencoded_pair(name: &str, value: &str) -> (r: String)
    ensures
        r@ == form_pair(name@, value@),
{
    url::form_urlencoded::Serializer::new(String::new()).append_pair(name, value).finish()
}

/// The address of the character list for a session, with the token
/// form-encoded into the query.
pub fn char_list_url(access_token: &str) -> (r: String)
    ensures
        r@ == base_url() + "/char/list?muleDump=true&"@ + form_pair("accessToken"@, access_token@),
{
    let pair = form_urlencoded_pair("accessToken", access_token);
    String::from_str("https://www.realmofthemadgod.com").concat("/char/list?muleDump=true&").concat(pair.as_str())
}

/// A Steam identity's form carries `steamid` and `secret` and no `password`;
/// any other identifier's form carries `password` and neither of the others.
pub proof fn lemma_verify_form_keys(guid: Seq<char>, password: Seq<char>, client_token: Seq<char>)
    ensures
        ({
            let keys = verify_form_fields(guid, password, client_token).map_values(
                |p: (Seq<char>, Seq<char>)| p.0,
            );
            if is_steam_guid(guid) {
                &&& keys.contains("steamid"@)
                &&& keys.contains("secret"@)
                &&& !keys.contains("password"@)
            } else {
                &&& keys.contains("password"@)
                &&& !keys.contains("steamid"@)
                &&& !keys.contains("secret"@)
            }
        }),
{
    reveal_strlit("clientToken");
    reveal_strlit("guid");
    reveal_strlit("steamid");
    reveal_strlit("secret");
    reveal_strlit("password");
    let keys = verify_form_fields(guid, password, client_token).map_values(
        |p: (Seq<char>, Seq<char>)| p.0,
    );
    if is_steam_guid(guid) {
        assert(keys[2] == "steamid"@);
        assert(keys[3] == "secret"@);
        assert forall|k: int| 0 <= k < keys.len() implies keys[k] != "password"@ by {
            assert(keys[k].len() != "password"@.len() || keys[k][0] != "password"@[0]);
        }
    } else {
        assert(keys[2] == "password"@);
        assert forall|k: int| 0 <= k < keys.len() implies keys[k] != "steamid"@ && keys[k] != "secret"@ by {
            assert(keys[k].len() != "steamid"@.len() || keys[k][0] != "steamid"@[0]);
            assert(keys[k].len() != "secret"@.len() || keys[k][0] != "secret"@[0]);
        }
    }
}

} // verus!
