//! Local settings: where they are kept, and the load-or-create decision.
//! The application reads and writes the file and hands the outcome here.

use vstd::prelude::*;
use crate::text::{join_path, joined_path};

verus! {

/// The persisted settings.
pub struct Settings {
    /// Key used for encryption, as lower-case hex.
    pub secret_key: Option<String>,
}

/// What reading the settings file gave.
pub enum SettingsFile {
    /// There is no settings file.
    Missing,
    /// There is a file, but it does not hold settings.
    Corrupt,
    /// The settings the file holds.
    Parsed(Settings),
}

/// The settings to use, and whether they must be written out.
pub struct SettingsOutcome {
    pub settings: Settings,
    pub write: bool,
}

pub open spec fn key_view(s: Settings) -> Option<Seq<char>> {
    match s.secret_key {
        Some(k) => Some(k@),
        None => None,
    }
}

pub open spec fn hex_digit(d: u8) -> char {
    "0123456789abcdef"@[d as int]
}

/// Two lower-case hex digits per byte, high half first.
pub open spec fn hex_text(b: Seq<u8>) -> Seq<char>
    decreases b.len(),
{
    if b.len() == 0 {
        Seq::empty()
    } else {
        hex_text(b.drop_last()) + seq![hex_digit(b.last() / 16), hex_digit(b.last() % 16)]
    }
}

/// The key that loading settings yields.
pub open spec fn loaded_key(stored: SettingsFile, fresh_key: Seq<u8>) -> Option<Seq<char>> {
    match stored {
        SettingsFile::Missing => Some(hex_text(fresh_key)),
        SettingsFile::Corrupt => None,
        SettingsFile::Parsed(s) => key_view(s),
    }
}

/// Renders bytes as lower-case hex.
pub fn hex_key(bytes: &[u8]) -> (r: String)
    ensures
        r@ == hex_text(bytes@),
{
    proof {
        reveal_strlit("0123456789abcdef");
    }
    let digits = "0123456789abcdef";
    let mut r = String::new();
    let mut i: usize = 0;
    while i < bytes.len()
        invariant
            i <= bytes@.len(),
            digits@ == "0123456789abcdef"@,
            digits@.len() == 16,
            r@ == hex_text(bytes@.subrange(0, i as int)),
        decreases bytes@.len() - i,
    {
        let b = bytes[i];
        let hi = (b / 16) as usize;
        let lo = (b % 16) as usize;
        r = r.concat(digits.substring_char(hi, hi + 1)).concat(digits.substring_char(lo, lo + 1));
        proof {
            let next = bytes@.subrange(0, i + 1);
            assert(next.drop_last() =~= bytes@.subrange(0, i as int));
            assert(digits@.subrange(hi as int, hi + 1) =~= seq![hex_digit(b / 16)]);
            assert(digits@.subrange(lo as int, lo + 1) =~= seq![hex_digit(b % 16)]);
        }
        i = i + 1;
    }
    assert(bytes@.subrange(0, bytes@.len() as int) =~= bytes@);
    r
}

/// Fresh settings whose key is the hex rendering of `random_bytes`.
pub fn generate_settings(random_bytes: &[u8]) -> (r: Settings)
    ensures
        key_view(r) == Some(hex_text(random_bytes@)),
{
    Settings { secret_key: Some(hex_key(random_bytes)) }
}

/// Settings from what the file gave: existing settings are kept as they
/// are, a corrupt file yields settings without a key, and a missing file
/// yields new settings keyed from `fresh_key`, which must then be written.
pub fn load_or_create(stored: SettingsFile, fresh_key: &[u8]) -> (r: SettingsOutcome)
    ensures
        key_view(r.settings) == loaded_key(stored, fresh_key@),
        r.write == (stored is Missing),
{
    match stored {
        SettingsFile::Missing => SettingsOutcome { settings: generate_settings(fresh_key), write: true },
        SettingsFile::Corrupt => SettingsOutcome { settings: Settings { secret_key: None }, write: false },
        SettingsFile::Parsed(s) => SettingsOutcome { settings: s, write: false },
    }
}

/// Loading twice: the first load, with no file, creates a key and writes it;
/// a second load of what was written keeps that key and writes nothing.
pub proof fn lemma_load_or_create_idempotent(first_key: Seq<u8>, second_key: Seq<u8>, written: Settings)
    requires
        key_view(written) == loaded_key(SettingsFile::Missing, first_key),
    ensures
        loaded_key(SettingsFile::Missing, first_key) is Some,
        loaded_key(SettingsFile::Parsed(written), second_key) == loaded_key(
            SettingsFile::Missing,
            first_key,
        ),
{
}

/// The settings directory inside the local application-data directory.
pub fn get_save_file_path(local_data_dir: &str) -> (r: String)
    ensures
        r@ == joined_path(local_data_dir@, "RotMG Stash"@),
{
    join_path(local_data_dir, "RotMG Stash")
}

/// The settings file inside the settings directory.
pub fn get_settings_file_path(save_dir: &str) -> (r: String)
    ensures
        r@ == joined_path(save_dir@, "rotmg-stash-settings.json"@),
{
    join_path(save_dir, "rotmg-stash-settings.json")
}

} // verus!
