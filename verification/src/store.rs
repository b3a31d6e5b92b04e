//! The key layout of a session in the store, and the requests that the game
//! makes of the store.

use uuid::Uuid;
use vstd::prelude::*;
use vstd::string::StringExecFns;

verus! {

/// The lower-case hexadecimal digit for a value below 16.
pub open spec fn hex_digit(value: int) -> char
    recommends
        0 <= value < 16,
{
    if value < 10 {
        ((0x30 + value) as u8) as char
    } else {
        ((0x61 + value - 10) as u8) as char
    }
}

/// Two lower-case hexadecimal digits for each byte, in order.
pub open spec fn hex_text(bytes: Seq<u8>) -> Seq<char>
    decreases bytes.len(),
{
    if bytes.len() == 0 {
        Seq::empty()
    } else {
        hex_text(bytes.drop_last()) + seq![
            hex_digit(bytes.last() as int / 16),
            hex_digit(bytes.last() as int % 16),
        ]
    }
}

/// The hyphenated text of a 16-byte identifier: its hexadecimal digits in
/// groups of 8, 4, 4, 4 and 12, with a hyphen between the groups.
pub open spec fn hyphenated(id: Seq<u8>) -> Seq<char>
    recommends
        id.len() == 16,
{
    hex_text(id.subrange(0, 4)) + seq!['-'] + hex_text(id.subrange(4, 6)) + seq!['-'] + hex_text(
        id.subrange(6, 8),
    ) + seq!['-'] + hex_text(id.subrange(8, 10)) + seq!['-'] + hex_text(id.subrange(10, 16))
}

/// The key under which the field `field` of session `id` is stored.
pub open spec fn field_key(id: Seq<u8>, field: Seq<char>) -> Seq<char> {
    "game:"@ + hyphenated(id) + ":"@ + field
}

/// The three keys of one session.
#[derive(Debug)]
pub struct SessionKeys {
    pub guess_count: String,
    pub salt: String,
    pub password_digest: String,
}

/// The three keys of one session, as character sequences.
pub struct SessionKeysView {
    pub guess_count: Seq<char>,
    pub salt: Seq<char>,
    pub password_digest: Seq<char>,
}

impl View for SessionKeys {
    type V = SessionKeysView;

    open spec fn view(&self) -> SessionKeysView {
        SessionKeysView {
            guess_count: self.guess_count@,
            salt: self.salt@,
            password_digest: self.password_digest@,
        }
    }
}

/// The keys of session `id`.
pub open spec fn keys_of(id: Seq<u8>) -> SessionKeysView {
    SessionKeysView {
        guess_count: field_key(id, "guess_count"@),
        salt: field_key(id, "salt"@),
        password_digest: field_key(id, "password_digest"@),
    }
}

/// `Uuid::from_bytes` and the `Display` of `Uuid`, of the crate `uuid`: the
/// identifier made of the 16 bytes, written in lower-case hexadecimal digits
/// with hyphens after the 8th, 12th, 16th and 20th digit.
#[verifier::external_body]
fn hyphenated_text(id: &[u8; 16]) -> (text: String)
    ensures
        text@ == hyphenated(id@),
{
    Uuid::from_bytes(*id).to_string()
}

/// The key of the field `field` of session `id`.
fn key_for(id: &[u8; 16], field: &str) -> (key: String)
    ensures
        key@ == field_key(id@, field@),
{
    let mut key = String::from_str("game:");
    key.append(hyphenated_text(id).as_str());
    key.append(":");
    key.append(field);
    key
}

/// The keys of session `id`.
pub fn session_keys(id: &[u8; 16]) -> (keys: SessionKeys)
    ensures
        keys@ == keys_of(id@),
{
    SessionKeys {
        guess_count: key_for(id, "guess_count"),
        salt: key_for(id, "salt"),
        password_digest: key_for(id, "password_digest"),
    }
}

/// The store could not be reached, or it did not answer.
#[derive(Clone, Copy, Debug, PartialEq, Eq, Structural)]
pub struct StoreFailure;

/// One round trip to the store. Each request is carried out as a whole.
#[derive(Debug)]
pub enum StoreRequest {
    /// Write the guess count, the salt and the password digest under their
    /// keys, each to expire after `ttl` seconds.
    Create {
        keys: SessionKeys,
        guess_count: usize,
        salt: String,
        password_digest: String,
        ttl: usize,
    },
    /// Read the guess count and the salt.
    Read { guess_count_key: String, salt_key: String },
    /// Add one to the guess count, and read the new count, the salt and the
    /// password digest.
    IncrementAndRead { keys: SessionKeys },
    /// Remove the three keys.
    Delete { keys: SessionKeys },
}

/// A request to the store, as mathematical values.
pub enum StoreRequestView {
    Create {
        keys: SessionKeysView,
        guess_count: nat,
        salt: Seq<char>,
        password_digest: Seq<char>,
        ttl: nat,
    },
    Read { guess_count_key: Seq<char>, salt_key: Seq<char> },
    IncrementAndRead { keys: SessionKeysView },
    Delete { keys: SessionKeysView },
}

impl View for StoreRequest {
    type V = StoreRequestView;

    open spec fn view(&self) -> StoreRequestView {
        match self {
            StoreRequest::Create { keys, guess_count, salt, password_digest, ttl } => {
                StoreRequestView::Create {
                    keys: keys@,
                    guess_count: *guess_count as nat,
                    salt: salt@,
                    password_digest: password_digest@,
                    ttl: *ttl as nat,
                }
            },
            StoreRequest::Read { guess_count_key, salt_key } => StoreRequestView::Read {
                guess_count_key: guess_count_key@,
                salt_key: salt_key@,
            },
            StoreRequest::IncrementAndRead { keys } => StoreRequestView::IncrementAndRead {
                keys: keys@,
            },
            StoreRequest::Delete { keys } => StoreRequestView::Delete { keys: keys@ },
        }
    }
}

} // verus!
