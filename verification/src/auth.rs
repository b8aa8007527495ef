//! The helper's authentication token: 256 bits written as 64 hexadecimal
//! digits, kept in a file beside the helper and replaced when unreadable as a
//! token.

use vstd::prelude::*;
use crate::text::{trim_spec, trim_to_string};
use vstd::utf8::{encode_utf8, is_ascii_chars};

verus! {

/// Name of the token file in the helper's data directory.
pub const TOKEN_FILE_NAME: &'static str = "auth-token";

pub open spec fn is_hex_byte(b: u8) -> bool {
    ||| 0x30 <= b <= 0x39
    ||| 0x41 <= b <= 0x46
    ||| 0x61 <= b <= 0x66
}

pub open spec fn is_lower_hex_char(c: char) -> bool {
    ('0' <= c <= '9') || ('a' <= c <= 'f')
}

/// A token is exactly 64 bytes, each an ASCII hexadecimal digit.
pub open spec fn valid_token_bytes(bytes: Seq<u8>) -> bool {
    bytes.len() == 64 && forall|i: int| 0 <= i < bytes.len() ==> is_hex_byte(#[trigger] bytes[i])
}

/// A text whose UTF-8 bytes form a valid token.
pub open spec fn valid_token(text: Seq<char>) -> bool {
    valid_token_bytes(encode_utf8(text))
}

pub fn is_valid_token(token: &str) -> (r: bool)
    ensures
        r == valid_token(token@),
{
    let bytes = token.as_bytes();
    if bytes.len() != 64 {
        return false;
    }
    let mut i: usize = 0;
    while i < bytes.len()
        invariant
            bytes@ == encode_utf8(token@),
            i <= bytes@.len(),
            forall|j: int| 0 <= j < i ==> is_hex_byte(#[trigger] bytes@[j]),
        decreases bytes@.len() - i,
    {
        let b = bytes[i];
        if !((0x30 <= b && b <= 0x39) || (0x41 <= b && b <= 0x46) || (0x61 <= b && b <= 0x66)) {
            return false;
        }
        i += 1;
    }
    true
}

/// A lower-case hexadecimal digit for a value below sixteen.
pub open spec fn lower_hex_digit(n: int) -> char {
    if n < 10 {
        (('0' as int) + n) as char
    } else {
        (('a' as int) + n - 10) as char
    }
}

/// The simple text of the UUID with bytes `b`: each byte as two lower-case
/// hexadecimal digits, the high half first, in byte order.
pub open spec fn simple_form(b: Seq<u8>) -> Seq<char> {
    Seq::new(
        32,
        |i: int|
            lower_hex_digit(
                if i % 2 == 0 {
                    (b[i / 2] / 16) as int
                } else {
                    (b[i / 2] % 16) as int
                },
            ),
    )
}

/// Calls `Uuid::new_v4` and takes its bytes with `Uuid::into_bytes`: random
/// bytes (with the version and variant bits set), of which nothing is stated.
#[verifier::external_body]
fn random_uuid_bytes() -> [u8; 16] {
    uuid::Uuid::new_v4().into_bytes()
}

/// Calls `Uuid::simple` on the UUID with the given bytes (`Uuid::from_bytes`)
/// and formats it with `Display`: the crate writes each byte as two
/// lower-case hexadecimal digits, the high half first, in byte order.
#[verifier::external_body]
fn simple_hex(bytes: [u8; 16]) -> (s: String)
    ensures
        s@ == simple_form(bytes@),
{
    uuid::Uuid::from_bytes(bytes).simple().to_string()
}

proof fn lemma_simple_form_hex(b: Seq<u8>)
    requires
        b.len() == 16,
    ensures
        simple_form(b).len() == 32,
        forall|i: int| 0 <= i < 32 ==> is_lower_hex_char(#[trigger] simple_form(b)[i]),
{
    assert forall|i: int| 0 <= i < 32 implies is_lower_hex_char(#[trigger] simple_form(b)[i]) by {
        let x = b[i / 2];
        assert(x / 16 < 16 && x % 16 < 16);
    }
}

/// The token made of two UUIDs with bytes `first` and `second`: their
/// simple texts one after the other, 64 lower-case hexadecimal digits.
pub fn token_from_uuids(first: [u8; 16], second: [u8; 16]) -> (t: String)
    ensures
        t@ == simple_form(first@) + simple_form(second@),
        t@.len() == 64,
        forall|i: int| 0 <= i < 64 ==> is_lower_hex_char(#[trigger] t@[i]),
        valid_token(t@),
{
    let mut token = simple_hex(first);
    let second_text = simple_hex(second);
    proof {
        lemma_simple_form_hex(first@);
        lemma_simple_form_hex(second@);
    }
    token.append(second_text.as_str());
    proof {
        assert forall|i: int| 0 <= i < 64 implies is_lower_hex_char(#[trigger] token@[i]) by {
            if i >= 32 {
                assert(token@[i] == second_text@[i - 32]);
            }
        }
        assert(is_ascii_chars(token@));
        vstd::utf8::is_ascii_chars_encode_utf8(token@);
        assert forall|i: int| 0 <= i < 64 implies is_hex_byte(#[trigger] encode_utf8(token@)[i]) by {
            assert(token@[i] as u8 == encode_utf8(token@)[i]);
        }
    }
    token
}

/// A fresh token from two random UUIDs; which digits come out is left to
/// chance, its form is that of `token_from_uuids`.
pub fn new_token() -> (t: String)
    ensures
        t@.len() == 64,
        forall|i: int| 0 <= i < 64 ==> is_lower_hex_char(#[trigger] t@[i]),
        valid_token(t@),
{
    token_from_uuids(random_uuid_bytes(), random_uuid_bytes())
}

/// What to do about the stored token.
#[derive(Debug)]
pub enum TokenChoice {
    /// The stored token is valid; keep using it.
    Keep(String),
    /// There was no usable token; this new one has to be written back.
    Replace(String),
}

/// Chooses the helper's token from what the token file held (`None` when
/// there was no such file): its trimmed text when that is a valid token, else
/// a new token that replaces it.
pub fn load_or_create_token(stored: Option<String>) -> (r: TokenChoice)
    ensures
        match r {
            TokenChoice::Keep(t) => stored matches Some(s) && t@ == trim_spec(s@) && valid_token(t@),
            TokenChoice::Replace(t) => valid_token(t@) && (stored matches Some(s) ==> !valid_token(
                trim_spec(s@),
            )),
        },
{
    if let Some(text) = stored {
        let trimmed = trim_to_string(text.as_str());
        if is_valid_token(trimmed.as_str()) {
            return TokenChoice::Keep(trimmed);
        }
    }
    TokenChoice::Replace(new_token())
}

} // verus!
