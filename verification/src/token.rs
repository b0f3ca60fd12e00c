//! The per-install ingest token: its form, how a fresh one is drawn, and
//! when a stored one is reused.

use vstd::prelude::*;
use vstd::string::StringSliceAdditionalSpecFns;
use vstd::utf8::{encode_utf8, is_ascii_chars, is_ascii_chars_encode_utf8};

use crate::text::{
    hex_digit, hex_digit_char, is_white_space, push_char, trim, trim_end_spec, trim_spec,
    trim_start_spec,
};

verus! {

/// Name of the file, in the application's data directory, that holds the token.
pub const INGEST_TOKEN_FILE: &'static str = "ingest-token";

/// Number of random bytes in a token; its text has two hex digits per byte.
pub const INGEST_TOKEN_BYTES: usize = 32;

/// Whether a byte is an ASCII hexadecimal digit (either case).
pub open spec fn is_hex_digit_byte(b: u8) -> bool {
    (0x30 <= b <= 0x39) || (0x41 <= b <= 0x46) || (0x61 <= b <= 0x66)
}

/// Whether the UTF-8 bytes of a token have its form: 64 bytes, each an
/// ASCII hexadecimal digit (so also 64 characters, each a hex digit).
pub open spec fn valid_token_bytes(bytes: Seq<u8>) -> bool {
    &&& bytes.len() == INGEST_TOKEN_BYTES * 2
    &&& forall|i: int| 0 <= i < bytes.len() ==> is_hex_digit_byte(#[trigger] bytes[i])
}

/// Whether a text is a well-formed token: its UTF-8 encoding is 64 bytes,
/// each an ASCII hexadecimal digit. (A UTF-8 byte below 0x80 encodes the
/// ASCII character of the same value, so this is the same as: 64 bytes long,
/// every character an ASCII hex digit.)
pub open spec fn valid_token(token: Seq<char>) -> bool {
    valid_token_bytes(encode_utf8(token))
}

/// Only texts of 64 hexadecimal digits have the token form: a text is a
/// valid token exactly when its UTF-8 encoding is 64 bytes long and each byte
/// is `0`..`9`, `a`..`f` or `A`..`F`; so a token that the check accepts, or
/// that a stored file yields, is 64 bytes long.
pub proof fn lemma_token_is_64_hex_digits(t: Seq<char>, contents: Seq<char>)
    ensures
        valid_token(t) <==> (encode_utf8(t).len() == 64 && forall|i: int| 0 <= i < 64 ==> {
            let b = #[trigger] encode_utf8(t)[i];
            ||| 0x30 <= b <= 0x39
            ||| 0x61 <= b <= 0x66
            ||| 0x41 <= b <= 0x46
        }),
        stored_token(contents) matches Some(s) ==> encode_utf8(s).len() == 64,
{
}

/// Whether `token` has the form of an ingest token.
pub fn is_valid_ingest_token(token: &str) -> (r: bool)
    ensures
        r == valid_token(token@),
{
    let bytes = token.as_bytes();
    if bytes.len() != INGEST_TOKEN_BYTES * 2 {
        return false;
    }
    let mut i: usize = 0;
    while i < bytes.len()
        invariant
            bytes@ == token.spec_bytes(),
            bytes@.len() == INGEST_TOKEN_BYTES * 2,
            i <= bytes@.len(),
            forall|j: int| 0 <= j < i ==> is_hex_digit_byte(#[trigger] bytes@[j]),
        decreases bytes@.len() - i,
    {
        let b = bytes[i];
        if !((0x30 <= b && b <= 0x39) || (0x41 <= b && b <= 0x46) || (0x61 <= b && b <= 0x66)) {
            assert(!is_hex_digit_byte(bytes@[i as int]));
            return false;
        }
        i = i + 1;
    }
    true
}

/// Lower-case hex text of `bytes`: two digits per byte, high half first.
pub open spec fn hex_encode(bytes: Seq<u8>) -> Seq<char>
    decreases bytes.len(),
{
    if bytes.len() == 0 {
        Seq::empty()
    } else {
        hex_encode(bytes.drop_last()) + seq![
            hex_digit((bytes.last() / 16) as u8),
            hex_digit((bytes.last() % 16) as u8),
        ]
    }
}

/// Lower-case hex text of `bytes`: two digits per byte, high half first.
pub fn to_hex(bytes: &[u8]) -> (text: String)
    ensures
        text@ == hex_encode(bytes@),
{
    let mut text = String::new();
    let mut i: usize = 0;
    while i < bytes.len()
        invariant
            i <= bytes@.len(),
            text@ == hex_encode(bytes@.take(i as int)),
        decreases bytes@.len() - i,
    {
        let b = bytes[i];
        push_char(&mut text, hex_digit_char(b / 16));
        push_char(&mut text, hex_digit_char(b % 16));
        proof {
            let next = bytes@.take(i + 1);
            assert(next.drop_last() =~= bytes@.take(i as int));
            assert(next.last() == b);
        }
        i = i + 1;
    }
    assert(bytes@.take(bytes@.len() as int) =~= bytes@);
    text
}

/// Declares `getrandom::Error` to Verus; values of it are only carried.
#[verifier::external_type_specification]
#[verifier::external_body]
pub struct ExRandomError(getrandom::Error);

/// Calls `getrandom::getrandom` to fill `bytes` from the system's random
/// source. Nothing is claimed of the bytes: they are chance.
#[verifier::external_body]
fn fill_random(bytes: &mut [u8; 32]) -> Result<(), getrandom::Error> {
    getrandom::getrandom(bytes)
}

/// The token made from a draw of the random source: the random source's
/// error, carried unchanged, when drawing failed; otherwise the lower-case
/// hex text of the drawn `bytes`.
pub fn token_from_random(drawn: Result<(), getrandom::Error>, bytes: &[u8]) -> (r: Result<String, getrandom::Error>)
    ensures
        match drawn {
            Ok(()) => r matches Ok(token) && token@ == hex_encode(bytes@),
            Err(e) => r == Err::<String, getrandom::Error>(e),
        },
{
    match drawn {
        Ok(()) => Ok(to_hex(bytes)),
        Err(e) => Err(e),
    }
}

/// Draws a fresh token: 32 random bytes as 64 lower-case hex digits. Fails
/// only when the random source does, with its error.
pub fn generate_ingest_token() -> (r: Result<String, getrandom::Error>)
    ensures
        r matches Ok(token) ==> exists|bytes: Seq<u8>|
            bytes.len() == INGEST_TOKEN_BYTES && token@ == #[trigger] hex_encode(bytes),
        r matches Ok(token) ==> valid_token(token@),
{
    let mut bytes = [0u8; 32];
    let drawn = fill_random(&mut bytes);
    let r = token_from_random(drawn, bytes.as_slice());
    proof {
        lemma_hex_token_is_valid(bytes@);
    }
    r
}

proof fn lemma_hex_encode_shape(bytes: Seq<u8>)
    ensures
        hex_encode(bytes).len() == 2 * bytes.len(),
        forall|i: int| 0 <= i < hex_encode(bytes).len() ==> {
            let c = #[trigger] hex_encode(bytes)[i];
            ('0' <= c <= '9') || ('a' <= c <= 'f')
        },
    decreases bytes.len(),
{
    if bytes.len() > 0 {
        lemma_hex_encode_shape(bytes.drop_last());
        let hi = (bytes.last() / 16) as u8;
        let lo = (bytes.last() % 16) as u8;
        assert(hi < 16 && lo < 16);
        let prev = hex_encode(bytes.drop_last());
        assert forall|i: int| 0 <= i < hex_encode(bytes).len() implies {
            let c = #[trigger] hex_encode(bytes)[i];
            ('0' <= c <= '9') || ('a' <= c <= 'f')
        } by {
            if i < prev.len() {
                assert(hex_encode(bytes)[i] == prev[i]);
            }
        }
    }
}

/// A token drawn from any 32 bytes has the form that
/// `is_valid_ingest_token` accepts.
pub proof fn lemma_hex_token_is_valid(bytes: Seq<u8>)
    requires
        bytes.len() == INGEST_TOKEN_BYTES,
    ensures
        valid_token(hex_encode(bytes)),
{
    let text = hex_encode(bytes);
    lemma_hex_encode_shape(bytes);
    assert(is_ascii_chars(text));
    is_ascii_chars_encode_utf8(text);
    let enc = encode_utf8(text);
    assert forall|i: int| 0 <= i < enc.len() implies is_hex_digit_byte(#[trigger] enc[i]) by {
        assert(text[i] as u8 == enc[i]);
    }
}

/// The token held in a stored token file's `contents`, if it is well
/// formed once surrounding white space is removed.
pub open spec fn stored_token(contents: Seq<char>) -> Option<Seq<char>> {
    if valid_token(trim_spec(contents)) {
        Some(trim_spec(contents))
    } else {
        None
    }
}

/// The token to reuse from a stored token file's contents: the trimmed
/// contents when they form a valid token, `None` otherwise.
pub fn stored_ingest_token(contents: &str) -> (r: Option<String>)
    ensures
        match r {
            Some(token) => stored_token(contents@) == Some(token@),
            None => stored_token(contents@) is None,
        },
{
    let token = trim(contents);
    if is_valid_ingest_token(token) {
        Some(String::from_str(token))
    } else {
        None
    }
}


/// A freshly drawn token, once stored, is reused unchanged: the stored
/// contents that `generate_ingest_token` can produce are accepted by
/// `stored_ingest_token` as they are.
pub proof fn lemma_generated_token_is_reused(bytes: Seq<u8>)
    requires
        bytes.len() == INGEST_TOKEN_BYTES,
    ensures
        stored_token(hex_encode(bytes)) == Some(hex_encode(bytes)),
{
    let text = hex_encode(bytes);
    lemma_hex_encode_shape(bytes);
    lemma_hex_token_is_valid(bytes);
    if text.len() > 0 {
        assert(!is_white_space(text[0]));
        assert(!is_white_space(text.last()));
    }
    assert(trim_start_spec(text) == text);
    assert(trim_end_spec(text) == text);
}

} // verus!
