//! Digests, encodings, and what is drawn from chance.
use vstd::prelude::*;
use vstd::utf8::{decode_utf8, valid_utf8};
use base64::engine::general_purpose::URL_SAFE_NO_PAD;
use base64::{DecodeError, Engine};
use rand::RngCore;
use sha2::Digest;
use crate::headers::{ascii_text, cookie_text, printable};
use crate::text::{law_tight_is_trimmed, trimmed};

verus! {

broadcast use vstd::string::group_string_axioms;

// ---- what is trusted ----

/// The SHA-256 digest of `bytes`.
pub uninterp spec fn sha256_digest(bytes: Seq<u8>) -> Seq<u8>;

/// `Sha256::new`, `update` with all of `bytes`, and `finalize`: the digest, of 32 bytes.
#[verifier::external_body]
fn sha256(bytes: &[u8]) -> (digest: Vec<u8>)
    ensures
        digest@ == sha256_digest(bytes@),
        digest@.len() == 32,
{
    let mut hasher = sha2::Sha256::new();
    hasher.update(bytes);
    hasher.finalize().to_vec()
}

/// The hexadecimal digit of a number below sixteen, in lower case.
pub open spec fn hex_digit(n: int) -> char {
    if n < 10 {
        ('0' as int + n) as char
    } else {
        ('a' as int + n - 10) as char
    }
}

/// Each byte as two hexadecimal digits, the high one first.
pub open spec fn hex_text(bytes: Seq<u8>) -> Seq<char> {
    Seq::new(
        2 * bytes.len(),
        |i: int|
            if i % 2 == 0 {
                hex_digit(bytes[i / 2] as int / 16)
            } else {
                hex_digit(bytes[i / 2] as int % 16)
            },
    )
}

/// `hex::encode`: two digits for each byte, in lower case.
#[verifier::external_body]
fn hex_encode(bytes: &[u8]) -> (text: String)
    ensures
        text@ == hex_text(bytes@),
{
    hex::encode(bytes)
}

/// The symbol of six bits in the URL-safe alphabet.
pub open spec fn base64url_symbol(n: int) -> char {
    if n < 26 {
        ('A' as int + n) as char
    } else if n < 52 {
        ('a' as int + n - 26) as char
    } else if n < 62 {
        ('0' as int + n - 52) as char
    } else if n == 62 {
        '-'
    } else {
        '_'
    }
}

/// `bytes` in URL-safe base64 without padding: three bytes make four symbols; one byte left over
/// makes two, two make three, with zero bits to fill the last.
pub open spec fn base64url_text(bytes: Seq<u8>) -> Seq<char>
    decreases bytes.len(),
{
    if bytes.len() == 0 {
        Seq::empty()
    } else if bytes.len() == 1 {
        let n = bytes[0] as int * 16;
        seq![base64url_symbol(n / 64), base64url_symbol(n % 64)]
    } else if bytes.len() == 2 {
        let n = (bytes[0] as int * 256 + bytes[1] as int) * 4;
        seq![
            base64url_symbol(n / 4096),
            base64url_symbol(n / 64 % 64),
            base64url_symbol(n % 64),
        ]
    } else {
        let n = (bytes[0] as int * 256 + bytes[1] as int) * 256 + bytes[2] as int;
        seq![
            base64url_symbol(n / 262144),
            base64url_symbol(n / 4096 % 64),
            base64url_symbol(n / 64 % 64),
            base64url_symbol(n % 64),
        ] + base64url_text(bytes.skip(3))
    }
}

/// `URL_SAFE_NO_PAD.encode`: the text of `bytes`. It panics where the text's length does not fit
/// in `usize`, which the precondition leaves out.
#[verifier::external_body]
fn base64url_encode(bytes: &[u8]) -> (text: String)
    requires
        bytes@.len() <= usize::MAX / 2,
    ensures
        text@ == base64url_text(bytes@),
{
    URL_SAFE_NO_PAD.encode(bytes)
}

#[verifier::external_type_specification]
#[verifier::external_body]
pub struct ExDecodeError(base64::DecodeError);

/// `URL_SAFE_NO_PAD.decode`: the bytes whose text `text` is, and an error where it is the text of
/// none: padding, a symbol out of the alphabet, a length that cannot be, or bits left over that
/// are not zero.
#[verifier::external_body]
fn base64url_decode(text: &[u8]) -> (bytes: Result<Vec<u8>, DecodeError>)
    ensures
        match bytes {
            Ok(v) => base64url_text(v@) == ascii_text(text@),
            Err(_) => forall|v: Seq<u8>| #[trigger] base64url_text(v) != ascii_text(text@),
        },
{
    URL_SAFE_NO_PAD.decode(text)
}

/// `constant_time_eq`: whether the two are the same bytes.
pub assume_specification[ constant_time_eq::constant_time_eq ](a: &[u8], b: &[u8]) -> (same: bool)
    ensures
        same == (a@ == b@),
;

#[verifier::external_type_specification]
#[verifier::external_body]
pub struct ExFromUtf8Error(std::string::FromUtf8Error);

/// `String::from_utf8`: the text that the bytes encode, where they are UTF-8.
pub assume_specification[ String::from_utf8 ](vec: Vec<u8>) -> (text: Result<
    String,
    std::string::FromUtf8Error,
>)
    ensures
        match text {
            Ok(s) => valid_utf8(vec@) && s@ == decode_utf8(vec@),
            Err(_) => !valid_utf8(vec@),
        },
;

/// `text` in lower case, by Unicode's mapping.
pub uninterp spec fn lowercase(text: Seq<char>) -> Seq<char>;

/// `str::to_lowercase`: the text in lower case, by a mapping that depends on the text alone.
pub assume_specification[ str::to_lowercase ](s: &str) -> (lower: String)
    ensures
        lower@ == lowercase(s@),
;

/// `OsRng.fill_bytes`: 32 bytes of the system's randomness. Nothing is claimed of them: any
/// bytes may come.
#[verifier::external_body]
fn random_bytes() -> (bytes: [u8; 32]) {
    let mut bytes = [0u8; 32];
    rand::rngs::OsRng.fill_bytes(&mut bytes);
    bytes
}

/// A hexadecimal digit in lower case.
pub open spec fn lower_hex(c: char) -> bool {
    '0' <= c <= '9' || 'a' <= c <= 'f'
}

/// A random UUID as text: 36 characters in lower case, hyphens after 8, 12, 16 and 20 digits,
/// the version four, and the variant of the RFC.
pub open spec fn random_uuid(s: Seq<char>) -> bool {
    &&& s.len() == 36
    &&& forall|i: int|
        0 <= i < 36 ==> if i == 8 || i == 13 || i == 18 || i == 23 {
            #[trigger] s[i] == '-'
        } else {
            lower_hex(s[i])
        }
    &&& s[14] == '4'
    &&& s[19] == '8' || s[19] == '9' || s[19] == 'a' || s[19] == 'b'
}

/// `Uuid::new_v4` and its `to_string`: some random UUID. Which one is left open: it is drawn.
#[verifier::external_body]
fn uuid_text() -> (text: String)
    ensures
        random_uuid(text@),
{
    uuid::Uuid::new_v4().to_string()
}

// ---- what is made of them ----

/// The digest of a text's bytes, in hexadecimal.
pub open spec fn sha256_hex_of(text: Seq<char>) -> Seq<char> {
    hex_text(sha256_digest(vstd::utf8::encode_utf8(text)))
}

/// The SHA-256 digest of `input`, in hexadecimal.
pub fn sha256_hex(input: &str) -> (text: String)
    ensures
        text@ == sha256_hex_of(input@),
        text@.len() == 64,
        forall|i: int| 0 <= i < text@.len() ==> lower_hex(#[trigger] text@[i]),
{
    let digest = sha256(input.as_bytes());
    let text = hex_encode(digest.as_slice());
    text
}

/// Whether two texts have the same bytes, compared without regard to where they differ.
pub fn same_secret(a: &str, b: &str) -> (same: bool)
    ensures
        same == (a@ == b@),
{
    proof {
        vstd::utf8::encode_utf8_decode_utf8(a@);
        vstd::utf8::encode_utf8_decode_utf8(b@);
    }
    constant_time_eq::constant_time_eq(a.as_bytes(), b.as_bytes())
}

/// The remember token that 32 drawn bytes make.
pub fn remember_token(bytes: &[u8; 32]) -> (token: String)
    ensures
        token@ == base64url_text(bytes@),
{
    base64url_encode(bytes.as_slice())
}

/// A text that some 32 bytes make as a remember token.
pub open spec fn is_remember_token(token: Seq<char>) -> bool {
    exists|bytes: Seq<u8>| bytes.len() == 32 && token == #[trigger] base64url_text(bytes)
}

/// A fresh remember token.
pub fn generate_remember_token() -> (token: String)
    ensures
        is_remember_token(token@),
{
    let bytes = random_bytes();
    remember_token(&bytes)
}

/// A fresh identifier for a row.
pub fn new_row_id() -> (id: String)
    ensures
        random_uuid(id@),
{
    uuid_text()
}

/// Why an encoded text could not be read.
#[derive(Clone, Copy, Debug, PartialEq, Eq, Structural)]
pub enum TextError {
    /// It is not URL-safe base64 without padding.
    Base64,
    /// The bytes in it are not UTF-8.
    Utf8,
}

/// Whether `text` is the URL-safe base64 of some bytes.
pub open spec fn is_base64url(text: Seq<char>) -> bool {
    exists|bytes: Seq<u8>| #[trigger] base64url_text(bytes) == text
}

/// The bytes that `text` encodes.
pub open spec fn base64url_bytes(text: Seq<char>) -> Seq<u8> {
    choose|bytes: Seq<u8>| #[trigger] base64url_text(bytes) == text
}

/// The text that stands, as UTF-8, in URL-safe base64.
pub open spec fn encoded_text(text: Seq<char>) -> Result<Seq<char>, TextError> {
    if !is_base64url(text) {
        Err(TextError::Base64)
    } else if !valid_utf8(base64url_bytes(text)) {
        Err(TextError::Utf8)
    } else {
        Ok(decode_utf8(base64url_bytes(text)))
    }
}

/// A symbol of the URL-safe alphabet.
pub open spec fn base64url_char(c: char) -> bool {
    'A' <= c <= 'Z' || 'a' <= c <= 'z' || '0' <= c <= '9' || c == '-' || c == '_'
}

proof fn lemma_symbol_injective(n: int, m: int)
    requires
        0 <= n < 64,
        0 <= m < 64,
        base64url_symbol(n) == base64url_symbol(m),
    ensures
        n == m,
{
}

proof fn lemma_base64url_shape(bytes: Seq<u8>)
    ensures
        base64url_text(bytes).len() == bytes.len() / 3 * 4 + (if bytes.len() % 3 == 0 {
            0nat
        } else {
            bytes.len() % 3 + 1
        }),
        forall|i: int|
            0 <= i < base64url_text(bytes).len() ==> base64url_char(
                #[trigger] base64url_text(bytes)[i],
            ),
    decreases bytes.len(),
{
    if bytes.len() >= 3 {
        let rest = base64url_text(bytes.skip(3));
        lemma_base64url_shape(bytes.skip(3));
        assert forall|i: int| 0 <= i < base64url_text(bytes).len() implies base64url_char(
            #[trigger] base64url_text(bytes)[i],
        ) by {
            if i >= 4 {
                assert(base64url_char(rest[i - 4]));
            }
        }
    }
}

proof fn lemma_sextets(n: int, m: int)
    requires
        0 <= n < 16777216,
        0 <= m < 16777216,
        n / 262144 == m / 262144,
        n / 4096 % 64 == m / 4096 % 64,
        n / 64 % 64 == m / 64 % 64,
        n % 64 == m % 64,
    ensures
        n == m,
{
    assert(n / 64 / 64 == n / 4096 && n / 4096 / 64 == n / 262144);
    assert(m / 64 / 64 == m / 4096 && m / 4096 / 64 == m / 262144);
}

proof fn lemma_group_of_three(a: Seq<u8>, b: Seq<u8>)
    requires
        a.len() >= 3,
        b.len() >= 3,
        base64url_text(a).take(4) == base64url_text(b).take(4),
    ensures
        a[0] == b[0] && a[1] == b[1] && a[2] == b[2],
{
    let n = (a[0] as int * 256 + a[1] as int) * 256 + a[2] as int;
    let m = (b[0] as int * 256 + b[1] as int) * 256 + b[2] as int;
    let (s, t) = (base64url_text(a).take(4), base64url_text(b).take(4));
    assert(s[0] == base64url_symbol(n / 262144) && t[0] == base64url_symbol(m / 262144));
    assert(s[1] == base64url_symbol(n / 4096 % 64) && t[1] == base64url_symbol(m / 4096 % 64));
    assert(s[2] == base64url_symbol(n / 64 % 64) && t[2] == base64url_symbol(m / 64 % 64));
    assert(s[3] == base64url_symbol(n % 64) && t[3] == base64url_symbol(m % 64));
    lemma_symbol_injective(n / 262144, m / 262144);
    lemma_symbol_injective(n / 4096 % 64, m / 4096 % 64);
    lemma_symbol_injective(n / 64 % 64, m / 64 % 64);
    lemma_symbol_injective(n % 64, m % 64);
    lemma_sextets(n, m);
}

proof fn lemma_group_of_two(a: Seq<u8>, b: Seq<u8>)
    requires
        a.len() == 2,
        b.len() == 2,
        base64url_text(a) == base64url_text(b),
    ensures
        a[0] == b[0] && a[1] == b[1],
{
    let n = (a[0] as int * 256 + a[1] as int) * 4;
    let m = (b[0] as int * 256 + b[1] as int) * 4;
    let (s, t) = (base64url_text(a), base64url_text(b));
    assert(s[0] == base64url_symbol(n / 4096) && t[0] == base64url_symbol(m / 4096));
    assert(s[1] == base64url_symbol(n / 64 % 64) && t[1] == base64url_symbol(m / 64 % 64));
    assert(s[2] == base64url_symbol(n % 64) && t[2] == base64url_symbol(m % 64));
    lemma_symbol_injective(n / 4096, m / 4096);
    lemma_symbol_injective(n / 64 % 64, m / 64 % 64);
    lemma_symbol_injective(n % 64, m % 64);
    lemma_sextets(n, m);
}

proof fn lemma_group_of_one(a: Seq<u8>, b: Seq<u8>)
    requires
        a.len() == 1,
        b.len() == 1,
        base64url_text(a) == base64url_text(b),
    ensures
        a[0] == b[0],
{
    let (n, m) = (a[0] as int * 16, b[0] as int * 16);
    let (s, t) = (base64url_text(a), base64url_text(b));
    assert(s[0] == base64url_symbol(n / 64) && t[0] == base64url_symbol(m / 64));
    assert(s[1] == base64url_symbol(n % 64) && t[1] == base64url_symbol(m % 64));
    lemma_symbol_injective(n / 64, m / 64);
    lemma_symbol_injective(n % 64, m % 64);
}

/// No two byte sequences have the same text.
pub proof fn law_base64url_is_injective(a: Seq<u8>, b: Seq<u8>)
    requires
        base64url_text(a) == base64url_text(b),
    ensures
        a == b,
    decreases a.len(),
{
    lemma_base64url_shape(a);
    lemma_base64url_shape(b);
    assert(a.len() == b.len());
    if a.len() == 1 {
        lemma_group_of_one(a, b);
    } else if a.len() == 2 {
        lemma_group_of_two(a, b);
    } else if a.len() >= 3 {
        lemma_group_of_three(a, b);
        let t = base64url_text(a);
        assert(t.skip(4) =~= base64url_text(a.skip(3)));
        assert(t.skip(4) =~= base64url_text(b.skip(3)));
        law_base64url_is_injective(a.skip(3), b.skip(3));
        assert forall|i: int| 0 <= i < a.len() implies a[i] == b[i] by {
            if i >= 3 {
                assert(a.skip(3)[i - 3] == b.skip(3)[i - 3]);
            }
        }
    }
    assert(a =~= b);
}

/// Bytes that are all ASCII are the bytes of the text that they show, and of no other.
proof fn lemma_ascii_bytes(text: Seq<char>)
    ensures
        (forall|i: int|
            0 <= i < vstd::utf8::encode_utf8(text).len()
                ==> #[trigger] vstd::utf8::encode_utf8(text)[i] < 128) ==> ascii_text(
            vstd::utf8::encode_utf8(text),
        ) == text,
        vstd::utf8::is_ascii_chars(text) ==> ascii_text(vstd::utf8::encode_utf8(text)) == text,
{
    let bytes = vstd::utf8::encode_utf8(text);
    vstd::utf8::encode_utf8_decode_utf8(text);
    if vstd::utf8::is_ascii_chars(text) {
        vstd::utf8::is_ascii_chars_encode_utf8(text);
        assert(ascii_text(bytes) =~= text);
    }
    if forall|i: int| 0 <= i < bytes.len() ==> #[trigger] bytes[i] < 128 {
        let shown = ascii_text(bytes);
        assert(vstd::utf8::is_ascii_chars(shown));
        vstd::utf8::is_ascii_chars_encode_utf8(shown);
        vstd::utf8::encode_utf8_decode_utf8(shown);
        assert(vstd::utf8::encode_utf8(shown) =~= bytes);
    }
}

/// Reads the text that stands, as UTF-8, in URL-safe base64 without padding.
pub fn decode_text(text: &str) -> (r: Result<String, TextError>)
    ensures
        match r {
            Ok(s) => encoded_text(text@) == Ok::<Seq<char>, TextError>(s@),
            Err(e) => encoded_text(text@) == Err::<Seq<char>, TextError>(e),
        },
{
    let encoded = text.as_bytes();
    let ghost shown = ascii_text(encoded@);
    match base64url_decode(encoded) {
        Ok(bytes) => {
            proof {
                lemma_base64url_shape(bytes@);
                assert forall|i: int| 0 <= i < encoded@.len() implies #[trigger] encoded@[i]
                    < 128 by {
                    assert(base64url_char(shown[i]));
                }
                lemma_ascii_bytes(text@);
                law_base64url_is_injective(bytes@, base64url_bytes(text@));
            }
            match String::from_utf8(bytes) {
                Ok(s) => Ok(s),
                Err(_) => Err(TextError::Utf8),
            }
        },
        Err(_) => {
            proof {
                if is_base64url(text@) {
                    let bytes = base64url_bytes(text@);
                    lemma_base64url_shape(bytes);
                    assert forall|i: int| 0 <= i < text@.len() implies (#[trigger] text@[i] as nat)
                        < 128 by {
                        assert(base64url_char(base64url_text(bytes)[i]));
                    }
                    lemma_ascii_bytes(text@);
                }
            }
            Err(TextError::Base64)
        },
    }
}

// ---- laws ----

/// A text that was put into URL-safe base64 is read back.
pub proof fn law_encoded_text_reads_back(text: Seq<char>)
    ensures
        encoded_text(base64url_text(vstd::utf8::encode_utf8(text))) == Ok::<Seq<char>, TextError>(
            text,
        ),
{
    let bytes = vstd::utf8::encode_utf8(text);
    let encoded = base64url_text(bytes);
    assert(is_base64url(encoded));
    law_base64url_is_injective(bytes, base64url_bytes(encoded));
    vstd::utf8::encode_utf8_valid_utf8(text);
    vstd::utf8::encode_utf8_decode_utf8(text);
}

/// A remember token is 43 symbols of the URL-safe alphabet; so trimming leaves it as it is, and a
/// cookie can carry it.
pub proof fn law_remember_token_is_plain(token: Seq<char>)
    requires
        is_remember_token(token),
    ensures
        token.len() == 43,
        forall|i: int| 0 <= i < token.len() ==> base64url_char(#[trigger] token[i]),
        trimmed(token) == token,
        cookie_text(token),
        printable(token),
{
    let bytes = choose|bytes: Seq<u8>|
        bytes.len() == 32 && token == #[trigger] base64url_text(bytes);
    lemma_base64url_shape(bytes);
    assert(base64url_char(token[0]) && base64url_char(token[42]));
    law_tight_is_trimmed(token);
    if token.contains(';') {
        let k = choose|k: int| 0 <= k < token.len() && token[k] == ';';
        assert(base64url_char(token[k]));
    }
}

/// No two byte sequences have the same hexadecimal text.
pub proof fn law_hex_is_injective(a: Seq<u8>, b: Seq<u8>)
    requires
        hex_text(a) == hex_text(b),
    ensures
        a == b,
{
    assert(hex_text(a).len() == 2 * a.len());
    assert(hex_text(b).len() == 2 * b.len());
    assert forall|i: int| 0 <= i < a.len() implies a[i] == b[i] by {
        let (s, t) = (hex_text(a), hex_text(b));
        assert(s[2 * i] == hex_digit(a[i] as int / 16) && t[2 * i] == hex_digit(b[i] as int / 16));
        assert(s[2 * i + 1] == hex_digit(a[i] as int % 16) && t[2 * i + 1] == hex_digit(
            b[i] as int % 16,
        ));
    }
    assert(a =~= b);
}

/// A text that cannot be read is told apart by why: it is the base64 of no bytes, or of bytes that
/// are not UTF-8.
pub proof fn law_unreadable_text_is_told_apart(text: Seq<char>, bytes: Seq<u8>)
    ensures
        (forall|b: Seq<u8>| #[trigger] base64url_text(b) != text) <==> encoded_text(text) == Err::<
            Seq<char>,
            TextError,
        >(TextError::Base64),
        text == base64url_text(bytes) && !valid_utf8(bytes) ==> encoded_text(text) == Err::<
            Seq<char>,
            TextError,
        >(TextError::Utf8),
        text == base64url_text(bytes) && valid_utf8(bytes) ==> encoded_text(text) == Ok::<
            Seq<char>,
            TextError,
        >(decode_utf8(bytes)),
{
    if text == base64url_text(bytes) {
        law_base64url_is_injective(bytes, base64url_bytes(text));
    }
}

/// What a hexadecimal digit in lower case stands for.
pub open spec fn hex_value(c: char) -> int {
    if '0' <= c <= '9' {
        c as int - '0' as int
    } else {
        c as int - 'a' as int + 10
    }
}

/// The digest of a text is that of its bytes in UTF-8, all of them and no others, and its
/// hexadecimal digits give it back: two for each byte, the high one first.
pub proof fn law_digest_is_of_the_whole_text(text: Seq<char>)
    ensures
        ({
            let digest = sha256_digest(vstd::utf8::encode_utf8(text));
            &&& sha256_hex_of(text).len() == 2 * digest.len()
            &&& forall|i: int|
                0 <= i < digest.len() ==> #[trigger] digest[i] as int == 16 * hex_value(
                    sha256_hex_of(text)[2 * i],
                ) + hex_value(sha256_hex_of(text)[2 * i + 1])
            &&& forall|i: int|
                0 <= i < sha256_hex_of(text).len() ==> lower_hex(#[trigger] sha256_hex_of(text)[i])
        }),
{
}

} // verus!
