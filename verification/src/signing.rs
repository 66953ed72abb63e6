//! The `sign` header of the SwitchBot API v1.1: the upper-cased Base64 text of
//! HMAC-SHA256 over `token + t + nonce`, keyed by the secret.
use base64::Engine;
use hmac::Mac;
use vstd::prelude::*;
use crate::text::{chars_of, concat, push_char, signed_decimal, signed_decimal_string};

verus! {

/// A name for the 32-byte HMAC-SHA256 tag of the UTF-8 bytes of `data`,
/// keyed by the UTF-8 bytes of `key`.
pub uninterp spec fn hmac_sha256_of(key: Seq<char>, data: Seq<char>) -> Seq<u8>;

/// Calls `Hmac::<Sha256>::new_from_slice`, `Mac::update` and `Mac::finalize`
/// (crates hmac and sha2) on the UTF-8 bytes of `key` and `data`.
/// Claimed: the tag is a function of `key` and `data` alone, and is 32 bytes
/// long (SHA-256's output size). `new_from_slice` of `HmacCore` accepts keys
/// of every length (it hashes long keys), so its error arm is never taken.
#[verifier::external_body]
fn hmac_sha256(key: &str, data: &str) -> (mac: Vec<u8>)
    ensures
        mac@ == hmac_sha256_of(key@, data@),
        mac@.len() == 32,
{
    match hmac::Hmac::<sha2::Sha256>::new_from_slice(key.as_bytes()) {
        Ok(mut m) => {
            m.update(data.as_bytes());
            m.finalize().into_bytes().to_vec()
        },
        Err(_) => Vec::new(),
    }
}

/// The character of the 6-bit value `v` in the standard Base64 alphabet (RFC 4648).
pub open spec fn base64_char(v: int) -> char {
    if v < 26 {
        (65 + v) as char
    } else if v < 52 {
        (97 + v - 26) as char
    } else if v < 62 {
        (48 + v - 52) as char
    } else if v == 62 {
        '+'
    } else {
        '/'
    }
}

/// Standard Base64 with `=` padding (RFC 4648, section 4): each group of
/// three bytes becomes four characters; a final group of one or two bytes is
/// padded to four characters with `=`.
pub open spec fn base64_encoding(b: Seq<u8>) -> Seq<char>
    decreases b.len(),
{
    if b.len() == 0 {
        seq![]
    } else if b.len() == 1 {
        seq![base64_char((b[0] as int) / 4), base64_char(((b[0] as int) % 4) * 16), '=', '=']
    } else if b.len() == 2 {
        seq![
            base64_char((b[0] as int) / 4),
            base64_char(((b[0] as int) % 4) * 16 + (b[1] as int) / 16),
            base64_char(((b[1] as int) % 16) * 4),
            '=',
        ]
    } else {
        seq![
            base64_char((b[0] as int) / 4),
            base64_char(((b[0] as int) % 4) * 16 + (b[1] as int) / 16),
            base64_char(((b[1] as int) % 16) * 4 + (b[2] as int) / 64),
            base64_char((b[2] as int) % 64),
        ] + base64_encoding(b.skip(3))
    }
}

/// Calls `base64::engine::general_purpose::STANDARD.encode` (crate base64).
/// Claimed: the result is the standard Base64 text of `bytes` with padding.
#[verifier::external_body]
fn base64_standard(bytes: &[u8]) -> (s: String)
    ensures
        s@ == base64_encoding(bytes@),
{
    base64::engine::general_purpose::STANDARD.encode(bytes)
}

/// The length of standard Base64 text: four characters per started group of three bytes.
pub proof fn lemma_base64_length(b: Seq<u8>)
    ensures
        base64_encoding(b).len() == 4 * ((b.len() + 2) / 3),
    decreases b.len(),
{
    if b.len() >= 3 {
        lemma_base64_length(b.skip(3));
    }
}

/// A character of the standard Base64 alphabet or the padding `=`.
pub open spec fn is_base64_text_char(c: char) -> bool {
    ||| 'A' <= c <= 'Z'
    ||| 'a' <= c <= 'z'
    ||| '0' <= c <= '9'
    ||| c == '+'
    ||| c == '/'
    ||| c == '='
}

/// Every character of standard Base64 text is in the alphabet or is `=`.
pub proof fn lemma_base64_alphabet(b: Seq<u8>)
    ensures
        forall|i: int|
            0 <= i < base64_encoding(b).len() ==> is_base64_text_char(
                #[trigger] base64_encoding(b)[i],
            ),
    decreases b.len(),
{
    if b.len() >= 3 {
        lemma_base64_alphabet(b.skip(3));
        let head = seq![
            base64_char((b[0] as int) / 4),
            base64_char(((b[0] as int) % 4) * 16 + (b[1] as int) / 16),
            base64_char(((b[1] as int) % 16) * 4 + (b[2] as int) / 64),
            base64_char((b[2] as int) % 64),
        ];
        assert forall|i: int| 0 <= i < base64_encoding(b).len() implies is_base64_text_char(
            #[trigger] base64_encoding(b)[i],
        ) by {
            if i >= 4 {
                assert(base64_encoding(b)[i] == base64_encoding(b.skip(3))[i - 4]);
            }
        }
    }
}

/// An ASCII lowercase letter.
pub open spec fn is_ascii_lowercase(c: char) -> bool {
    'a' <= c <= 'z'
}

/// `c` with an ASCII lowercase letter made uppercase.
pub open spec fn ascii_upper(c: char) -> char {
    if is_ascii_lowercase(c) {
        ((c as u32) - 32) as char
    } else {
        c
    }
}

/// `s` with every ASCII lowercase letter made uppercase.
pub open spec fn ascii_upper_text(s: Seq<char>) -> Seq<char> {
    Seq::new(s.len(), |i: int| ascii_upper(s[i]))
}

/// `s` with every ASCII lowercase letter made uppercase, all other
/// characters unchanged (on ASCII text this is `str::to_uppercase`).
pub fn uppercase_ascii(s: &str) -> (r: String)
    ensures
        r@ == ascii_upper_text(s@),
{
    let v = chars_of(s);
    let mut r = String::new();
    for i in 0..v.len()
        invariant
            v@ == s@,
            r@ == ascii_upper_text(s@).take(i as int),
    {
        let c = v[i];
        let u = if 'a' <= c && c <= 'z' {
            ((c as u32) - 32) as u8 as char
        } else {
            c
        };
        assert(u == ascii_upper(c)) by {
            if 'a' <= c && c <= 'z' {
                assert((((c as u32) - 32) as u8 as char) == (((c as u32) - 32) as char));
            }
        }
        push_char(&mut r, u);
        assert(ascii_upper_text(s@).take(i + 1) == ascii_upper_text(s@).take(i as int).push(u));
    }
    assert(ascii_upper_text(s@).take(v.len() as int) == ascii_upper_text(s@));
    r
}

/// The signed text: the token, the decimal timestamp and the nonce, concatenated.
pub open spec fn sign_payload_text(token: Seq<char>, t: int, nonce: Seq<char>) -> Seq<char> {
    token + signed_decimal(t) + nonce
}

/// `format!("{}{}{}", token, t, nonce)`: the text that the signature covers.
pub fn sign_payload(token: &str, t: i64, nonce: &str) -> (p: String)
    ensures
        p@ == sign_payload_text(token@, t as int, nonce@),
{
    let ts = signed_decimal_string(t);
    let mut p = concat(token, ts.as_str());
    p.append(nonce);
    p
}

/// The value of the `sign` header (SwitchBot API v1.1): the upper-cased
/// standard Base64 text of HMAC-SHA256 over `token + t + nonce` keyed by
/// `secret`. It is 44 characters long and holds no lowercase letter.
pub fn compute_sign(token: &str, secret: &str, t: i64, nonce: &str) -> (sign: String)
    ensures
        sign@ == ascii_upper_text(
            base64_encoding(hmac_sha256_of(secret@, sign_payload_text(token@, t as int, nonce@))),
        ),
        sign@.len() == 44,
        forall|i: int| 0 <= i < sign@.len() ==> !is_ascii_lowercase(#[trigger] sign@[i]),
{
    let data = sign_payload(token, t, nonce);
    let mac = hmac_sha256(secret, data.as_str());
    let encoded = base64_standard(mac.as_slice());
    proof {
        lemma_base64_length(mac@);
    }
    uppercase_ascii(encoded.as_str())
}

/// The signed text is the token, then the timestamp in decimal, then the
/// nonce.
pub proof fn law_sign_payload_order(token: Seq<char>, t: int, nonce: Seq<char>)
    ensures
        sign_payload_text(token, t, nonce).take(token.len() as int) == token,
        sign_payload_text(token, t, nonce).skip(
            sign_payload_text(token, t, nonce).len() - nonce.len(),
        ) == nonce,
        sign_payload_text(token, t, nonce).subrange(
            token.len() as int,
            sign_payload_text(token, t, nonce).len() - nonce.len(),
        ) == signed_decimal(t),
{
    let p = sign_payload_text(token, t, nonce);
    assert(p.take(token.len() as int) =~= token);
    assert(p.skip(p.len() - nonce.len()) =~= nonce);
    assert(p.subrange(token.len() as int, p.len() - nonce.len()) =~= signed_decimal(t));
}

} // verus!
