//! The outside computations the client relies on: digests, the signature's MAC and
//! encoding, the clock, and percent-decoding.

use vstd::prelude::*;
use crypto::digest::Digest;
use crypto::mac::Mac;

verus! {

/// The MD5 digest of the UTF-8 bytes of `data`, as lowercase hexadecimal text.
pub uninterp spec fn md5_hex(data: Seq<char>) -> Seq<char>;

/// The HMAC-SHA1 code of `msg` under `key`.
pub uninterp spec fn hmac_sha1(key: Seq<u8>, msg: Seq<u8>) -> Seq<u8>;

/// The character of the standard Base64 alphabet for the six-bit value `v`.
pub open spec fn base64_char(v: nat) -> char {
    if v < 26 {
        ((65 + v) as u8) as char
    } else if v < 52 {
        ((97 + v - 26) as u8) as char
    } else if v < 62 {
        ((48 + v - 52) as u8) as char
    } else if v == 62 {
        '+'
    } else {
        '/'
    }
}

/// The standard Base64 encoding of `data`, with padding: every three bytes become four
/// characters of six bits each, and a last group of one or two bytes is padded with `=`.
pub open spec fn base64_spec(d: Seq<u8>) -> Seq<char>
    decreases d.len(),
{
    if d.len() == 0 {
        Seq::<char>::empty()
    } else if d.len() == 1 {
        seq![base64_char((d[0] / 4) as nat), base64_char(((d[0] % 4) * 16) as nat), '=', '=']
    } else if d.len() == 2 {
        seq![
            base64_char((d[0] / 4) as nat),
            base64_char(((d[0] % 4) * 16 + d[1] / 16) as nat),
            base64_char(((d[1] % 16) * 4) as nat),
            '=',
        ]
    } else {
        seq![
            base64_char((d[0] / 4) as nat),
            base64_char(((d[0] % 4) * 16 + d[1] / 16) as nat),
            base64_char(((d[1] % 16) * 4 + d[2] / 64) as nat),
            base64_char((d[2] % 64) as nat),
        ] + base64_spec(d.skip(3))
    }
}

/// Whether `c` is a lowercase hexadecimal digit.
pub open spec fn is_lower_hex(c: char) -> bool {
    ('0' <= c <= '9') || ('a' <= c <= 'f')
}

/// The MD5 digest of `data` in hex; a wrapper of rust-crypto's `Md5` (`new`, `input`,
/// `result_str`). Its source hashes the UTF-8 bytes of `data` and writes the 16 bytes of
/// the digest as 32 lowercase hexadecimal digits.
#[verifier::external_body]
pub(crate) fn compute_md5(data: &str) -> (r: String)
    ensures
        r@ == md5_hex(data@),
        r@.len() == 32,
        forall|i: int| 0 <= i < r@.len() ==> is_lower_hex(#[trigger] r@[i]),
{
    let mut md5 = crypto::md5::Md5::new();
    md5.input(data.as_bytes());
    md5.result_str()
}

/// The HMAC-SHA1 code of `msg` under `key`; a wrapper of rust-crypto's
/// `Hmac::new(Sha1::new(), key)`, `input` and `result().code()`. SHA1 codes are 20 bytes.
#[verifier::external_body]
pub(crate) fn hmac_sha1_code(key: &[u8], msg: &[u8]) -> (r: Vec<u8>)
    ensures
        r@ == hmac_sha1(key@, msg@),
        r@.len() == 20,
{
    let mut mac = crypto::hmac::Hmac::new(crypto::sha1::Sha1::new(), key);
    mac.input(msg);
    mac.result().code().to_vec()
}

/// The standard Base64 text of `data`; a wrapper of `base64::encode`, which encodes with
/// the standard alphabet and pads the last group with `=`, as `base64_spec` says.
#[verifier::external_body]
pub(crate) fn base64_encode(data: &[u8]) -> (r: String)
    ensures
        r@ == base64_spec(data@),
{
    base64::encode(data)
}

/// The current time in milliseconds since the Unix epoch; a wrapper of chrono's
/// `Utc::now().timestamp_millis()`. It reads the clock, so nothing is promised of it.
#[verifier::external_body]
pub(crate) fn now_millis() -> i64 {
    chrono::Utc::now().timestamp_millis()
}

/// The value of the hexadecimal digit `b`, as `char::to_digit(16)` reads it.
pub open spec fn hex_value(b: u8) -> Option<nat> {
    if 48 <= b <= 57 {
        Some((b - 48) as nat)
    } else if 97 <= b <= 102 {
        Some((b - 87) as nat)
    } else if 65 <= b <= 70 {
        Some((b - 55) as nat)
    } else {
        None
    }
}

/// Percent-decoding of bytes: `%` and two hexadecimal digits stand for the byte they
/// spell, and every other byte stands for itself.
pub open spec fn percent_decode_spec(b: Seq<u8>) -> Seq<u8>
    decreases b.len(),
{
    if b.len() == 0 {
        b
    } else if b[0] == 37 && b.len() >= 3 && hex_value(b[1]) is Some && hex_value(b[2]) is Some {
        seq![(hex_value(b[1])->Some_0 * 16 + hex_value(b[2])->Some_0) as u8]
            + percent_decode_spec(b.skip(3))
    } else {
        seq![b[0]] + percent_decode_spec(b.drop_first())
    }
}

/// The text that the percent-encoded `s` stands for, if its bytes are UTF-8; a wrapper
/// of `percent_encoding::percent_decode` and `PercentDecode::decode_utf8`, whose source
/// decodes as `percent_decode_spec` says and then checks the bytes as `str::from_utf8`.
#[verifier::external_body]
pub(crate) fn percent_decode_utf8(s: &str) -> (r: Option<String>)
    ensures
        r is Some <==> vstd::utf8::valid_utf8(percent_decode_spec(vstd::utf8::encode_utf8(s@))),
        r matches Some(t) ==> t@ == vstd::utf8::decode_utf8(
            percent_decode_spec(vstd::utf8::encode_utf8(s@)),
        ),
{
    match percent_encoding::percent_decode(s.as_bytes()).decode_utf8() {
        Ok(text) => Some(text.into_owned()),
        Err(_) => None,
    }
}

} // verus!
