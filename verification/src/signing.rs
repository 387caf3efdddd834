//! Request signing for object-storage uploads: HMAC digests, their hex and
//! base64 encodings, and the provider-specific signature derivations built
//! from them.  The hash and encoding primitives come from outside crates
//! and are trusted; the derivations on top of them are verified.

use vstd::prelude::*;

use base64::Engine;
use hmac::{KeyInit, Mac};
use sha1::Digest;

verus! {

/// The UTF-8 bytes of a string view.
pub open spec fn utf8_bytes(s: Seq<char>) -> Seq<u8> {
    vstd::utf8::encode_utf8(s)
}

/// The HMAC-SHA1 of `data` under `key`.
pub uninterp spec fn hmac_sha1_of(key: Seq<u8>, data: Seq<u8>) -> Seq<u8>;

/// Relies on `hmac::Hmac<sha1::Sha1>`: the tag depends on key and data
/// alone and is 20 bytes, the SHA-1 output size.
#[verifier::external_body]
pub fn hmac_sha1(key: &[u8], data: &[u8]) -> (r: Vec<u8>)
    ensures
        r@ == hmac_sha1_of(key@, data@),
        r@.len() == 20,
{
    let mut mac = hmac::Hmac::<sha1::Sha1>::new_from_slice(key)
        .expect("HMAC accepts keys of any length");
    mac.update(data);
    mac.finalize().into_bytes().to_vec()
}

/// The HMAC-SHA256 of `data` under `key`.
pub uninterp spec fn hmac_sha256_of(key: Seq<u8>, data: Seq<u8>) -> Seq<u8>;

/// Relies on `hmac::Hmac<sha2::Sha256>`: the tag depends on key and data
/// alone and is 32 bytes, the SHA-256 output size.
#[verifier::external_body]
pub fn hmac_sha256(key: &[u8], data: &[u8]) -> (r: Vec<u8>)
    ensures
        r@ == hmac_sha256_of(key@, data@),
        r@.len() == 32,
{
    let mut mac = hmac::Hmac::<sha2::Sha256>::new_from_slice(key)
        .expect("HMAC accepts keys of any length");
    mac.update(data);
    mac.finalize().into_bytes().to_vec()
}

/// The SHA-1 digest of `data`.
pub uninterp spec fn sha1_of(data: Seq<u8>) -> Seq<u8>;

/// Relies on `sha1::Sha1`: the digest depends on the data alone and is 20
/// bytes.
#[verifier::external_body]
pub fn sha1_digest(data: &[u8]) -> (r: Vec<u8>)
    ensures
        r@ == sha1_of(data@),
        r@.len() == 20,
{
    sha1::Sha1::digest(data).to_vec()
}

/// The SHA-256 digest of `data`.
pub uninterp spec fn sha256_of(data: Seq<u8>) -> Seq<u8>;

/// Relies on `sha2::Sha256`: the digest depends on the data alone and is
/// 32 bytes.
#[verifier::external_body]
pub fn sha256_digest(data: &[u8]) -> (r: Vec<u8>)
    ensures
        r@ == sha256_of(data@),
        r@.len() == 32,
{
    sha2::Sha256::digest(data).to_vec()
}

/// The lower-case hex encoding of `data`.
pub uninterp spec fn hex_of(data: Seq<u8>) -> Seq<char>;

/// Relies on `hex::encode`: two lower-case hex digits for each byte, a
/// function of the data alone.
#[verifier::external_body]
pub fn hex_encode(data: &[u8]) -> (r: String)
    ensures
        r@ == hex_of(data@),
        r@.len() == 2 * data@.len(),
{
    hex::encode(data)
}

/// The standard-alphabet base64 encoding of `data`, with padding.
pub uninterp spec fn base64_std_of(data: Seq<u8>) -> Seq<char>;

/// Relies on `base64::engine::general_purpose::STANDARD`: the encoding is
/// a function of the data alone.
#[verifier::external_body]
pub fn base64_standard(data: &[u8]) -> (r: String)
    ensures
        r@ == base64_std_of(data@),
{
    base64::engine::general_purpose::STANDARD.encode(data)
}

/// The URL-safe-alphabet base64 encoding of `data`, with padding.
pub uninterp spec fn base64_url_of(data: Seq<u8>) -> Seq<char>;

/// Relies on `base64::engine::general_purpose::URL_SAFE`: the encoding is
/// a function of the data alone.
#[verifier::external_body]
pub fn base64_urlsafe(data: &[u8]) -> (r: String)
    ensures
        r@ == base64_url_of(data@),
{
    base64::engine::general_purpose::URL_SAFE.encode(data)
}

/// The lower-case hex form of the SHA-256 digest of `data`, as request
/// signing uses for payload hashes.
pub fn sha256_hex(data: &[u8]) -> (r: String)
    ensures
        r@ == hex_of(sha256_of(data@)),
{
    let digest = sha256_digest(data);
    hex_encode(digest.as_slice())
}

/// The signing key of the AWS Signature Version 4 scheme: four chained
/// HMAC-SHA256 applications over date, region, service and the fixed
/// terminator.
pub open spec fn aws_signing_key_spec(
    secret_key: Seq<char>,
    date: Seq<char>,
    region: Seq<char>,
    service: Seq<char>,
) -> Seq<u8> {
    let k_date = hmac_sha256_of(utf8_bytes("AWS4"@ + secret_key), utf8_bytes(date));
    let k_region = hmac_sha256_of(k_date, utf8_bytes(region));
    let k_service = hmac_sha256_of(k_region, utf8_bytes(service));
    hmac_sha256_of(k_service, utf8_bytes("aws4_request"@))
}

/// Derive the AWS Signature Version 4 signing key.
pub fn aws_derive_signing_key(secret_key: &str, date: &str, region: &str, service: &str) -> (r:
    Vec<u8>)
    ensures
        r@ == aws_signing_key_spec(secret_key@, date@, region@, service@),
{
    let mut prefixed = "AWS4".to_owned();
    prefixed.push_str(secret_key);
    let k_date = hmac_sha256(prefixed.as_str().as_bytes(), date.as_bytes());
    let k_region = hmac_sha256(k_date.as_slice(), region.as_bytes());
    let k_service = hmac_sha256(k_region.as_slice(), service.as_bytes());
    hmac_sha256(k_service.as_slice(), "aws4_request".as_bytes())
}

/// The final hex signature of the AWS Signature Version 4 scheme, also
/// used by the Google Cloud Storage HMAC V4 scheme.
pub fn sigv4_signature(signing_key: &[u8], string_to_sign: &str) -> (r: String)
    ensures
        r@ == hex_of(hmac_sha256_of(signing_key@, utf8_bytes(string_to_sign@))),
{
    let tag = hmac_sha256(signing_key, string_to_sign.as_bytes());
    hex_encode(tag.as_slice())
}

/// The upload token of the Qiniu Kodo form-upload scheme:
/// `access_key:base64url(hmac_sha1(secret_key, policy)):policy` over the
/// already base64url-encoded put policy.
pub fn qiniu_upload_token(access_key: &str, secret_key: &str, encoded_policy: &str) -> (r: String)
    ensures
        r@ == access_key@ + seq![':'] + base64_url_of(
            hmac_sha1_of(utf8_bytes(secret_key@), utf8_bytes(encoded_policy@)),
        ) + seq![':'] + encoded_policy@,
{
    let sign = hmac_sha1(secret_key.as_bytes(), encoded_policy.as_bytes());
    let encoded_sign = base64_urlsafe(sign.as_slice());
    let mut token = access_key.to_owned();
    token.push(':');
    token.push_str(encoded_sign.as_str());
    token.push(':');
    token.push_str(encoded_policy);
    token
}

/// The Aliyun OSS v1 signature: standard base64 of the HMAC-SHA1 of the
/// string to sign under the secret key.
pub fn aliyun_oss_signature(secret_key: &str, string_to_sign: &str) -> (r: String)
    ensures
        r@ == base64_std_of(hmac_sha1_of(utf8_bytes(secret_key@), utf8_bytes(string_to_sign@))),
{
    let sign = hmac_sha1(secret_key.as_bytes(), string_to_sign.as_bytes());
    base64_standard(sign.as_slice())
}

/// The string-to-sign of the Tencent COS scheme over a sign-time window
/// and the hex SHA-1 of the canonical request.
pub open spec fn cos_string_to_sign(sign_time: Seq<char>, http_string: Seq<char>) -> Seq<char> {
    "sha1\n"@ + sign_time + seq!['\n'] + hex_of(sha1_of(utf8_bytes(http_string))) + seq!['\n']
}

/// The Tencent COS request signature: HMAC-SHA1 under the hex sign key
/// derived from the secret key and the sign-time window, over the
/// canonical string to sign, hex-encoded.
pub fn tencent_cos_signature(secret_key: &str, sign_time: &str, http_string: &str) -> (r: String)
    ensures
        r@ == hex_of(
            hmac_sha1_of(
                utf8_bytes(hex_of(hmac_sha1_of(utf8_bytes(secret_key@), utf8_bytes(sign_time@)))),
                utf8_bytes(cos_string_to_sign(sign_time@, http_string@)),
            ),
        ),
{
    let sign_key = hmac_sha1(secret_key.as_bytes(), sign_time.as_bytes());
    let sign_key_hex = hex_encode(sign_key.as_slice());
    let http_hash = sha1_digest(http_string.as_bytes());
    let http_hash_hex = hex_encode(http_hash.as_slice());
    let mut string_to_sign = "sha1\n".to_owned();
    string_to_sign.push_str(sign_time);
    string_to_sign.push('\n');
    string_to_sign.push_str(http_hash_hex.as_str());
    string_to_sign.push('\n');
    proof {
        assert(string_to_sign@ =~= cos_string_to_sign(sign_time@, http_string@));
    }
    let tag = hmac_sha1(sign_key_hex.as_str().as_bytes(), string_to_sign.as_str().as_bytes());
    hex_encode(tag.as_slice())
}

/// The Qiniu Kodo form-upload endpoint for a storage region; unknown
/// regions fall back to the default endpoint.
pub fn qiniu_upload_endpoint(region: &str) -> (r: &'static str)
    ensures
        r@ == if region@ == "z0"@ || region@ == "cn-east-1"@ {
            "https://up.qiniup.com"@
        } else if region@ == "z1"@ || region@ == "cn-north-1"@ {
            "https://up-z1.qiniup.com"@
        } else if region@ == "z2"@ || region@ == "cn-south-1"@ {
            "https://up-z2.qiniup.com"@
        } else if region@ == "na0"@ || region@ == "us-north-1"@ {
            "https://up-na0.qiniup.com"@
        } else if region@ == "as0"@ || region@ == "ap-southeast-1"@ {
            "https://up-as0.qiniup.com"@
        } else {
            "https://up.qiniup.com"@
        },
{
    if crate::text::str_equal(region, "z0") || crate::text::str_equal(region, "cn-east-1") {
        "https://up.qiniup.com"
    } else if crate::text::str_equal(region, "z1") || crate::text::str_equal(region, "cn-north-1") {
        "https://up-z1.qiniup.com"
    } else if crate::text::str_equal(region, "z2") || crate::text::str_equal(region, "cn-south-1") {
        "https://up-z2.qiniup.com"
    } else if crate::text::str_equal(region, "na0") || crate::text::str_equal(region, "us-north-1") {
        "https://up-na0.qiniup.com"
    } else if crate::text::str_equal(region, "as0") || crate::text::str_equal(
        region,
        "ap-southeast-1",
    ) {
        "https://up-as0.qiniup.com"
    } else {
        "https://up.qiniup.com"
    }
}

} // verus!
