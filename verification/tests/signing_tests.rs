use moraya_core::signing::{
    aliyun_oss_signature, aws_derive_signing_key, base64_standard, base64_urlsafe, hex_encode,
    hmac_sha1, hmac_sha256, qiniu_upload_endpoint, qiniu_upload_token, sha1_digest,
    sha256_digest, sha256_hex, sigv4_signature, tencent_cos_signature,
};

#[test]
fn hmac_sha1_known_vector() {
    let tag = hmac_sha1(b"Jefe", b"what do ya want for nothing?");
    assert_eq!(hex_encode(&tag), "effcdf6ae5eb2fa2d27416d5f184df9c259a7c79");
}

#[test]
fn hmac_sha256_known_vector() {
    let tag = hmac_sha256(b"Jefe", b"what do ya want for nothing?");
    assert_eq!(
        hex_encode(&tag),
        "5bdcc146bf60754e6a042426089575c75a003f089d2739839dec58b964ec3843"
    );
}

#[test]
fn sha_digests_known_vectors() {
    assert_eq!(hex_encode(&sha1_digest(b"abc")), "a9993e364706816aba3e25717850c26c9cd0d89d");
    assert_eq!(
        hex_encode(&sha256_digest(b"abc")),
        "ba7816bf8f01cfea414140de5dae2223b00361a396177a9cb410ff61f20015ad"
    );
    assert_eq!(
        sha256_hex(b"abc"),
        "ba7816bf8f01cfea414140de5dae2223b00361a396177a9cb410ff61f20015ad"
    );
}

#[test]
fn hex_encodes_lower_case() {
    assert_eq!(hex_encode(&[0xde, 0xad, 0xbe, 0xef]), "deadbeef");
    assert_eq!(hex_encode(&[]), "");
}

#[test]
fn base64_alphabets_differ() {
    assert_eq!(base64_standard(b"hello world"), "aGVsbG8gd29ybGQ=");
    assert_eq!(base64_standard(&[0xff, 0xe0, 0xfe]), "/+D+");
    assert_eq!(base64_urlsafe(&[0xff, 0xe0, 0xfe]), "_-D-");
}

#[test]
fn aws_signing_key_matches_reference() {
    let key = aws_derive_signing_key(
        "wJalrXUtnFEMI/K7MDENG+bPxRfiCYEXAMPLEKEY",
        "20120215",
        "us-east-1",
        "iam",
    );
    assert_eq!(
        hex_encode(&key),
        "f4780e2d9f65fa895f9c67b32ce1baf0b0d8a43505a000a1a9e090d414db404d"
    );
}

#[test]
fn sigv4_signature_is_hex_hmac() {
    assert_eq!(
        sigv4_signature(&[0xaa, 0xbb, 0xcc], "string-to-sign"),
        "e6d4839b1eec3cde6147986de01837d9ff9213f449dd38015618b418316e6356"
    );
}

#[test]
fn qiniu_token_has_three_signed_parts() {
    let token = qiniu_upload_token("accessk", "secretk", "eyJzY29wZSI6ImIifQ==");
    assert_eq!(token, "accessk:NfyecegZlcdaR8knAOf86N0rd6g=:eyJzY29wZSI6ImIifQ==");
}

#[test]
fn aliyun_signature_matches_reference() {
    let sts = "PUT\n\ntext/plain\nWed, 01 Jan 2025\n/bucket/key";
    assert_eq!(aliyun_oss_signature("sek", sts), "2MsjM+MGM4pFcyogqvd/zuCoCx0=");
}

#[test]
fn tencent_cos_signature_matches_reference() {
    let http_string = "put\n/key\n\ncontent-type:text/plain\nhost:h\n\ncontent-type;host";
    assert_eq!(
        tencent_cos_signature("cossecret", "1000;2000", http_string),
        "cca0be3e421a13127b5bd97131fd425fe0b69472"
    );
}

#[test]
fn qiniu_endpoints_by_region() {
    assert_eq!(qiniu_upload_endpoint("z0"), "https://up.qiniup.com");
    assert_eq!(qiniu_upload_endpoint("cn-east-1"), "https://up.qiniup.com");
    assert_eq!(qiniu_upload_endpoint("z1"), "https://up-z1.qiniup.com");
    assert_eq!(qiniu_upload_endpoint("z2"), "https://up-z2.qiniup.com");
    assert_eq!(qiniu_upload_endpoint("na0"), "https://up-na0.qiniup.com");
    assert_eq!(qiniu_upload_endpoint("ap-southeast-1"), "https://up-as0.qiniup.com");
    assert_eq!(qiniu_upload_endpoint("nowhere"), "https://up.qiniup.com");
}
