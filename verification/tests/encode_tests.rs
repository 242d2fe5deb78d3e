use commit_vanity::condition::Condition;
use commit_vanity::digest::{bytes_to_hex, sha1_hex};
use commit_vanity::encode::{
    build_trial_identity, check_commit_with_nonce, encode_commit, CommitTemplate,
};
use sha1::{Digest, Sha1};

fn reference_sha1_hex(bytes: &[u8]) -> Vec<u8> {
    let digest = Sha1::digest(bytes);
    let mut out = String::new();
    for b in digest.as_slice() {
        out.push_str(&format!("{:02x}", b));
    }
    out.into_bytes()
}

#[test]
fn trial_identity_is_hex_underscore_name() {
    assert_eq!(build_trial_identity(26, &b"Alice".to_vec()), b"1a_Alice".to_vec());
    assert_eq!(build_trial_identity(0, &b"Bob".to_vec()), b"0_Bob".to_vec());
}

#[test]
fn encoder_produces_the_exact_framed_bytes() {
    let header = b"tree abc\ncommitter Alice <a@x.com> 0 +0000\n".to_vec();
    let message = b"hello\n".to_vec();
    let name = b"Alice".to_vec();
    let encoded = encode_commit(&header, &message, &name, 26).unwrap();

    let body = b"tree abc\ncommitter 1a_Alice <a@x.com> 0 +0000\n\nhello\n".to_vec();
    let mut expected = format!("commit {}", body.len()).into_bytes();
    expected.push(0);
    expected.extend_from_slice(&body);
    assert_eq!(encoded, expected);
}

#[test]
fn encoder_is_pure() {
    let header = b"tree abc\ncommitter Alice <a@x.com> 0 +0000\n".to_vec();
    let message = b"hi\n".to_vec();
    let name = b"Alice".to_vec();
    let a = encode_commit(&header, &message, &name, 12345);
    let b = encode_commit(&header, &message, &name, 12345);
    assert_eq!(a, b);
    assert!(a.is_some());
}

#[test]
fn encoder_replaces_the_last_occurrence() {
    // The name appears both in the author line and in the committer line:
    // only the rightmost occurrence is replaced.
    let header = b"tree t\nauthor Al <a@x.com> 0 +0000\ncommitter Al <a@x.com> 0 +0000\n".to_vec();
    let message = b"m\n".to_vec();
    let encoded = encode_commit(&header, &message, &b"Al".to_vec(), 1).unwrap();
    let body = b"tree t\nauthor Al <a@x.com> 0 +0000\ncommitter 1_Al <a@x.com> 0 +0000\n\nm\n";
    let mut expected = format!("commit {}", body.len()).into_bytes();
    expected.push(0);
    expected.extend_from_slice(body);
    assert_eq!(encoded, expected);
}

#[test]
fn encoder_without_anchor_finds_nothing() {
    let header = b"tree abc\ncommitter Bob <b@x.com> 0 +0000\n".to_vec();
    assert_eq!(encode_commit(&header, &b"m\n".to_vec(), &b"Alice".to_vec(), 7), None);
}

#[test]
fn framing_declares_the_body_length() {
    let header = b"tree abc\ncommitter Alice <a@x.com> 0 +0000\n".to_vec();
    let message = b"some message\n".to_vec();
    let encoded = encode_commit(&header, &message, &b"Alice".to_vec(), 999).unwrap();

    // The preface is "commit ", a decimal count, then exactly one null byte.
    assert_eq!(&encoded[..7], b"commit ");
    let null_at = encoded.iter().position(|&b| b == 0).unwrap();
    let count: usize = String::from_utf8(encoded[7..null_at].to_vec())
        .unwrap()
        .parse()
        .unwrap();
    let body = &encoded[null_at + 1..];
    assert_eq!(count, body.len());
    assert_eq!(encoded.iter().filter(|&&b| b == 0).count(), 1);
}

#[test]
fn digest_rendering_matches_reference_values() {
    // Would fail if the digest wrapper handed its input back unchanged.
    assert_eq!(
        sha1_hex(&b"".to_vec()),
        b"da39a3ee5e6b4b0d3255bfef95601890afd80709".to_vec()
    );
    assert_eq!(
        sha1_hex(&b"abc".to_vec()),
        b"a9993e364706816aba3e25717850c26c9cd0d89d".to_vec()
    );
}

#[test]
fn hex_rendering_of_bytes() {
    assert_eq!(bytes_to_hex(&vec![0x00, 0x0f, 0xa5]), b"000fa5".to_vec());
    assert_eq!(bytes_to_hex(&Vec::new()), b"".to_vec());
}

#[test]
fn predicate_is_deterministic_and_matches_reference_hash() {
    let header = b"tree abc\ncommitter Alice <a@x.com> 0 +0000\n".to_vec();
    let message = b"hello\n".to_vec();
    let name = b"Alice".to_vec();
    let nonce = 4242;

    let encoded = encode_commit(&header, &message, &name, nonce).unwrap();
    let reference = reference_sha1_hex(&encoded);
    let prefix = reference[..3].to_vec();

    let cond = Condition::new(Some(prefix), None).unwrap();
    let first = check_commit_with_nonce(&header, &message, &name, nonce, &cond);
    let second = check_commit_with_nonce(&header, &message, &name, nonce, &cond);
    assert!(first);
    assert_eq!(first, second);
}

#[test]
fn predicate_substring_matches_anywhere() {
    let header = b"tree abc\ncommitter Alice <a@x.com> 0 +0000\n".to_vec();
    let message = b"hello\n".to_vec();
    let name = b"Alice".to_vec();
    let nonce = 7;

    let encoded = encode_commit(&header, &message, &name, nonce).unwrap();
    let reference = reference_sha1_hex(&encoded);
    // A slice from the middle of the digest: matches as a substring, and is
    // not the digest's prefix here.
    let middle = reference[10..14].to_vec();
    assert_ne!(&reference[..4], middle.as_slice());

    let substring_only = Condition::new(None, Some(middle.clone())).unwrap();
    assert!(check_commit_with_nonce(&header, &message, &name, nonce, &substring_only));

    let as_prefix = Condition::new(Some(middle), None).unwrap();
    assert!(!check_commit_with_nonce(&header, &message, &name, nonce, &as_prefix));
}

#[test]
fn predicate_rejects_when_neither_part_holds() {
    let header = b"tree abc\ncommitter Alice <a@x.com> 0 +0000\n".to_vec();
    let message = b"hello\n".to_vec();
    let name = b"Alice".to_vec();
    let nonce = 7;

    let encoded = encode_commit(&header, &message, &name, nonce).unwrap();
    let reference = reference_sha1_hex(&encoded);
    // Flip the first digit so the prefix cannot match, and demand a substring
    // longer than the digest so it cannot occur.
    let wrong_first = if reference[0] == b'0' { b'1' } else { b'0' };
    let cond = Condition::new(
        Some(vec![wrong_first]),
        Some(vec![b'a'; 41]),
    )
    .unwrap();
    assert!(!check_commit_with_nonce(&header, &message, &name, nonce, &cond));
}

#[test]
fn predicate_case_insensitive_in_the_condition() {
    let header = b"tree abc\ncommitter Alice <a@x.com> 0 +0000\n".to_vec();
    let message = b"hello\n".to_vec();
    let name = b"Alice".to_vec();
    let nonce = 11;

    let encoded = encode_commit(&header, &message, &name, nonce).unwrap();
    let reference = reference_sha1_hex(&encoded);
    let upper: Vec<u8> = reference[..4].iter().map(|b| b.to_ascii_uppercase()).collect();

    let cond = Condition::new(Some(upper), None).unwrap();
    assert!(check_commit_with_nonce(&header, &message, &name, nonce, &cond));
}

#[test]
fn template_construction_sanitizes_name_and_header() {
    let header = b"tree t\ncommitter 1a_Alice <a@x.com> 5 +0000\n".to_vec();
    let message = b"m\n".to_vec();
    let template = CommitTemplate::new(
        &header,
        &message,
        &b"1a_Alice".to_vec(),
        &b"a@x.com".to_vec(),
        5,
        0,
    );
    assert_eq!(template.committer_identity, b"Alice".to_vec());
    assert_eq!(
        template.raw_header,
        b"tree t\ncommitter Alice <a@x.com> 5 +0000\n".to_vec()
    );
    assert_eq!(template.raw_message, message);
    assert_eq!(template.committer_email, b"a@x.com".to_vec());
    assert_eq!(template.committer_time_secs, 5);
    assert_eq!(template.committer_tz_minutes, 0);
}
