use commit_vanity::args::{get_argument_value, parse_hex_u64};
use commit_vanity::condition::{Condition, ConfigError};
use commit_vanity::hexfmt::{is_valid_hex, to_lower_hex, u64_to_hex_bytes, usize_to_dec_bytes};
use commit_vanity::sanitize::{sanitize_committer_name, sanitize_raw_header};

#[test]
fn valid_hex_accepts_mixed_case_digits() {
    assert!(is_valid_hex(&b"0".to_vec()));
    assert!(is_valid_hex(&b"00ffAB9c".to_vec()));
    assert!(is_valid_hex(&b"DEADbeef".to_vec()));
}

#[test]
fn valid_hex_rejects_empty_and_non_hex() {
    assert!(!is_valid_hex(&b"".to_vec()));
    assert!(!is_valid_hex(&b"xyz".to_vec()));
    assert!(!is_valid_hex(&b"12g4".to_vec()));
    assert!(!is_valid_hex(&b"12 34".to_vec()));
}

#[test]
fn hex_rendering_matches_format() {
    assert_eq!(u64_to_hex_bytes(0), b"0".to_vec());
    assert_eq!(u64_to_hex_bytes(26), b"1a".to_vec());
    assert_eq!(u64_to_hex_bytes(0x1a2b3c), b"1a2b3c".to_vec());
    assert_eq!(u64_to_hex_bytes(u64::MAX), b"ffffffffffffffff".to_vec());
    for n in [0u64, 1, 9, 15, 16, 255, 4096, 65535, 123456789] {
        assert_eq!(u64_to_hex_bytes(n), format!("{:x}", n).into_bytes());
    }
}

#[test]
fn dec_rendering_matches_format() {
    assert_eq!(usize_to_dec_bytes(0), b"0".to_vec());
    assert_eq!(usize_to_dec_bytes(7), b"7".to_vec());
    assert_eq!(usize_to_dec_bytes(100), b"100".to_vec());
    for n in [0usize, 1, 9, 10, 99, 100, 101, 123456] {
        assert_eq!(usize_to_dec_bytes(n), format!("{}", n).into_bytes());
    }
}

#[test]
fn lowercase_folding_of_condition_strings() {
    assert_eq!(to_lower_hex(&b"ABCDEF".to_vec()), b"abcdef".to_vec());
    assert_eq!(to_lower_hex(&b"0a1B2c".to_vec()), b"0a1b2c".to_vec());
    assert_eq!(to_lower_hex(&b"1234".to_vec()), b"1234".to_vec());
}

#[test]
fn sanitize_strips_a_leading_tag() {
    assert_eq!(sanitize_committer_name(&b"1a2b_Alice".to_vec()), b"Alice".to_vec());
    assert_eq!(sanitize_committer_name(&b"f_Bob".to_vec()), b"Bob".to_vec());
}

#[test]
fn sanitize_leaves_untagged_names_alone() {
    assert_eq!(sanitize_committer_name(&b"Alice".to_vec()), b"Alice".to_vec());
    // An underscore with no hex digits before it is not a tag.
    assert_eq!(sanitize_committer_name(&b"_Alice".to_vec()), b"_Alice".to_vec());
    // A hex run that ends the string is not a tag.
    assert_eq!(sanitize_committer_name(&b"abc".to_vec()), b"abc".to_vec());
    assert_eq!(sanitize_committer_name(&b"".to_vec()), b"".to_vec());
}

#[test]
fn sanitize_is_idempotent_on_its_usual_output() {
    let once = sanitize_committer_name(&b"1a2b_Alice".to_vec());
    let twice = sanitize_committer_name(&once);
    assert_eq!(once, twice);
    // Only the one leading tag is stripped per run: a name whose remainder
    // itself looks tagged is stripped again by a second run.
    let tricky = sanitize_committer_name(&b"1a_2b_X".to_vec());
    assert_eq!(tricky, b"2b_X".to_vec());
    assert_eq!(sanitize_committer_name(&tricky), b"X".to_vec());
}

#[test]
fn header_sanitation_replaces_every_occurrence() {
    let header = b"tree t\nauthor 1a_Alice <a@x.com> 0 +0000\ncommitter 1a_Alice <a@x.com> 0 +0000\n".to_vec();
    let raw = b"1a_Alice".to_vec();
    let clean = sanitize_committer_name(&raw);
    assert_eq!(clean, b"Alice".to_vec());
    let fixed = sanitize_raw_header(&header, &raw, &clean);
    assert_eq!(
        fixed,
        b"tree t\nauthor Alice <a@x.com> 0 +0000\ncommitter Alice <a@x.com> 0 +0000\n".to_vec()
    );
}

#[test]
fn header_sanitation_without_occurrence_is_identity() {
    let header = b"tree t\ncommitter Bob <b@x.com> 0 +0000\n".to_vec();
    let fixed = sanitize_raw_header(&header, &b"Alice".to_vec(), &b"Alice".to_vec());
    assert_eq!(fixed, header);
}

#[test]
fn argument_lookup_finds_the_value_after_the_flag() {
    let args: Vec<String> = vec![
        "prog".to_string(),
        "-h".to_string(),
        "000".to_string(),
        "-n".to_string(),
        "1".to_string(),
    ];
    assert_eq!(get_argument_value(&args, &"-h".to_string()), Some("000".to_string()));
    assert_eq!(get_argument_value(&args, &"-n".to_string()), Some("1".to_string()));
    assert_eq!(get_argument_value(&args, &"-m".to_string()), None);
}

#[test]
fn argument_lookup_at_the_end_has_no_value() {
    let args: Vec<String> = vec!["prog".to_string(), "-h".to_string()];
    assert_eq!(get_argument_value(&args, &"-h".to_string()), None);
}

#[test]
fn nonce_parsing_reads_hex() {
    assert_eq!(parse_hex_u64(&b"0".to_vec()), Some(0));
    assert_eq!(parse_hex_u64(&b"1".to_vec()), Some(1));
    assert_eq!(parse_hex_u64(&b"1a2B".to_vec()), Some(0x1a2b));
    assert_eq!(parse_hex_u64(&b"ffffffffffffffff".to_vec()), Some(u64::MAX));
}

#[test]
fn nonce_parsing_rejects_bad_text() {
    assert_eq!(parse_hex_u64(&b"".to_vec()), None);
    assert_eq!(parse_hex_u64(&b"12x".to_vec()), None);
    // One past the largest 64-bit value.
    assert_eq!(parse_hex_u64(&b"10000000000000000".to_vec()), None);
}

#[test]
fn condition_needs_at_least_one_requirement() {
    assert_eq!(Condition::new(None, None).err(), Some(ConfigError::NoRequirement));
}

#[test]
fn condition_rejects_non_hex_requirements() {
    assert_eq!(
        Condition::new(Some(b"xyz".to_vec()), None).err(),
        Some(ConfigError::InvalidHex)
    );
    assert_eq!(
        Condition::new(None, Some(b"".to_vec())).err(),
        Some(ConfigError::InvalidHex)
    );
}

#[test]
fn condition_folds_requirements_to_lowercase() {
    let cond = Condition::new(Some(b"AB".to_vec()), Some(b"0C".to_vec())).unwrap();
    assert_eq!(cond.prefix, Some(b"ab".to_vec()));
    assert_eq!(cond.substring, Some(b"0c".to_vec()));
}
