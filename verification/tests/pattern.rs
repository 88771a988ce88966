use music_rpc::pattern::{find_pattern_in, parse_signature};

#[test]
fn parses_bytes_and_wildcards() {
    let sig = parse_signature("48 8D 0D ? ?? 90");
    assert_eq!(sig, vec![Some(0x48), Some(0x8D), Some(0x0D), None, None, Some(0x90)]);
}

#[test]
fn finds_exact_match() {
    let hay = [0x00, 0x11, 0x48, 0x8D, 0x0D, 0xAA, 0xBB, 0x90, 0xFF];
    let sig = parse_signature("48 8D 0D ? ? 90");
    assert_eq!(find_pattern_in(&hay, &sig), Some(2));
}

#[test]
fn wildcard_first_byte() {
    let hay = [0x01, 0x02, 0x03, 0x04];
    let sig = parse_signature("? 03");
    assert_eq!(find_pattern_in(&hay, &sig), Some(1));
}

#[test]
fn returns_none_when_absent() {
    let hay = [0x01, 0x02, 0x03];
    let sig = parse_signature("AA BB");
    assert_eq!(find_pattern_in(&hay, &sig), None);
}

#[test]
fn match_at_very_end() {
    let hay = [0x00, 0x00, 0xDE, 0xAD];
    let sig = parse_signature("DE AD");
    assert_eq!(find_pattern_in(&hay, &sig), Some(2));
}

#[test]
fn empty_pattern_is_none() {
    let hay = [0x01, 0x02];
    assert_eq!(find_pattern_in(&hay, &[]), None);
}

#[test]
fn bad_hex_token_is_a_wildcard() {
    assert_eq!(parse_signature("ZZ 1G 100 - +"), vec![None, None, None, None, None]);
}

#[test]
fn plus_sign_and_case_and_leading_zeros() {
    assert_eq!(parse_signature("+ff Ab 0007 00FF"), vec![Some(0xFF), Some(0xAB), Some(0x07), Some(0xFF)]);
}

#[test]
fn any_unicode_whitespace_separates() {
    assert_eq!(parse_signature("\t01\u{3000}02\n\r 03  "), vec![Some(1), Some(2), Some(3)]);
    assert_eq!(parse_signature("   "), vec![]);
    assert_eq!(parse_signature(""), vec![]);
}

#[test]
fn first_of_several_matches() {
    let hay = [0xAA, 0x01, 0xAA, 0x01, 0xAA];
    assert_eq!(find_pattern_in(&hay, &parse_signature("AA 01")), Some(0));
    assert_eq!(find_pattern_in(&hay, &parse_signature("01 AA")), Some(1));
}

#[test]
fn pattern_longer_than_haystack() {
    assert_eq!(find_pattern_in(&[0x01], &parse_signature("01 02")), None);
    assert_eq!(find_pattern_in(&[], &parse_signature("?")), None);
}

#[test]
fn all_wildcards_match_at_zero() {
    assert_eq!(find_pattern_in(&[7, 8, 9], &parse_signature("? ?")), Some(0));
}

#[test]
fn fast_path_skips_to_candidates() {
    let hay = [0x48, 0x00, 0x48, 0x8D, 0x48, 0x8D, 0x0D];
    assert_eq!(find_pattern_in(&hay, &parse_signature("48 8D 0D")), Some(4));
    assert_eq!(find_pattern_in(&hay, &parse_signature("48 8D 0E")), None);
}

#[test]
fn bytes_written_as_a_signature_parse_back() {
    let bytes: Vec<u8> = (0..=255u8).collect();
    let sig = bytes.iter().map(|b| format!("{b:02X}")).collect::<Vec<_>>().join(" ");
    let parsed = parse_signature(&sig);
    assert_eq!(parsed, bytes.iter().map(|&b| Some(b)).collect::<Vec<_>>());
    assert_eq!(parse_signature(""), Vec::<Option<u8>>::new());
    assert_eq!(parse_signature("0A"), vec![Some(0x0A)]);
}
