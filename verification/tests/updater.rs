use wraith::updater::check_release;
use wraith::updater::is_newer;
use wraith::updater::parse_tag;
use wraith::updater::parse_ver;
use wraith::updater::update_notice;
use wraith::updater::wide;

#[test]
fn parse_tag_extracts_version() {
    let json = r#"{"tag_name": "v1.2.3", "name": "Release 1.2.3"}"#;
    assert_eq!(parse_tag(json), Some("v1.2.3"));
}

#[test]
fn parse_tag_returns_none_on_missing() {
    assert_eq!(parse_tag(r#"{"name": "no tag here"}"#), None);
}

#[test]
fn parse_ver_strips_v_prefix() {
    assert_eq!(parse_ver("v1.2.3"), Some((1, 2, 3)));
    assert_eq!(parse_ver("1.2.3"), Some((1, 2, 3)));
}

#[test]
fn parse_ver_numeric_comparison_correct() {
    // "1.10.0" > "1.9.0" must hold — string compare would fail this
    let a = parse_ver("1.10.0").unwrap();
    let b = parse_ver("1.9.0").unwrap();
    assert!(a > b);
}

#[test]
fn parse_ver_returns_none_on_invalid() {
    assert_eq!(parse_ver("not-a-version"), None);
    assert_eq!(parse_ver("1.2"), None);
}

#[test]
fn parse_tag_handles_whitespace_and_compact_json() {
    // Compact JSON (no spaces after colon)
    let compact = r#"{"tag_name":"v2.0.1","prerelease":false}"#;
    assert_eq!(parse_tag(compact), Some("v2.0.1"));

    // Spaces around colon
    let spaced = r#"{ "tag_name" : "v3.1.0" }"#;
    assert_eq!(parse_tag(spaced), Some("v3.1.0"));
}

#[test]
fn parse_tag_skips_unicode_whitespace() {
    let body = "{\"tag_name\":\t\n\u{00A0}\u{3000}\"v4.5.6\"}";
    assert_eq!(parse_tag(body), Some("v4.5.6"));
}

#[test]
fn parse_tag_requires_a_quote_after_the_colon() {
    assert_eq!(parse_tag(r#"{"tag_name": 123}"#), None);
    assert_eq!(parse_tag(r#"{"tag_name" "v1.0.0"}"#), None);
    assert_eq!(parse_tag(r#"{"tag_name":   }"#), None);
}

#[test]
fn parse_tag_runs_to_the_end_without_a_closing_quote() {
    assert_eq!(parse_tag(r#"{"tag_name": "v9.9.9"#), Some("v9.9.9"));
}

#[test]
fn parse_tag_stops_at_the_next_tag_key() {
    // The colon after the first key lies only past the second key.
    assert_eq!(parse_tag(r#""tag_name""tag_name": "v1.0.0""#), None);
    // Text after the second key is not read.
    assert_eq!(parse_tag(r#""tag_name": "v1.0.0" "tag_name": "v2.0.0""#), Some("v1.0.0"));
}

#[test]
fn parse_tag_keeps_non_ascii_text() {
    assert_eq!(parse_tag("{\"tag_name\": \"v1.0.0-\u{00e9}\u{1F600}\"}"), Some("v1.0.0-\u{00e9}\u{1F600}"));
}

#[test]
fn parse_ver_reads_each_part_as_u32() {
    assert_eq!(parse_ver("+1.+2.+3"), Some((1, 2, 3)));
    assert_eq!(parse_ver("007.08.0"), Some((7, 8, 0)));
    assert_eq!(parse_ver("4294967295.0.1"), Some((4294967295, 0, 1)));
    assert_eq!(parse_ver("4294967296.0.1"), None);
    assert_eq!(parse_ver("1.2.99999999999999999999"), None);
    assert_eq!(parse_ver("1.2.3.4"), None);
    assert_eq!(parse_ver("1..3"), None);
    assert_eq!(parse_ver("1.2.-3"), None);
    assert_eq!(parse_ver("1.2.+"), None);
    assert_eq!(parse_ver("1.2. 3"), None);
    assert_eq!(parse_ver(""), None);
    assert_eq!(parse_ver("v"), None);
}

#[test]
fn parse_ver_strips_one_v_only() {
    assert_eq!(parse_ver("vv1.2.3"), None);
    assert_eq!(parse_ver("V1.2.3"), None);
}

#[test]
fn is_newer_compares_major_first() {
    assert!(is_newer((2, 0, 0), (1, 9, 9)));
    assert!(is_newer((1, 10, 0), (1, 9, 0)));
    assert!(is_newer((1, 2, 4), (1, 2, 3)));
    assert!(!is_newer((1, 2, 3), (1, 2, 3)));
    assert!(!is_newer((1, 2, 3), (1, 3, 0)));
}

#[test]
fn update_notice_for_a_newer_release() {
    let body = r#"{"tag_name": "v1.3.0", "name": "Release"}"#;
    assert_eq!(
        update_notice(body, "1.2.9"),
        Some("Wraith v1.3.0 is available. Download at github.com/shadow-dragon-2002/Wraith/releases".to_string())
    );
}

#[test]
fn update_notice_silent_when_up_to_date_or_unreadable() {
    let body = r#"{"tag_name": "v1.2.3"}"#;
    assert_eq!(update_notice(body, "1.2.3"), None);
    assert_eq!(update_notice(body, "1.3.0"), None);
    assert_eq!(update_notice(r#"{"tag_name": "latest"}"#, "1.0.0"), None);
    assert_eq!(update_notice(r#"{"message": "Not Found"}"#, "1.0.0"), None);
    assert_eq!(update_notice(body, "dev"), None);
}

#[test]
fn check_release_reads_the_raw_response() {
    let body = br#"{"tag_name":"v2.0.0"}"#;
    assert_eq!(
        check_release(body, "1.0.0"),
        Some("Wraith v2.0.0 is available. Download at github.com/shadow-dragon-2002/Wraith/releases".to_string())
    );
    assert_eq!(check_release(body, "2.0.0"), None);
}

#[test]
fn check_release_survives_invalid_utf8() {
    let mut body: Vec<u8> = b"{\"note\": \"".to_vec();
    body.push(0xFF);
    body.extend_from_slice(b"\", \"tag_name\": \"v3.0.0\"}");
    assert_eq!(
        check_release(&body, "1.0.0"),
        Some("Wraith v3.0.0 is available. Download at github.com/shadow-dragon-2002/Wraith/releases".to_string())
    );
    let mut broken_tag: Vec<u8> = b"{\"tag_name\": \"v3.".to_vec();
    broken_tag.push(0xC3);
    broken_tag.extend_from_slice(b".0\"}");
    assert_eq!(check_release(&broken_tag, "1.0.0"), None);
}

#[test]
fn wide_encodes_utf16_with_nul() {
    assert_eq!(wide("Wraith"), vec![0x57, 0x72, 0x61, 0x69, 0x74, 0x68, 0]);
    assert_eq!(wide(""), vec![0]);
    assert_eq!(wide("\u{e9}\u{1F600}"), vec![0xE9, 0xD83D, 0xDE00, 0]);
    let expected: Vec<u16> = "a\u{10FFFF}b".encode_utf16().chain(std::iter::once(0)).collect();
    assert_eq!(wide("a\u{10FFFF}b"), expected);
}

#[test]
fn written_versions_read_back() {
    for v in [(0u32, 0u32, 0u32), (1, 10, 0), (4294967295, 7, 12345), (10, 0, 9)] {
        let text = format!("{}.{}.{}", v.0, v.1, v.2);
        assert_eq!(parse_ver(&text), Some(v));
        assert_eq!(parse_ver(&format!("v{}", text)), Some(v));
    }
}
