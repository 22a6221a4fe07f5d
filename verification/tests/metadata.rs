use std::collections::BTreeMap;
use tantivy_eml_dump::metadata::{build_metadata_header, parse_bichon_metadata, BichonMetadata};

fn metadata(email: Option<&str>, mailbox: Option<&str>) -> BichonMetadata {
    BichonMetadata {
        account_email: email.map(|s| s.to_string()),
        mailbox_name: mailbox.map(|s| s.to_string()),
    }
}

fn payload_of(metadata: &BichonMetadata) -> Vec<u8> {
    let header = build_metadata_header(metadata);
    parse_bichon_metadata(header.strip_prefix("X-Bichon-Metadata:").unwrap()).unwrap()
}

#[test]
fn header_carries_account_and_mailbox() {
    let payload = payload_of(&metadata(Some("user@example.com"), Some("INBOX")));
    assert_eq!(
        String::from_utf8(payload).unwrap(),
        "{\"account_email\":\"user@example.com\",\"mailbox_name\":\"INBOX\"}"
    );
}

#[test]
fn header_line_is_exact() {
    assert_eq!(
        build_metadata_header(&metadata(None, None)),
        "X-Bichon-Metadata: eyJhY2NvdW50X2VtYWlsIjpudWxsLCJtYWlsYm94X25hbWUiOm51bGx9\n"
    );
}

#[test]
fn payload_is_what_serde_json_writes_for_an_object() {
    let values = [
        None,
        Some(""),
        Some("plain"),
        Some("quote \" and backslash \\ and slash /"),
        Some("tab\tnewline\nreturn\rbackspace\u{8}formfeed\u{c}"),
        Some("control \u{0}\u{1}\u{b}\u{1f}\u{7f}"),
        Some("Entwürfe – 草稿 🗑"),
        Some("\",\"mailbox_name\":\""),
    ];
    for email in values {
        for mailbox in values {
            let object = BTreeMap::from([("account_email", email), ("mailbox_name", mailbox)]);
            assert_eq!(
                payload_of(&metadata(email, mailbox)),
                serde_json::to_vec(&object).unwrap()
            );
            let read: BTreeMap<String, Option<String>> =
                serde_json::from_slice(&payload_of(&metadata(email, mailbox))).unwrap();
            assert_eq!(read["account_email"].as_deref(), email);
            assert_eq!(read["mailbox_name"].as_deref(), mailbox);
        }
    }
}

#[test]
fn different_metadata_have_different_headers() {
    let a = build_metadata_header(&metadata(Some("a"), None));
    let b = build_metadata_header(&metadata(None, Some("a")));
    let c = build_metadata_header(&metadata(Some("null"), None));
    let d = build_metadata_header(&metadata(None, None));
    assert_ne!(a, b);
    assert_ne!(c, d);
    assert_ne!(a, c);
}

#[test]
fn header_is_one_line() {
    let header = build_metadata_header(&metadata(Some("a\r\nb\n"), Some("c\nd")));
    assert!(header.ends_with('\n'));
    assert_eq!(header.matches('\n').count(), 1);
    assert_eq!(header.matches('\r').count(), 0);
}

#[test]
fn value_may_be_surrounded_by_white_space() {
    assert_eq!(parse_bichon_metadata("aGk=").unwrap(), b"hi");
    assert_eq!(parse_bichon_metadata("\t aGk=\r\n").unwrap(), b"hi");
    assert_eq!(parse_bichon_metadata("\u{a0}\u{3000}aGk=\u{2028}").unwrap(), b"hi");
}

#[test]
fn every_length_of_the_last_group_is_read() {
    assert_eq!(parse_bichon_metadata("").unwrap(), b"");
    assert_eq!(parse_bichon_metadata("Zg==").unwrap(), b"f");
    assert_eq!(parse_bichon_metadata("Zm8=").unwrap(), b"fo");
    assert_eq!(parse_bichon_metadata("Zm9v").unwrap(), b"foo");
    assert_eq!(parse_bichon_metadata("Zm9vYg==").unwrap(), b"foob");
    assert_eq!(parse_bichon_metadata("+/+/").unwrap(), [0xfb, 0xff, 0xbf]);
}

#[test]
fn what_is_no_base64_text_is_refused() {
    for value in [
        "Zg", "Zg=", "Zg===", "Zm9", "Z", "=", "====", "Zh==", "Zm9=", "Zm 9v", "Zm9v\u{b7}",
        "_-_-", "Zg==Zg==", "Zm9v=", "{}",
    ] {
        assert!(parse_bichon_metadata(value).is_none(), "{value}");
    }
}

#[test]
fn unknown_metadata_is_the_default() {
    assert_eq!(BichonMetadata::default(), metadata(None, None));
}
