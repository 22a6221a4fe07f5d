use tantivy_eml_dump::date::LocalTime;
use tantivy_eml_dump::mailbox::{index_mailboxes, MailBox};
use tantivy_eml_dump::mbox::{
    fallback_file_name, fallback_record, from_line, native_file_name, native_record, safe_email,
    UNKNOWN_SENDER,
};
use tantivy_eml_dump::metadata::{build_metadata_header, BichonMetadata};

fn time(year: i32, month: u32, day: u32, hour: u32, minute: u32, second: u32) -> LocalTime {
    LocalTime {
        year,
        month,
        day,
        hour,
        minute,
        second,
    }
}

fn text(year: i32, month: u32, day: u32, hour: u32, minute: u32, second: u32) -> String {
    time(year, month, day, hour, minute, second).format().unwrap()
}

#[test]
fn dates_are_written_out() {
    assert_eq!(text(1970, 1, 1, 0, 0, 0), "Thu Jan  1 00:00:00 1970");
    assert_eq!(text(2024, 2, 29, 23, 59, 59), "Thu Feb 29 23:59:59 2024");
    assert_eq!(text(2000, 3, 1, 9, 8, 7), "Wed Mar  1 09:08:07 2000");
    assert_eq!(text(1900, 3, 1, 12, 0, 0), "Thu Mar  1 12:00:00 1900");
    assert_eq!(text(2025, 12, 31, 10, 20, 30), "Wed Dec 31 10:20:30 2025");
    assert_eq!(text(1, 1, 1, 0, 0, 0), "Mon Jan  1 00:00:00 0001");
    assert_eq!(text(0, 12, 31, 0, 0, 0), "Sun Dec 31 00:00:00 0000");
    assert_eq!(text(-1, 1, 1, 0, 0, 0), "Fri Jan  1 00:00:00 -0001");
    assert_eq!(text(12345, 6, 7, 1, 2, 3), "Thu Jun  7 01:02:03 +12345");
}

#[test]
fn every_month_and_weekday_has_its_name() {
    let months = [
        "Jan", "Feb", "Mar", "Apr", "May", "Jun", "Jul", "Aug", "Sep", "Oct", "Nov", "Dec",
    ];
    for (i, name) in months.iter().enumerate() {
        assert_eq!(&text(2023, i as u32 + 1, 15, 0, 0, 0)[4..7], *name);
    }
    let weekdays = ["Sun", "Mon", "Tue", "Wed", "Thu", "Fri", "Sat"];
    for (i, name) in weekdays.iter().enumerate() {
        assert_eq!(&text(2023, 10, i as u32 + 1, 0, 0, 0)[0..3], *name);
    }
}

#[test]
fn days_that_do_not_exist_are_refused() {
    for t in [
        time(2023, 2, 29, 0, 0, 0),
        time(1900, 2, 29, 0, 0, 0),
        time(2023, 4, 31, 0, 0, 0),
        time(2023, 0, 1, 0, 0, 0),
        time(2023, 13, 1, 0, 0, 0),
        time(2023, 1, 0, 0, 0, 0),
        time(2023, 1, 32, 0, 0, 0),
        time(2023, 1, 1, 24, 0, 0),
        time(2023, 1, 1, 0, 60, 0),
        time(2023, 1, 1, 0, 0, 60),
        time(262143, 1, 1, 0, 0, 0),
        time(-262144, 1, 1, 0, 0, 0),
    ] {
        assert!(t.format().is_none(), "{t:?}");
    }
    assert!(time(262142, 12, 31, 0, 0, 0).format().is_some());
    assert!(time(-262143, 1, 1, 0, 0, 0).format().is_some());
}

#[test]
fn address_becomes_a_file_name() {
    assert_eq!(safe_email("user@example.com"), "user@example.com");
    assert_eq!(safe_email("a@b/c\\d:e*f?g\"h<i>j|k"), "a@b_c_d_e_f_g_h_i_j_k");
    assert_eq!(safe_email("Jörg+x'y@straße.de"), "Jörg+x'y@straße.de");
    assert_eq!(safe_email(""), "");
    assert_eq!(native_file_name("user@example.com"), "user@example.com.mbox");
}

#[test]
fn safe_address_stays_the_same() {
    let once = safe_email("../a@b|c");
    assert_eq!(once, ".._a@b_c");
    assert_eq!(safe_email(&once), once);
    assert!(!native_file_name("../a@b|c").contains('/'));
}

#[test]
fn different_addresses_have_different_files() {
    assert_eq!(native_file_name("a@b_c"), "a@b_c.mbox");
    assert_eq!(native_file_name("a_b@c"), "a_b@c.mbox");
    assert_ne!(native_file_name("a@b_c"), native_file_name("a_b@c"));
}

#[test]
fn numeric_file_names() {
    assert_eq!(fallback_file_name(0), "account_0.mbox");
    assert_eq!(fallback_file_name(42), "account_42.mbox");
    assert_eq!(
        fallback_file_name(u64::MAX),
        "account_18446744073709551615.mbox"
    );
    assert_ne!(fallback_file_name(1), fallback_file_name(10));
}

#[test]
fn separator_line() {
    let date = text(2024, 2, 9, 1, 2, 3);
    assert_eq!(
        from_line("user@example.com", &date),
        "From user@example.com Fri Feb  9 01:02:03 2024\n"
    );
    assert_eq!(
        from_line(UNKNOWN_SENDER, &date),
        "From sender@example.com Fri Feb  9 01:02:03 2024\n"
    );
    assert_eq!(from_line("a", &date).matches('\n').count(), 1);
}

#[test]
fn native_record_carries_the_header() {
    let index = index_mailboxes(&[MailBox {
        id: 5,
        account_id: 1,
        name: "INBOX".to_string(),
        ..MailBox::default()
    }]);
    let record = native_record("From x\n", "ü@b", &index, 5, Some(b"Subject: s\n\nbody")).unwrap();
    let header = build_metadata_header(&BichonMetadata {
        account_email: Some("ü@b".to_string()),
        mailbox_name: Some("INBOX".to_string()),
    });
    assert_eq!(
        String::from_utf8(record).unwrap(),
        format!("From x\n{header}Subject: s\n\nbody\n\n")
    );
    let record = native_record("From x\n", "ü@b", &index, 6, Some(b"")).unwrap();
    let header = build_metadata_header(&BichonMetadata {
        account_email: Some("ü@b".to_string()),
        mailbox_name: None,
    });
    assert_eq!(String::from_utf8(record).unwrap(), format!("From x\n{header}\n\n"));
    assert!(native_record("From x\n", "a", &index, 5, None).is_none());
}

#[test]
fn fallback_record_has_no_header() {
    assert_eq!(
        fallback_record("From x\n", Some(&[0xff, 0x00])).unwrap(),
        b"From x\n\xff\x00\n\n"
    );
    assert!(fallback_record("From x\n", None).is_none());
}
