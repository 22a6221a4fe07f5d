use tantivy_eml_dump::account::AccountV3;
use tantivy_eml_dump::mailbox::{index_mailboxes, MailBox};
use tantivy_eml_dump::mbox::{native_record, UNKNOWN_SENDER};
use tantivy_eml_dump::plan::{fallback_export, native_export, FallbackExport, NativeExport};

const DATE: &str = "Thu Jan  1 00:00:00 1970";

#[test]
fn native_export_is_one_accounts() {
    let account = AccountV3 {
        id: 7,
        email: "user@example.com".to_string(),
        name: Some("User".to_string()),
        ..AccountV3::default()
    };
    assert_eq!(
        native_export(&account, DATE),
        NativeExport {
            account_id: 7,
            email: "user@example.com".to_string(),
            file: "user@example.com.mbox".to_string(),
            line: "From user@example.com Thu Jan  1 00:00:00 1970\n".to_string(),
        }
    );
}

#[test]
fn native_export_makes_the_file_name_safe_only() {
    let account = AccountV3 {
        id: 8,
        email: "a/b@c".to_string(),
        ..AccountV3::default()
    };
    let plan = native_export(&account, DATE);
    assert_eq!(plan.email, "a/b@c");
    assert_eq!(plan.file, "a_b@c.mbox");
    assert_eq!(plan.line, "From a/b@c Thu Jan  1 00:00:00 1970\n");
}

#[test]
fn native_export_writes_its_own_address() {
    let account = AccountV3 {
        id: 1,
        email: "a@b".to_string(),
        ..AccountV3::default()
    };
    let mailboxes = index_mailboxes(&[MailBox {
        id: 3,
        account_id: 1,
        name: "INBOX".to_string(),
        ..MailBox::default()
    }]);
    let plan = native_export(&account, DATE);
    let expected = native_record(
        "From a@b Thu Jan  1 00:00:00 1970\n",
        "a@b",
        &mailboxes,
        3,
        Some(b"mail"),
    );
    assert!(expected.is_some());
    assert_eq!(plan.record(&mailboxes, 3, Some(b"mail")), expected);
    assert_eq!(plan.record(&mailboxes, 3, None), None);
}

#[test]
fn fallback_export_goes_by_the_id() {
    let plan = fallback_export(42, 5, DATE);
    assert_eq!(
        plan,
        FallbackExport {
            account_id: 42,
            total: 5,
            file: "account_42.mbox".to_string(),
            line: format!("From {UNKNOWN_SENDER} {DATE}\n"),
        }
    );
    assert_eq!(
        plan.record(Some(b"mail")).unwrap(),
        b"From sender@example.com Thu Jan  1 00:00:00 1970\nmail\n\n"
    );
    assert_eq!(plan.record(None), None);
}
