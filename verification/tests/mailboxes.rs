use tantivy_eml_dump::account::AccountV3;
use tantivy_eml_dump::mailbox::{
    index_mailboxes, mailbox_name, try_open_native, AccountRunningState, Attribute, AttributeEnum,
    MailBox, DB_CACHE_BYTES, MAILBOX_DB, META_DB,
};

fn mailbox(id: u64, account_id: u64, name: &str) -> MailBox {
    MailBox {
        id,
        account_id,
        name: name.to_string(),
        ..MailBox::default()
    }
}

#[test]
fn index_finds_names() {
    let index = index_mailboxes(&[mailbox(1, 10, "INBOX"), mailbox(2, 11, "Sent")]);
    assert_eq!(mailbox_name(&index, 1).as_deref(), Some("INBOX"));
    assert_eq!(mailbox_name(&index, 2).as_deref(), Some("Sent"));
    assert_eq!(index[&2].0, 11);
    assert_eq!(mailbox_name(&index, 3), None);
    assert_eq!(index.len(), 2);
}

#[test]
fn last_mailbox_with_an_id_counts() {
    let index = index_mailboxes(&[mailbox(1, 10, "old"), mailbox(1, 12, "new")]);
    assert_eq!(index.len(), 1);
    assert_eq!(index[&1], (12, "new".to_string()));
}

#[test]
fn both_databases_are_needed() {
    let accounts = || Some(vec![AccountV3::default()]);
    let mailboxes = || Some(vec![mailbox(1, 0, "INBOX")]);
    assert!(try_open_native(None, None).is_none());
    assert!(try_open_native(accounts(), None).is_none());
    assert!(try_open_native(None, mailboxes()).is_none());
    let (found, index) = try_open_native(accounts(), mailboxes()).unwrap();
    assert_eq!(found, vec![AccountV3::default()]);
    assert_eq!(index[&1], (0, "INBOX".to_string()));
    let (found, index) = try_open_native(Some(vec![]), Some(vec![])).unwrap();
    assert!(found.is_empty() && index.is_empty());
}

#[test]
fn unknown_attribute_is_the_default() {
    assert_eq!(AttributeEnum::default(), AttributeEnum::Unknown);
    assert_eq!(
        Attribute::default(),
        Attribute {
            attr: AttributeEnum::Unknown,
            extension: None
        }
    );
    assert_eq!(AccountRunningState::default().account_id, 0);
    assert!(MailBox::default().attributes.is_empty());
}

#[test]
fn database_files() {
    assert_eq!(META_DB, "meta.db");
    assert_eq!(MAILBOX_DB, "mailbox.db");
    assert_eq!(DB_CACHE_BYTES, 67108864);
}
