use std::collections::BTreeMap;
use tantivy_eml_dump::export::{ExportAction, ExportEnd, ExportEvent, ExportState};
use tantivy_eml_dump::mailbox::{index_mailboxes, MailBox};
use tantivy_eml_dump::mbox::{fallback_file_name, fallback_record, native_record};
use tantivy_eml_dump::metadata::parse_bichon_metadata;
use tantivy_eml_dump::scan::{AccountScan, SCAN_PAGE};

struct Document {
    account_id: u64,
    mailbox_id: u64,
    eml: Option<Vec<u8>>,
}

fn index(n: usize) -> Vec<Document> {
    (0..n)
        .map(|i| Document {
            account_id: (i % 4) as u64 * 1000,
            mailbox_id: (i % 3) as u64,
            eml: if i % 5 == 4 { None } else { Some(format!("mail {i}").into_bytes()) },
        })
        .collect()
}

fn export(
    mut state: ExportState,
    docs: &[&Document],
    record_of: impl Fn(&Document) -> Option<Vec<u8>>,
) -> Vec<u8> {
    let mut file = Vec::new();
    let mut page: &[&Document] = &[];
    let mut record = Vec::new();
    loop {
        let event = match state.action() {
            ExportAction::Count => ExportEvent::Counted { total: docs.len() },
            ExportAction::Open => ExportEvent::Opened,
            ExportAction::Search { offset, limit } => {
                page = &docs[offset..(offset + limit).min(docs.len())];
                ExportEvent::Found { hits: page.len() }
            }
            ExportAction::Read { index } => match record_of(page[index]) {
                Some(bytes) => {
                    record = bytes;
                    ExportEvent::Read { record: true }
                }
                None => ExportEvent::Read { record: false },
            },
            ExportAction::Write => {
                file.extend_from_slice(&record);
                ExportEvent::Written
            }
            ExportAction::Close => ExportEvent::Closed,
            ExportAction::Stop { end } => {
                assert_eq!(end, ExportEnd::Complete);
                return file;
            }
        };
        state = state.next(event);
    }
}

#[test]
fn fallback_mode_puts_every_message_into_the_file_of_its_account() {
    let docs = index(11003);
    let mut scan = AccountScan::new(docs.len());
    while let Some(offset) = scan.next_search() {
        let end = (offset + SCAN_PAGE).min(docs.len());
        let ids: Vec<u64> = docs[offset..end].iter().map(|d| d.account_id).collect();
        scan = scan.record_page(&ids);
    }
    let mut files = BTreeMap::new();
    for (account_id, records) in scan.accounts() {
        let own: Vec<&Document> = docs.iter().filter(|d| d.account_id == account_id).collect();
        assert_eq!(records, own.len());
        let file = export(ExportState::start_counted(records), &own, |d| {
            fallback_record("From x\n", d.eml.as_deref())
        });
        assert!(files.insert(fallback_file_name(account_id), file).is_none());
    }
    assert_eq!(files.len(), 4);
    let mut expected: BTreeMap<String, Vec<u8>> = BTreeMap::new();
    for doc in &docs {
        if let Some(eml) = &doc.eml {
            let file = expected.entry(format!("account_{}.mbox", doc.account_id)).or_default();
            file.extend_from_slice(b"From x\n");
            file.extend_from_slice(eml);
            file.extend_from_slice(b"\n\n");
        }
    }
    assert_eq!(files, expected);
}

#[test]
fn native_mode_tells_the_origin_of_every_message() {
    let docs = index(10);
    let own: Vec<&Document> = docs.iter().filter(|d| d.account_id == 1000).collect();
    let mailboxes = index_mailboxes(&[MailBox {
        id: 1,
        account_id: 1000,
        name: "Sent".to_string(),
        ..MailBox::default()
    }]);
    let file = export(ExportState::start(), &own, |d| {
        native_record("From a@b now\n", "a@b", &mailboxes, d.mailbox_id, d.eml.as_deref())
    });
    let text = String::from_utf8(file).unwrap();
    let lines: Vec<&str> = text.lines().collect();
    assert_eq!(lines.len(), 8);
    let payload = |line: &str| {
        let value = line.strip_prefix("X-Bichon-Metadata:").unwrap();
        String::from_utf8(parse_bichon_metadata(value).unwrap()).unwrap()
    };
    assert_eq!(lines[0], "From a@b now");
    assert_eq!(payload(lines[1]), "{\"account_email\":\"a@b\",\"mailbox_name\":\"Sent\"}");
    assert_eq!(lines[2], "mail 1");
    assert_eq!(lines[3], "");
    assert_eq!(lines[4], "From a@b now");
    assert_eq!(payload(lines[5]), "{\"account_email\":\"a@b\",\"mailbox_name\":null}");
    assert_eq!(lines[6], "mail 5");
}
