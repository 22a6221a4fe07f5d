use std::collections::BTreeMap;
use tantivy_eml_dump::export::{ExportAction, ExportEnd, ExportEvent, ExportState};
use tantivy_eml_dump::plan::FallbackExport;
use tantivy_eml_dump::walk::FallbackWalk;

const DATE: &str = "now";

type Directory = BTreeMap<String, Vec<u8>>;

/// Exports an account with as many documents as planned. The action that `fails` tells fails;
/// of a record whose write fails only the first byte arrives, and of a file whose closing fails
/// the last byte is lost.
fn export(
    plan: &FallbackExport,
    dir: &mut Directory,
    fails: impl Fn(ExportAction) -> bool,
) -> ExportEnd {
    let mut state = ExportState::start_counted(plan.total);
    let mut record = Vec::new();
    loop {
        let action = state.action();
        let event = match action {
            ExportAction::Count => unreachable!(),
            ExportAction::Open if fails(action) => ExportEvent::OpenFailed,
            ExportAction::Open => {
                dir.entry(plan.file.clone()).or_default();
                ExportEvent::Opened
            }
            ExportAction::Search { .. } if fails(action) => ExportEvent::SearchFailed,
            ExportAction::Search { offset, limit } => ExportEvent::Found {
                hits: limit.min(plan.total - offset),
            },
            ExportAction::Read { .. } => {
                record = plan.record(Some(b"mail")).unwrap();
                ExportEvent::Read { record: true }
            }
            ExportAction::Write => {
                let file = dir.get_mut(&plan.file).unwrap();
                if fails(action) {
                    file.push(record[0]);
                    ExportEvent::WriteFailed
                } else {
                    file.extend_from_slice(&record);
                    ExportEvent::Written
                }
            }
            ExportAction::Close if fails(action) => {
                dir.get_mut(&plan.file).unwrap().pop();
                ExportEvent::CloseFailed
            }
            ExportAction::Close => ExportEvent::Closed,
            ExportAction::Stop { end } => return end,
        };
        state = state.next(event);
    }
}

/// Walks over three accounts, the second of which fails where `fails` tells.
fn walk(fails: impl Fn(ExportAction) -> bool) -> (Option<ExportEnd>, Directory) {
    let mut dir = Directory::new();
    dir.insert("account_2.mbox".to_string(), b"old".to_vec());
    dir.insert("notes.txt".to_string(), b"kept".to_vec());
    let mut walk = FallbackWalk::new(vec![(1, 1), (2, 2), (3, 1)]);
    while let Some(plan) = walk.next_export(DATE) {
        let end = export(&plan, &mut dir, |action| plan.account_id == 2 && fails(action));
        walk = walk.after_export(end);
    }
    (walk.stopped_by(), dir)
}

const RECORD: &str = "From sender@example.com now\nmail\n\n";

fn directory(second: &str, third: Option<&str>) -> Directory {
    let mut dir = Directory::new();
    dir.insert("account_1.mbox".to_string(), RECORD.into());
    dir.insert("account_2.mbox".to_string(), second.into());
    if let Some(third) = third {
        dir.insert("account_3.mbox".to_string(), third.into());
    }
    dir.insert("notes.txt".to_string(), b"kept".to_vec());
    dir
}

#[test]
fn walk_without_failure_exports_every_account() {
    let whole = format!("old{RECORD}{RECORD}");
    assert_eq!(walk(|_| false), (None, directory(&whole, Some(RECORD))));
}

#[test]
fn failed_write_ends_the_walk() {
    let (stopped, dir) = walk(|action| action == ExportAction::Write);
    assert_eq!(stopped, Some(ExportEnd::WriteFailed));
    assert_eq!(dir, directory("oldF", None));
}

#[test]
fn failed_open_ends_the_walk() {
    let (stopped, dir) = walk(|action| action == ExportAction::Open);
    assert_eq!(stopped, Some(ExportEnd::OpenFailed));
    assert!(!stopped.unwrap().is_fatal());
    assert_eq!(dir, directory("old", None));
}

#[test]
fn failed_search_ends_the_walk() {
    let (stopped, dir) = walk(|action| matches!(action, ExportAction::Search { .. }));
    assert_eq!(stopped, Some(ExportEnd::SearchFailed));
    assert!(stopped.unwrap().is_fatal());
    assert_eq!(dir, directory("old", None));
}

#[test]
fn failed_close_lets_the_walk_go_on() {
    let mut part = format!("old{RECORD}{RECORD}");
    part.pop();
    let (stopped, dir) = walk(|action| action == ExportAction::Close);
    assert_eq!(stopped, None);
    assert_eq!(dir, directory(&part, Some(RECORD)));
}

#[test]
fn walk_over_no_accounts_exports_nothing() {
    let walk = FallbackWalk::new(Vec::new());
    assert_eq!(walk.next_export(DATE), None);
    assert_eq!(walk.stopped_by(), None);
}

#[test]
fn stopped_walk_has_no_next_export() {
    let walk = FallbackWalk::new(vec![(5, 9), (6, 1)]);
    let plan = walk.next_export(DATE).unwrap();
    assert_eq!((plan.account_id, plan.total), (5, 9));
    assert_eq!(plan.file, "account_5.mbox");
    let walk = walk.after_export(ExportEnd::NotFlushed);
    assert_eq!(walk.next_export(DATE).unwrap().account_id, 6);
    let walk = walk.after_export(ExportEnd::OpenFailed);
    assert_eq!(walk.next_export(DATE), None);
    assert_eq!(walk.stopped_by(), Some(ExportEnd::OpenFailed));
}
