use tantivy_eml_dump::export::{
    ExportAction, ExportEnd, ExportEvent, ExportState, EXPORT_PAGE,
};

struct Run {
    end: ExportEnd,
    file: Vec<u8>,
    offsets: Vec<usize>,
    opened: bool,
}

fn run(mut state: ExportState, docs: &[Option<Vec<u8>>], file: Vec<u8>) -> Run {
    let mut result = Run {
        end: ExportEnd::Empty,
        file,
        offsets: Vec::new(),
        opened: false,
    };
    let mut page: &[Option<Vec<u8>>] = &[];
    let mut current: Option<Vec<u8>> = None;
    loop {
        let event = match state.action() {
            ExportAction::Count => ExportEvent::Counted { total: docs.len() },
            ExportAction::Open => {
                result.opened = true;
                ExportEvent::Opened
            }
            ExportAction::Search { offset, limit } => {
                result.offsets.push(offset);
                page = &docs[offset..(offset + limit).min(docs.len())];
                ExportEvent::Found { hits: page.len() }
            }
            ExportAction::Read { index } => {
                current = page[index].clone();
                ExportEvent::Read {
                    record: current.is_some(),
                }
            }
            ExportAction::Write => {
                result.file.extend(current.take().unwrap());
                ExportEvent::Written
            }
            ExportAction::Close => ExportEvent::Closed,
            ExportAction::Stop { end } => {
                result.end = end;
                return result;
            }
        };
        state = state.next(event);
    }
}

fn documents(n: usize) -> Vec<Option<Vec<u8>>> {
    (0..n)
        .map(|i| if i % 3 == 1 { None } else { Some(format!("{i};").into_bytes()) })
        .collect()
}

fn records(docs: &[Option<Vec<u8>>]) -> Vec<u8> {
    docs.iter().flatten().flatten().copied().collect()
}

#[test]
fn every_record_is_appended_once_and_in_order() {
    for n in [1, 2, 1999, 2000, 2001, 4000, 4321] {
        let docs = documents(n);
        let done = run(ExportState::start(), &docs, b"old".to_vec());
        assert_eq!(done.end, ExportEnd::Complete);
        assert_eq!(done.file, [b"old".to_vec(), records(&docs)].concat());
        let pages = n.div_ceil(EXPORT_PAGE);
        let expected: Vec<usize> = (0..pages).map(|k| k * 2000).collect();
        assert_eq!(done.offsets, expected);
        let counted = run(ExportState::start_counted(n), &docs, Vec::new());
        assert_eq!(counted.file, records(&docs));
    }
}

#[test]
fn second_export_appends_again() {
    let docs = documents(5);
    let once = run(ExportState::start(), &docs, Vec::new());
    let twice = run(ExportState::start(), &docs, once.file);
    assert_eq!(twice.file, b"0;2;3;0;2;3;");
}

#[test]
fn nothing_to_export_opens_no_file() {
    let done = run(ExportState::start(), &[], b"old".to_vec());
    assert_eq!(done.end, ExportEnd::Empty);
    assert!(!done.opened);
    assert_eq!(done.file, b"old");
}

#[test]
fn empty_page_ends_the_export() {
    let state = ExportState::start_counted(5000).next(ExportEvent::Opened);
    assert_eq!(
        state.action(),
        ExportAction::Search {
            offset: 0,
            limit: 2000
        }
    );
    let state = state.next(ExportEvent::Found { hits: 0 });
    assert_eq!(state.action(), ExportAction::Close);
}

#[test]
fn failures_end_the_export() {
    let end = |state: ExportState| match state.action() {
        ExportAction::Stop { end } => end,
        other => panic!("{other:?}"),
    };
    let start = ExportState::start();
    assert_eq!(end(start.next(ExportEvent::CountFailed)), ExportEnd::CountFailed);
    let opening = start.next(ExportEvent::Counted { total: 1 });
    assert_eq!(end(opening.next(ExportEvent::OpenFailed)), ExportEnd::OpenFailed);
    let searching = opening.next(ExportEvent::Opened);
    assert_eq!(end(searching.next(ExportEvent::SearchFailed)), ExportEnd::SearchFailed);
    let writing = searching
        .next(ExportEvent::Found { hits: 1 })
        .next(ExportEvent::Read { record: true });
    assert_eq!(writing.action(), ExportAction::Write);
    assert_eq!(end(writing.next(ExportEvent::WriteFailed)), ExportEnd::WriteFailed);
    let closing = writing.next(ExportEvent::Written);
    assert_eq!(end(closing.next(ExportEvent::CloseFailed)), ExportEnd::NotFlushed);
    assert_eq!(end(closing.next(ExportEvent::Closed)), ExportEnd::Complete);
}

#[test]
fn stray_events_are_ignored() {
    let start = ExportState::start();
    assert_eq!(start.next(ExportEvent::Written), start);
    let ended = start.next(ExportEvent::CountFailed);
    assert_eq!(ended.next(ExportEvent::Opened), ended);
}

#[test]
fn ends_are_weighed() {
    let fatal = [ExportEnd::CountFailed, ExportEnd::SearchFailed];
    let fine = [ExportEnd::Complete, ExportEnd::NotFlushed, ExportEnd::Empty];
    for end in [
        ExportEnd::Empty,
        ExportEnd::Complete,
        ExportEnd::NotFlushed,
        ExportEnd::CountFailed,
        ExportEnd::OpenFailed,
        ExportEnd::SearchFailed,
        ExportEnd::WriteFailed,
    ] {
        assert_eq!(end.is_fatal(), fatal.contains(&end));
        assert_eq!(end.lets_others_follow(), fine.contains(&end));
    }
}

fn fail_at(step: usize, docs: &[Option<Vec<u8>>]) -> Option<(ExportEnd, Vec<u8>)> {
    let mut state = ExportState::start();
    let mut file = b"old".to_vec();
    let mut page: &[Option<Vec<u8>>] = &[];
    let mut current: Option<Vec<u8>> = None;
    let mut done = 0;
    loop {
        let fails = done == step;
        done += 1;
        let event = match state.action() {
            ExportAction::Count if fails => ExportEvent::CountFailed,
            ExportAction::Count => ExportEvent::Counted { total: docs.len() },
            ExportAction::Open if fails => ExportEvent::OpenFailed,
            ExportAction::Open => ExportEvent::Opened,
            ExportAction::Search { .. } if fails => ExportEvent::SearchFailed,
            ExportAction::Search { offset, limit } => {
                page = &docs[offset..(offset + limit).min(docs.len())];
                ExportEvent::Found { hits: page.len() }
            }
            ExportAction::Read { .. } if fails => return None,
            ExportAction::Read { index } => {
                current = page[index].clone();
                ExportEvent::Read {
                    record: current.is_some(),
                }
            }
            ExportAction::Write if fails => {
                file.push(current.take().unwrap()[0]);
                ExportEvent::WriteFailed
            }
            ExportAction::Write => {
                file.extend(current.take().unwrap());
                ExportEvent::Written
            }
            ExportAction::Close if fails => ExportEvent::CloseFailed,
            ExportAction::Close => ExportEvent::Closed,
            ExportAction::Stop { end } => return Some((end, file)),
        };
        state = state.next(event);
    }
}

#[test]
fn failed_export_leaves_a_prefix() {
    let docs = documents(2003);
    let whole = [b"old".to_vec(), records(&docs)].concat();
    let mut ends = Vec::new();
    for step in 0.. {
        let Some((end, file)) = fail_at(step, &docs) else {
            continue;
        };
        assert!(file.starts_with(b"old") && whole.starts_with(&file));
        if !ends.contains(&end) {
            ends.push(end);
        }
        if end == ExportEnd::Complete {
            assert_eq!(file, whole);
            break;
        }
    }
    assert_eq!(
        ends,
        [
            ExportEnd::CountFailed,
            ExportEnd::OpenFailed,
            ExportEnd::SearchFailed,
            ExportEnd::WriteFailed,
            ExportEnd::NotFlushed,
            ExportEnd::Complete,
        ]
    );
}
