//! What an export as a whole recovers out of an index, in each of the two modes.
use vstd::prelude::*;

verus! {

use crate::account::AccountV3;
use crate::course::{law_record_of_one, law_records_concatenate};
use crate::directory::{
    contents,
    export_into,
    holds_all,
    holds_part,
    law_export_keeps_to_its_file,
    untouched,
    Directory,
};
use crate::export::{
    countable,
    failing_run,
    law_continued_export_is_complete,
    law_export_is_complete,
    law_failed_export_leaves_a_prefix,
    records_of,
    unopened,
    ExportEnd,
    ExportState,
    Faults,
    EXPORT_PAGE,
};
use crate::mbox::{
    fallback_document,
    fallback_file,
    law_fallback_files_differ,
    native_document,
    native_file,
    separator,
    UNKNOWN_SENDER,
};
use crate::metadata::{metadata_header, Metadata};
use crate::scan::{law_scan_counts_every_document, lists, scan_run, scan_start};
use crate::walk::{walk_start, WalkProgress};
use vstd::utf8::encode_utf8;

/// A document of the index.
pub ghost struct Document {
    pub account_id: u64,
    pub mailbox_id: u64,
    pub eml: Option<Seq<u8>>,
}

/// The documents of one account, in the order of the index.
pub open spec fn of_account(docs: Seq<Document>, account_id: u64) -> Seq<Document> {
    docs.filter(|doc: Document| doc.account_id == account_id)
}

/// The account of each document.
pub open spec fn account_ids(docs: Seq<Document>) -> Seq<u64> {
    docs.map_values(|doc: Document| doc.account_id)
}

/// The records of the documents of a known account.
pub open spec fn native_documents(
    line: Seq<char>,
    email: Seq<char>,
    index: Map<u64, (u64, Seq<char>)>,
    docs: Seq<Document>,
) -> Seq<Option<Seq<u8>>> {
    docs.map_values(
        |doc: Document| native_document(line, email, index, doc.mailbox_id, doc.eml),
    )
}

/// The records of the documents of an account of which only the id is known.
pub open spec fn fallback_documents(line: Seq<char>, docs: Seq<Document>) -> Seq<
    Option<Seq<u8>>,
> {
    docs.map_values(|doc: Document| fallback_document(line, doc.eml))
}

/// The records of an account whose address is known, out of an index.
pub open spec fn records_of_account(
    account: AccountV3,
    date: Seq<char>,
    index: Map<u64, (u64, Seq<char>)>,
    docs: Seq<Document>,
) -> Seq<Option<Seq<u8>>> {
    native_documents(
        separator(account.email@, date),
        account.email@,
        index,
        of_account(docs, account.id),
    )
}

/// The end of the export of an account whose address is known, and the directory after it.
pub open spec fn native_run(
    account: AccountV3,
    date: Seq<char>,
    index: Map<u64, (u64, Seq<char>)>,
    docs: Seq<Document>,
    dir: Directory,
    faults: Faults,
) -> (ExportEnd, Directory) {
    export_into(
        ExportState::Counting,
        records_of_account(account, date, index, docs),
        dir,
        native_file(account.email@),
        faults,
    )
}

/// With the databases at hand, the file that is named after the address of the selected account
/// receives each message of that account once, in the order of the index, and each under a
/// header that tells the account and the mailbox. No other file is touched.
pub proof fn law_native_mode_recovers(
    account: AccountV3,
    date: Seq<char>,
    index: Map<u64, (u64, Seq<char>)>,
    docs: Seq<Document>,
    dir: Directory,
    faults: Faults,
)
    requires
        0 < of_account(docs, account.id).len(),
        of_account(docs, account.id).len() + EXPORT_PAGE <= usize::MAX,
        forall|s: ExportState| !#[trigger] (faults.fails)(s),
    ensures
        ({
            let file = native_file(account.email@);
            let records = records_of_account(account, date, index, docs);
            native_run(account, date, index, docs, dir, faults) == (
                ExportEnd::Complete,
                dir.insert(file, contents(dir, file) + records_of(records)),
            )
        }),
{
    let file = native_file(account.email@);
    let records = records_of_account(account, date, index, docs);
    let (end, after) = native_run(account, date, index, docs, dir, faults);
    law_export_is_complete(records, Seq::empty());
    law_failed_export_leaves_a_prefix(records, contents(dir, file), faults);
    law_export_is_complete(records, contents(dir, file));
    law_export_keeps_to_its_file(ExportState::Counting, records, dir, file, faults);
    assert(end == ExportEnd::Complete);
    assert(after =~= dir.insert(file, contents(dir, file) + records_of(records)));
}

/// Whatever fails with the databases at hand, no file is touched but the one that is named after
/// the address of the selected account. That file keeps what it held, and receives the first
/// part of the records; it has received all of them where the export is complete.
pub proof fn law_native_mode_under_failure(
    account: AccountV3,
    date: Seq<char>,
    index: Map<u64, (u64, Seq<char>)>,
    docs: Seq<Document>,
    dir: Directory,
    faults: Faults,
)
    requires
        of_account(docs, account.id).len() + EXPORT_PAGE <= usize::MAX,
    ensures
        ({
            let file = native_file(account.email@);
            let records = records_of_account(account, date, index, docs);
            let (end, after) = native_run(account, date, index, docs, dir, faults);
            &&& forall|other: Seq<char>| other != file ==> #[trigger] untouched(dir, after, other)
            &&& holds_part(dir, after, file, records)
            &&& end == ExportEnd::Complete ==> holds_all(dir, after, file, records)
            &&& unopened(end) ==> after == dir
        }),
{
    law_export_keeps_to_its_file(
        ExportState::Counting,
        records_of_account(account, date, index, docs),
        dir,
        native_file(account.email@),
        faults,
    );
}

/// A scan counts for an account the documents that a query for it finds.
proof fn lemma_count_is_length(docs: Seq<Document>, account_id: u64)
    ensures
        account_ids(docs).to_multiset().count(account_id) == of_account(docs, account_id).len(),
    decreases docs.len(),
{
    broadcast use vstd::seq_lib::group_to_multiset_ensures;
    broadcast use vstd::multiset::group_multiset_axioms;

    reveal(Seq::filter);
    if docs.len() == 0 {
        assert(account_ids(docs) =~= Seq::<u64>::empty());
        assert(Seq::<u64>::empty().to_multiset() =~= vstd::multiset::Multiset::empty());
    } else {
        lemma_count_is_length(docs.drop_last(), account_id);
        assert(account_ids(docs) =~= account_ids(docs.drop_last()).push(docs.last().account_id));
    }
}

/// The end of a walk over accounts and the directory after it, where the actions that fail in
/// the export of an account are those that `faults` gives for its id.
pub open spec fn walk_run(
    walk: WalkProgress,
    docs: Seq<Document>,
    line: Seq<char>,
    dir: Directory,
    faults: spec_fn(u64) -> Faults,
) -> (WalkProgress, Directory)
    decreases
            if walk.next() is Some {
                walk.accounts.len() - walk.done
            } else {
                0
            },
{
    match walk.next() {
        Some((account_id, total)) => {
            let (end, after) = export_into(
                ExportState::Opening { total },
                fallback_documents(line, of_account(docs, account_id)),
                dir,
                fallback_file(account_id as nat),
                faults(account_id),
            );
            walk_run(walk.after_export(end), docs, line, after, faults)
        },
        None => (walk, dir),
    }
}

/// Whether some accounts are different, and stand with the numbers of their documents.
pub open spec fn counted(accounts: Seq<(u64, usize)>, docs: Seq<Document>) -> bool {
    &&& forall|i: int, j: int|
        0 <= i < j < accounts.len() ==> (#[trigger] accounts[i]).0 != (#[trigger] accounts[j]).0
    &&& forall|i: int|
        0 <= i < accounts.len() ==> {
            &&& 0 < (#[trigger] accounts[i]).1
            &&& countable(accounts[i].1)
            &&& accounts[i].1 == of_account(docs, accounts[i].0).len()
        }
}

/// How the export of an account of which the id alone is known ends.
pub open spec fn fallback_end(
    account: (u64, usize),
    docs: Seq<Document>,
    line: Seq<char>,
    faults: spec_fn(u64) -> Faults,
) -> ExportEnd {
    failing_run(
        ExportState::Opening { total: account.1 },
        fallback_documents(line, of_account(docs, account.0)),
        Seq::empty(),
        faults(account.0),
    ).0
}

/// Whether the file of an account stands as its export left it: with the first part of the
/// records; with all of them where the export is complete, which it is where it lets others
/// follow and closing does not fail; and as it was where it could not be opened.
pub open spec fn left_by_export(
    account: (u64, usize),
    docs: Seq<Document>,
    line: Seq<char>,
    before: Directory,
    after: Directory,
    faults: spec_fn(u64) -> Faults,
) -> bool {
    let file = fallback_file(account.0 as nat);
    let records = fallback_documents(line, of_account(docs, account.0));
    let end = fallback_end(account, docs, line, faults);
    &&& holds_part(before, after, file, records)
    &&& end == ExportEnd::Complete ==> holds_all(before, after, file, records)
    &&& end.continues() ==> end == ExportEnd::Complete || end == ExportEnd::NotFlushed && (faults(
        account.0,
    ).fails)(ExportState::Closing)
    &&& if unopened(end) {
        untouched(before, after, file)
    } else {
        after.contains_key(file)
    }
}

/// One account of a walk.
proof fn lemma_one_export(
    account: (u64, usize),
    docs: Seq<Document>,
    line: Seq<char>,
    dir: Directory,
    faults: spec_fn(u64) -> Faults,
)
    requires
        0 < account.1,
        countable(account.1),
        account.1 == of_account(docs, account.0).len(),
    ensures
        ({
            let file = fallback_file(account.0 as nat);
            let (end, after) = export_into(
                ExportState::Opening { total: account.1 },
                fallback_documents(line, of_account(docs, account.0)),
                dir,
                file,
                faults(account.0),
            );
            &&& end == fallback_end(account, docs, line, faults)
            &&& left_by_export(account, docs, line, dir, after, faults)
            &&& forall|other: Seq<char>| other != file ==> #[trigger] untouched(dir, after, other)
        }),
{
    let records = fallback_documents(line, of_account(docs, account.0));
    let file = fallback_file(account.0 as nat);
    let start = ExportState::Opening { total: account.1 };
    law_export_keeps_to_its_file(start, records, dir, file, faults(account.0));
    law_continued_export_is_complete(records, faults(account.0));
}

/// What a walk over the accounts from the one at `from` on has done.
pub open spec fn walked(
    from: int,
    accounts: Seq<(u64, usize)>,
    docs: Seq<Document>,
    line: Seq<char>,
    before: Directory,
    end: WalkProgress,
    after: Directory,
    faults: spec_fn(u64) -> Faults,
) -> bool {
    &&& end.accounts == accounts
    &&& from <= end.done <= accounts.len()
    // The accounts that are done let others follow, and the one behind them did not.
    &&& forall|i: int|
        from <= i < end.done ==> fallback_end(
            #[trigger] accounts[i],
            docs,
            line,
            faults,
        ).continues()
    &&& match end.stopped {
        Some(stopped) => {
            &&& end.done < accounts.len()
            &&& stopped == fallback_end(accounts[end.done], docs, line, faults)
            &&& !stopped.continues()
        },
        None => end.done == accounts.len(),
    }
    // The files of all of these stand as their exports left them.
    &&& forall|i: int|
        from <= i < accounts.len() && i <= end.done ==> left_by_export(
            #[trigger] accounts[i],
            docs,
            line,
            before,
            after,
            faults,
        )
    // Every other file stands as it was, those of the accounts behind among them.
    &&& forall|name: Seq<char>|
        (forall|i: int|
            from <= i < accounts.len() && i <= end.done ==> name != fallback_file(
                (#[trigger] accounts[i]).0 as nat,
            )) ==> #[trigger] untouched(before, after, name)
}

/// The walk from any account on.
proof fn lemma_walk(
    walk: WalkProgress,
    docs: Seq<Document>,
    line: Seq<char>,
    dir: Directory,
    faults: spec_fn(u64) -> Faults,
)
    requires
        counted(walk.accounts, docs),
        walk.stopped is None,
        0 <= walk.done <= walk.accounts.len(),
    ensures
        ({
            let (end, after) = walk_run(walk, docs, line, dir, faults);
            walked(walk.done, walk.accounts, docs, line, dir, end, after, faults)
        }),
    decreases walk.accounts.len() - walk.done,
{
    let accounts = walk.accounts;
    let (end, after) = walk_run(walk, docs, line, dir, faults);
    if walk.done < accounts.len() {
        let account = accounts[walk.done];
        let file = fallback_file(account.0 as nat);
        let (export_end, middle) = export_into(
            ExportState::Opening { total: account.1 },
            fallback_documents(line, of_account(docs, account.0)),
            dir,
            file,
            faults(account.0),
        );
        lemma_one_export(account, docs, line, dir, faults);
        assert forall|i: int| walk.done < i < accounts.len() implies fallback_file(
            (#[trigger] accounts[i]).0 as nat,
        ) != file by {
            if fallback_file(accounts[i].0 as nat) == file {
                law_fallback_files_differ(accounts[i].0 as nat, account.0 as nat);
            }
        }
        if export_end.continues() {
            lemma_walk(walk.after_export(export_end), docs, line, middle, faults);
            lemma_walk_goes_on(walk.done, accounts, docs, line, dir, middle, end, after, faults);
        } else {
            assert(walk_run(walk.after_export(export_end), docs, line, middle, faults) == (
                walk.after_export(export_end),
                middle,
            ));
        }
    }
}

/// A walk that exports the account at `from` and goes on behind it has walked from there.
proof fn lemma_walk_goes_on(
    from: int,
    accounts: Seq<(u64, usize)>,
    docs: Seq<Document>,
    line: Seq<char>,
    before: Directory,
    middle: Directory,
    end: WalkProgress,
    after: Directory,
    faults: spec_fn(u64) -> Faults,
)
    requires
        0 <= from < accounts.len(),
        fallback_end(accounts[from], docs, line, faults).continues(),
        left_by_export(accounts[from], docs, line, before, middle, faults),
        forall|name: Seq<char>|
            name != fallback_file(accounts[from].0 as nat) ==> #[trigger] untouched(
                before,
                middle,
                name,
            ),
        forall|i: int|
            from < i < accounts.len() ==> fallback_file((#[trigger] accounts[i]).0 as nat)
                != fallback_file(accounts[from].0 as nat),
        walked(from + 1, accounts, docs, line, middle, end, after, faults),
    ensures
        walked(from, accounts, docs, line, before, end, after, faults),
{
    let file = fallback_file(accounts[from].0 as nat);
    assert(untouched(middle, after, file));
    assert forall|i: int| from <= i < accounts.len() && i <= end.done implies left_by_export(
        #[trigger] accounts[i],
        docs,
        line,
        before,
        after,
        faults,
    ) by {
        if i > from {
            assert(untouched(before, middle, fallback_file(accounts[i].0 as nat)));
        }
    }
    assert forall|name: Seq<char>|
        (forall|i: int|
            from <= i < accounts.len() && i <= end.done ==> name != fallback_file(
                (#[trigger] accounts[i]).0 as nat,
            )) implies #[trigger] untouched(before, after, name) by {
        assert(name != fallback_file(accounts[from].0 as nat));
        assert(untouched(before, middle, name));
        assert(untouched(middle, after, name));
    }
}

/// The end of an export without the databases, and the directory after it: the accounts are
/// walked over in the order in which they are listed.
pub open spec fn fallback_run(
    accounts: Seq<(u64, usize)>,
    docs: Seq<Document>,
    date: Seq<char>,
    dir: Directory,
    faults: spec_fn(u64) -> Faults,
) -> (WalkProgress, Directory) {
    walk_run(walk_start(accounts), docs, separator(UNKNOWN_SENDER@, date), dir, faults)
}

/// Whether some accounts are what a scan of an index lists.
pub open spec fn scanned(accounts: Seq<(u64, usize)>, docs: Seq<Document>) -> bool {
    lists(accounts, scan_run(scan_start(docs.len() as int), account_ids(docs)).tally)
}

/// Whether an account is among some that are listed.
pub open spec fn is_listed(accounts: Seq<(u64, usize)>, account_id: u64) -> bool {
    exists|i: int| 0 <= i < accounts.len() && (#[trigger] accounts[i]).0 == account_id
}

/// The accounts that a scan lists are different, and stand with the numbers of their documents.
/// Each document belongs to one of them.
pub proof fn law_scan_finds_every_account(accounts: Seq<(u64, usize)>, docs: Seq<Document>)
    requires
        docs.len() + EXPORT_PAGE <= usize::MAX,
        scanned(accounts, docs),
    ensures
        counted(accounts, docs),
        forall|k: int|
            0 <= k < docs.len() ==> is_listed(accounts, (#[trigger] docs[k]).account_id),
{
    broadcast use vstd::seq_lib::group_to_multiset_ensures;

    let ids = account_ids(docs);
    let tally = scan_run(scan_start(docs.len() as int), ids).tally;
    law_scan_counts_every_document(ids);
    assert(tally == ids.to_multiset());
    assert forall|k: int| 0 <= k < docs.len() implies is_listed(
        accounts,
        (#[trigger] docs[k]).account_id,
    ) by {
        assert(ids[k] == docs[k].account_id);
        assert(ids.contains(docs[k].account_id));
        assert(tally.count(docs[k].account_id) > 0);
    }
    assert forall|i: int| 0 <= i < accounts.len() implies {
        &&& 0 < (#[trigger] accounts[i]).1
        &&& countable(accounts[i].1)
        &&& accounts[i].1 == of_account(docs, accounts[i].0).len()
    } by {
        lemma_count_is_length(docs, accounts[i].0);
        assert(tally.count(accounts[i].0) <= tally.len()) by {
            broadcast use vstd::multiset::group_multiset_axioms;

        }
    }
}

/// Whatever fails without the databases, the accounts are exported in the order in which they
/// are listed, up to the first whose export lets no other follow. The file of each account
/// before that one has received all records of the account, unless closing the file failed, when
/// it may have received only the first part. The file of that one has received the first part.
/// The files of the accounts behind it are not opened and receive nothing, and no other file is
/// touched. Without such an account every account is exported.
pub proof fn law_fallback_mode_under_failure(
    accounts: Seq<(u64, usize)>,
    docs: Seq<Document>,
    date: Seq<char>,
    dir: Directory,
    faults: spec_fn(u64) -> Faults,
)
    requires
        docs.len() + EXPORT_PAGE <= usize::MAX,
        scanned(accounts, docs),
    ensures
        ({
            let line = separator(UNKNOWN_SENDER@, date);
            let (end, after) = fallback_run(accounts, docs, date, dir, faults);
            &&& walked(0, accounts, docs, line, dir, end, after, faults)
            &&& forall|i: int|
                0 <= i < end.done ==> {
                    let file = fallback_file((#[trigger] accounts[i]).0 as nat);
                    let records = fallback_documents(line, of_account(docs, accounts[i].0));
                    &&& after.contains_key(file)
                    &&& holds_part(dir, after, file, records)
                    &&& !(faults(accounts[i].0).fails)(ExportState::Closing) ==> holds_all(
                        dir,
                        after,
                        file,
                        records,
                    )
                }
            &&& end.done < accounts.len() ==> holds_part(
                dir,
                after,
                fallback_file(accounts[end.done].0 as nat),
                fallback_documents(line, of_account(docs, accounts[end.done].0)),
            )
            &&& forall|i: int|
                end.done < i < accounts.len() ==> untouched(
                    dir,
                    after,
                    fallback_file((#[trigger] accounts[i]).0 as nat),
                )
        }),
{
    let line = separator(UNKNOWN_SENDER@, date);
    let (end, after) = fallback_run(accounts, docs, date, dir, faults);
    law_scan_finds_every_account(accounts, docs);
    lemma_walk(walk_start(accounts), docs, line, dir, faults);
    assert forall|i: int| end.done < i < accounts.len() implies untouched(
        dir,
        after,
        fallback_file((#[trigger] accounts[i]).0 as nat),
    ) by {
        assert forall|j: int| 0 <= j < accounts.len() && j <= end.done implies fallback_file(
            accounts[i].0 as nat,
        ) != fallback_file((#[trigger] accounts[j]).0 as nat) by {
            if fallback_file(accounts[i].0 as nat) == fallback_file(accounts[j].0 as nat) {
                law_fallback_files_differ(accounts[i].0 as nat, accounts[j].0 as nat);
            }
        }
    }
}

/// Without a failure and without the databases, every account of a document is exported. The
/// file of each receives each message of the account once, in the order of the index, with
/// nothing added to it but a separator line. No other file is touched.
pub proof fn law_fallback_mode_recovers(
    accounts: Seq<(u64, usize)>,
    docs: Seq<Document>,
    date: Seq<char>,
    dir: Directory,
    faults: spec_fn(u64) -> Faults,
)
    requires
        docs.len() + EXPORT_PAGE <= usize::MAX,
        scanned(accounts, docs),
        forall|id: u64, s: ExportState| !#[trigger] (faults(id).fails)(s),
    ensures
        ({
            let line = separator(UNKNOWN_SENDER@, date);
            let (end, after) = fallback_run(accounts, docs, date, dir, faults);
            &&& end.done == accounts.len()
            &&& end.stopped is None
            &&& forall|k: int|
                0 <= k < docs.len() ==> is_listed(accounts, (#[trigger] docs[k]).account_id)
            &&& forall|i: int|
                0 <= i < accounts.len() ==> holds_all(
                    dir,
                    after,
                    fallback_file((#[trigger] accounts[i]).0 as nat),
                    fallback_documents(line, of_account(docs, accounts[i].0)),
                )
            &&& forall|name: Seq<char>|
                (forall|i: int|
                    0 <= i < accounts.len() ==> name != fallback_file(
                        (#[trigger] accounts[i]).0 as nat,
                    )) ==> #[trigger] untouched(dir, after, name)
        }),
{
    let line = separator(UNKNOWN_SENDER@, date);
    let (end, after) = fallback_run(accounts, docs, date, dir, faults);
    law_scan_finds_every_account(accounts, docs);
    law_fallback_mode_under_failure(accounts, docs, date, dir, faults);
    if end.done < accounts.len() {
        let account = accounts[end.done];
        let records = fallback_documents(line, of_account(docs, account.0));
        law_failed_export_leaves_a_prefix(records, Seq::empty(), faults(account.0));
        law_export_is_complete(records, Seq::empty());
        assert(fallback_end(account, docs, line, faults) == ExportEnd::Complete);
        assert(false);
    }
}

/// The records of some documents, taken apart at one of them.
proof fn lemma_records_around(records: Seq<Option<Seq<u8>>>, k: int)
    requires
        0 <= k < records.len(),
    ensures
        records_of(records) == records_of(records.take(k)) + (match records[k] {
            Some(record) => record,
            None => Seq::empty(),
        }) + records_of(records.skip(k + 1)),
{
    let one = seq![records[k]];
    let bytes = match records[k] {
        Some(record) => record,
        None => Seq::empty(),
    };
    assert(records =~= records.take(k) + one + records.skip(k + 1));
    law_records_concatenate(records.take(k) + one, records.skip(k + 1));
    law_records_concatenate(records.take(k), one);
    law_record_of_one(bytes);
    assert(records[k] is None ==> one =~= seq![None::<Seq<u8>>]);
    assert(records[k] is Some ==> one =~= seq![Some(bytes)]);
}

/// What the file of an account receives without the databases holds each message of the account
/// at its place among the others: the separator line, all bytes of the message, and two line
/// feeds. A document without a message leaves no trace.
pub proof fn law_fallback_file_holds_each_message(line: Seq<char>, docs: Seq<Document>, k: int)
    requires
        0 <= k < docs.len(),
    ensures
        records_of(fallback_documents(line, docs)) == records_of(
            fallback_documents(line, docs.take(k)),
        ) + (match docs[k].eml {
            Some(eml) => encode_utf8(line) + eml + seq![10u8, 10u8],
            None => Seq::empty(),
        }) + records_of(fallback_documents(line, docs.skip(k + 1))),
{
    let records = fallback_documents(line, docs);
    lemma_records_around(records, k);
    assert(records.take(k) =~= fallback_documents(line, docs.take(k)));
    assert(records.skip(k + 1) =~= fallback_documents(line, docs.skip(k + 1)));
}

/// What the file of a known account receives holds each message of the account at its place
/// among the others: the separator line, the header line that tells the address of the account
/// and the name of the mailbox, all bytes of the message, and two line feeds. A document without
/// a message leaves no trace.
pub proof fn law_native_file_holds_each_message(
    line: Seq<char>,
    email: Seq<char>,
    index: Map<u64, (u64, Seq<char>)>,
    docs: Seq<Document>,
    k: int,
)
    requires
        0 <= k < docs.len(),
    ensures
        records_of(native_documents(line, email, index, docs)) == records_of(
            native_documents(line, email, index, docs.take(k)),
        ) + (match docs[k].eml {
            Some(eml) => encode_utf8(line) + encode_utf8(
                metadata_header(
                    Metadata {
                        account_email: Some(email),
                        mailbox_name: if index.contains_key(docs[k].mailbox_id) {
                            Some(index[docs[k].mailbox_id].1)
                        } else {
                            None
                        },
                    },
                ),
            ) + eml + seq![10u8, 10u8],
            None => Seq::empty(),
        }) + records_of(native_documents(line, email, index, docs.skip(k + 1))),
{
    let records = native_documents(line, email, index, docs);
    lemma_records_around(records, k);
    assert(records.take(k) =~= native_documents(line, email, index, docs.take(k)));
    assert(records.skip(k + 1) =~= native_documents(line, email, index, docs.skip(k + 1)));
}

} // verus!
