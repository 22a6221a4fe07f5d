//! What the export of one account leaves in the output directory.
use vstd::prelude::*;

verus! {

use crate::export::{
    export_run,
    failing_run,
    keeps_to_prefix,
    law_empty_export_touches_nothing,
    law_end_tells_whether_opened,
    law_export_is_complete,
    law_failed_export_leaves_a_prefix,
    opens_file,
    records_of,
    unopened,
    ExportEnd,
    ExportState,
    Faults,
    EXPORT_PAGE,
};

/// The files of a directory, each with its name and what it holds.
pub type Directory = Map<Seq<char>, Seq<u8>>;

/// What a file holds: nothing where there is none.
pub open spec fn contents(dir: Directory, name: Seq<char>) -> Seq<u8> {
    if dir.contains_key(name) {
        dir[name]
    } else {
        Seq::empty()
    }
}

/// The end of an export into a file, and the directory after it. Opening the file creates it
/// where there is none; an export that does not come to open it leaves the directory alone.
pub open spec fn export_into(
    start: ExportState,
    docs: Seq<Option<Seq<u8>>>,
    dir: Directory,
    name: Seq<char>,
    faults: Faults,
) -> (ExportEnd, Directory) {
    let run = failing_run(start, docs, Seq::empty(), faults);
    (
        run.0,
        if opens_file(start, docs, faults) {
            dir.insert(name, contents(dir, name) + run.1)
        } else {
            dir
        },
    )
}

/// Whether a file is as it was: there or not, and with what it held.
pub open spec fn untouched(before: Directory, after: Directory, name: Seq<char>) -> bool {
    &&& after.contains_key(name) == before.contains_key(name)
    &&& contents(after, name) == contents(before, name)
}

/// Whether a file has received the records of all documents behind what it held.
pub open spec fn holds_all(
    before: Directory,
    after: Directory,
    name: Seq<char>,
    docs: Seq<Option<Seq<u8>>>,
) -> bool {
    &&& after.contains_key(name)
    &&& contents(after, name) == contents(before, name) + records_of(docs)
}

/// Whether a file has received the first part of those records behind what it held: nothing,
/// all of them, or anything between.
pub open spec fn holds_part(
    before: Directory,
    after: Directory,
    name: Seq<char>,
    docs: Seq<Option<Seq<u8>>>,
) -> bool {
    &&& contents(before, name).is_prefix_of(contents(after, name))
    &&& contents(after, name).is_prefix_of(contents(before, name) + records_of(docs))
}

/// Whether an export starts in a state: before its documents are counted, or once they are.
pub open spec fn starts(start: ExportState, docs: Seq<Option<Seq<u8>>>) -> bool {
    ||| start == ExportState::Counting
    ||| 0 < docs.len() && start == (ExportState::Opening { total: docs.len() as usize })
}

/// Bytes start with themselves, and with what they were made longer from.
proof fn lemma_prefix_of_longer(front: Seq<u8>, back: Seq<u8>)
    ensures
        front.is_prefix_of(front),
        front.is_prefix_of(front + back),
{
    assert(front =~= front.subrange(0, front.len() as int));
    assert(front =~= (front + back).subrange(0, front.len() as int));
}

/// Whatever fails, the export of an account touches no file but its own, whose old contents
/// stay and receive the first part of the records. A complete export has added all of them. One
/// whose documents could not be counted, one without documents, and one whose file could not be
/// opened leave the directory alone; after any other the file is there.
pub proof fn law_export_keeps_to_its_file(
    start: ExportState,
    docs: Seq<Option<Seq<u8>>>,
    dir: Directory,
    name: Seq<char>,
    faults: Faults,
)
    requires
        docs.len() + EXPORT_PAGE <= usize::MAX,
        starts(start, docs),
    ensures
        ({
            let (end, after) = export_into(start, docs, dir, name, faults);
            &&& forall|other: Seq<char>|
                other != name ==> #[trigger] untouched(dir, after, other)
            &&& holds_part(dir, after, name, docs)
            &&& end == ExportEnd::Complete ==> holds_all(dir, after, name, docs)
            &&& unopened(end) ==> after == dir
            &&& !unopened(end) ==> after.contains_key(name)
        }),
{
    let (end, after) = export_into(start, docs, dir, name, faults);
    let run = failing_run(start, docs, Seq::empty(), faults);
    let held = contents(dir, name);
    law_failed_export_leaves_a_prefix(docs, held, faults);
    assert(keeps_to_prefix(start, docs, held, faults));
    if docs.len() == 0 {
        assert(docs =~= Seq::empty());
        law_empty_export_touches_nothing(held);
        assert(held + records_of(docs) =~= held);
    } else {
        law_export_is_complete(docs, held);
    }
    assert(export_run(start, docs, held).1 == held + records_of(docs));
    lemma_prefix_of_longer(held, run.1);
    lemma_prefix_of_longer(held, records_of(docs));
    law_end_tells_whether_opened(docs, faults);
}

} // verus!
