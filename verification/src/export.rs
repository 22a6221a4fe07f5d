//! The course of an export: which query, which document and which write comes next.
//!
//! An export is driven by answers. `ExportState::action` tells what to do, and
//! `ExportState::next` takes what came of it.
use vstd::prelude::*;

verus! {

use crate::paging::page_of;

/// How many documents a page of an export asks for.
pub const EXPORT_PAGE: usize = 2000;

/// How an export ended.
#[derive(Clone, Copy, Debug, PartialEq, Eq, Structural)]
pub enum ExportEnd {
    /// There was nothing to export, and no file was opened.
    Empty,
    /// Every page was read and the file was closed.
    Complete,
    /// Every page was read, but closing the file failed.
    NotFlushed,
    /// The documents could not be counted.
    CountFailed,
    /// The file could not be opened.
    OpenFailed,
    /// A page could not be queried.
    SearchFailed,
    /// A record could not be written.
    WriteFailed,
}

/// Where an export stands.
#[derive(Clone, Copy, Debug, PartialEq, Eq, Structural)]
pub enum ExportState {
    /// The documents are to be counted.
    Counting,
    /// The file is to be opened.
    Opening { total: usize },
    /// The page at `offset` is to be queried.
    Searching { total: usize, offset: usize },
    /// Of the `hits` documents on the page at `offset`, the one at `index` is to be read.
    Reading { total: usize, offset: usize, hits: usize, index: usize },
    /// The record of that document is to be written.
    Writing { total: usize, offset: usize, hits: usize, index: usize },
    /// The file is to be closed.
    Closing,
    /// Nothing is left to do.
    Ended { end: ExportEnd },
}

/// What an export asks for.
#[derive(Clone, Copy, Debug, PartialEq, Eq, Structural)]
pub enum ExportAction {
    /// Count the documents of the account.
    Count,
    /// Open the file for appending, creating it where there is none.
    Open,
    /// Query up to `limit` documents of the account, the first `offset` left out.
    Search { offset: usize, limit: usize },
    /// Read a document of the page that was found last.
    Read { index: usize },
    /// Append the record of the document that was read last.
    Write,
    /// Flush the file and close it.
    Close,
    /// Stop: the export has ended.
    Stop { end: ExportEnd },
}

/// What came of an action.
#[derive(Clone, Copy, Debug, PartialEq, Eq, Structural)]
pub enum ExportEvent {
    Counted { total: usize },
    CountFailed,
    Opened,
    OpenFailed,
    Found { hits: usize },
    SearchFailed,
    /// A document was read; `record` tells whether it holds a message.
    Read { record: bool },
    Written,
    WriteFailed,
    Closed,
    CloseFailed,
}

/// Whether every offset of an export of `total` documents fits in a `usize`.
pub open spec fn countable(total: usize) -> bool {
    total + EXPORT_PAGE <= usize::MAX
}

/// The state once the page at `offset` is done: the next page, or the end.
pub open spec fn after_page(total: usize, offset: usize) -> ExportState {
    if offset + EXPORT_PAGE < total {
        ExportState::Searching { total, offset: (offset + EXPORT_PAGE) as usize }
    } else {
        ExportState::Closing
    }
}

/// The state once a document is done: the next document of the page, or the page is done.
pub open spec fn after_document(
    total: usize,
    offset: usize,
    hits: usize,
    index: usize,
) -> ExportState {
    if index + 1 < hits {
        ExportState::Reading { total, offset, hits, index: (index + 1) as usize }
    } else {
        after_page(total, offset)
    }
}

impl ExportState {
    /// Offsets lie on page boundaries within the documents, and indices within the page.
    pub open spec fn wf(self) -> bool {
        match self {
            ExportState::Opening { total } => countable(total),
            ExportState::Searching { total, offset } => {
                &&& countable(total)
                &&& offset < total
                &&& offset % EXPORT_PAGE == 0
            },
            ExportState::Reading { total, offset, hits, index } => {
                &&& countable(total)
                &&& offset < total
                &&& offset % EXPORT_PAGE == 0
                &&& index < hits
            },
            ExportState::Writing { total, offset, hits, index } => {
                &&& countable(total)
                &&& offset < total
                &&& offset % EXPORT_PAGE == 0
                &&& index < hits
            },
            _ => true,
        }
    }

    /// What is to be done in a state.
    pub open spec fn asks(self) -> ExportAction {
        match self {
            ExportState::Counting => ExportAction::Count,
            ExportState::Opening { .. } => ExportAction::Open,
            ExportState::Searching { offset, .. } => ExportAction::Search {
                offset,
                limit: EXPORT_PAGE,
            },
            ExportState::Reading { index, .. } => ExportAction::Read { index },
            ExportState::Writing { .. } => ExportAction::Write,
            ExportState::Closing => ExportAction::Close,
            ExportState::Ended { end } => ExportAction::Stop { end },
        }
    }

    /// Whether an event is an answer to what the state asks for.
    pub open spec fn answered_by(self, event: ExportEvent) -> bool {
        match self {
            ExportState::Counting => event is Counted || event is CountFailed,
            ExportState::Opening { .. } => event is Opened || event is OpenFailed,
            ExportState::Searching { .. } => event is Found || event is SearchFailed,
            ExportState::Reading { .. } => event is Read,
            ExportState::Writing { .. } => event is Written || event is WriteFailed,
            ExportState::Closing => event is Closed || event is CloseFailed,
            ExportState::Ended { .. } => false,
        }
    }

    /// The state after an event. An event that answers nothing changes nothing.
    pub open spec fn after(self, event: ExportEvent) -> ExportState {
        match (self, event) {
            (ExportState::Counting, ExportEvent::Counted { total }) => if total == 0 {
                ExportState::Ended { end: ExportEnd::Empty }
            } else {
                ExportState::Opening { total }
            },
            (ExportState::Counting, ExportEvent::CountFailed) => ExportState::Ended {
                end: ExportEnd::CountFailed,
            },
            (ExportState::Opening { total }, ExportEvent::Opened) => if total == 0 {
                ExportState::Closing
            } else {
                ExportState::Searching { total, offset: 0 }
            },
            (ExportState::Opening { .. }, ExportEvent::OpenFailed) => ExportState::Ended {
                end: ExportEnd::OpenFailed,
            },
            (ExportState::Searching { total, offset }, ExportEvent::Found { hits }) => if hits
                == 0 {
                ExportState::Closing
            } else {
                ExportState::Reading { total, offset, hits, index: 0 }
            },
            (ExportState::Searching { .. }, ExportEvent::SearchFailed) => ExportState::Ended {
                end: ExportEnd::SearchFailed,
            },
            (
                ExportState::Reading { total, offset, hits, index },
                ExportEvent::Read { record },
            ) => if record {
                ExportState::Writing { total, offset, hits, index }
            } else {
                after_document(total, offset, hits, index)
            },
            (
                ExportState::Writing { total, offset, hits, index },
                ExportEvent::Written,
            ) => after_document(total, offset, hits, index),
            (ExportState::Writing { .. }, ExportEvent::WriteFailed) => ExportState::Ended {
                end: ExportEnd::WriteFailed,
            },
            (ExportState::Closing, ExportEvent::Closed) => ExportState::Ended {
                end: ExportEnd::Complete,
            },
            (ExportState::Closing, ExportEvent::CloseFailed) => ExportState::Ended {
                end: ExportEnd::NotFlushed,
            },
            _ => self,
        }
    }

    /// Starts the export of an account whose documents are still to be counted.
    pub fn start() -> (state: ExportState)
        ensures
            state == ExportState::Counting,
            state.wf(),
    {
        ExportState::Counting
    }

    /// Starts the export of an account of which the number of documents is known.
    pub fn start_counted(total: usize) -> (state: ExportState)
        requires
            countable(total),
        ensures
            state == (ExportState::Opening { total }),
            state.wf(),
    {
        ExportState::Opening { total }
    }

    /// Tells what is to be done.
    pub fn action(&self) -> (action: ExportAction)
        ensures
            action == self.asks(),
    {
        match *self {
            ExportState::Counting => ExportAction::Count,
            ExportState::Opening { .. } => ExportAction::Open,
            ExportState::Searching { offset, .. } => ExportAction::Search {
                offset,
                limit: EXPORT_PAGE,
            },
            ExportState::Reading { index, .. } => ExportAction::Read { index },
            ExportState::Writing { .. } => ExportAction::Write,
            ExportState::Closing => ExportAction::Close,
            ExportState::Ended { end } => ExportAction::Stop { end },
        }
    }

    /// Goes on to the next document of the page, or to the next page, or to the end.
    fn next_document(total: usize, offset: usize, hits: usize, index: usize) -> (state: ExportState)
        requires
            countable(total),
            offset < total,
            offset % EXPORT_PAGE == 0,
            index < hits,
        ensures
            state == after_document(total, offset, hits, index),
            state.wf(),
    {
        if index + 1 < hits {
            ExportState::Reading { total, offset, hits, index: index + 1 }
        } else if offset + EXPORT_PAGE < total {
            ExportState::Searching { total, offset: offset + EXPORT_PAGE }
        } else {
            ExportState::Closing
        }
    }

    /// Takes what came of the last action.
    pub fn next(self, event: ExportEvent) -> (state: ExportState)
        requires
            self.wf(),
            event matches ExportEvent::Counted { total } ==> countable(total),
        ensures
            state == self.after(event),
            state.wf(),
    {
        match (self, event) {
            (ExportState::Counting, ExportEvent::Counted { total }) => if total == 0 {
                ExportState::Ended { end: ExportEnd::Empty }
            } else {
                ExportState::Opening { total }
            },
            (ExportState::Counting, ExportEvent::CountFailed) => ExportState::Ended {
                end: ExportEnd::CountFailed,
            },
            (ExportState::Opening { total }, ExportEvent::Opened) => if total == 0 {
                ExportState::Closing
            } else {
                ExportState::Searching { total, offset: 0 }
            },
            (ExportState::Opening { .. }, ExportEvent::OpenFailed) => ExportState::Ended {
                end: ExportEnd::OpenFailed,
            },
            (ExportState::Searching { total, offset }, ExportEvent::Found { hits }) => if hits
                == 0 {
                ExportState::Closing
            } else {
                ExportState::Reading { total, offset, hits, index: 0 }
            },
            (ExportState::Searching { .. }, ExportEvent::SearchFailed) => ExportState::Ended {
                end: ExportEnd::SearchFailed,
            },
            (
                ExportState::Reading { total, offset, hits, index },
                ExportEvent::Read { record },
            ) => if record {
                ExportState::Writing { total, offset, hits, index }
            } else {
                Self::next_document(total, offset, hits, index)
            },
            (
                ExportState::Writing { total, offset, hits, index },
                ExportEvent::Written,
            ) => Self::next_document(total, offset, hits, index),
            (ExportState::Writing { .. }, ExportEvent::WriteFailed) => ExportState::Ended {
                end: ExportEnd::WriteFailed,
            },
            (ExportState::Closing, ExportEvent::Closed) => ExportState::Ended {
                end: ExportEnd::Complete,
            },
            (ExportState::Closing, ExportEvent::CloseFailed) => ExportState::Ended {
                end: ExportEnd::NotFlushed,
            },
            _ => self,
        }
    }
}

impl ExportEnd {
    /// Whether the process gives up with an error status: no query can be trusted any more.
    pub open spec fn fatal(self) -> bool {
        self == ExportEnd::CountFailed || self == ExportEnd::SearchFailed
    }

    /// Whether the export of further accounts goes on.
    pub open spec fn continues(self) -> bool {
        self == ExportEnd::Complete || self == ExportEnd::NotFlushed || self == ExportEnd::Empty
    }

    /// Tells whether the process gives up with an error status.
    pub fn is_fatal(&self) -> (r: bool)
        ensures
            r == self.fatal(),
    {
        matches!(*self, ExportEnd::CountFailed | ExportEnd::SearchFailed)
    }

    /// Tells whether the export of further accounts goes on.
    pub fn lets_others_follow(&self) -> (r: bool)
        ensures
            r == self.continues(),
    {
        matches!(*self, ExportEnd::Complete | ExportEnd::NotFlushed | ExportEnd::Empty)
    }
}

/// The records of some documents, one behind the other. A document without a message is
/// `None` and has none.
pub open spec fn records_of(docs: Seq<Option<Seq<u8>>>) -> Seq<u8>
    decreases docs.len(),
{
    if docs.len() == 0 {
        Seq::empty()
    } else {
        (match docs.first() {
            Some(record) => record,
            None => Seq::empty(),
        }) + records_of(docs.drop_first())
    }
}

impl ExportState {
    /// How many steps of the course lie ahead: stages first.
    pub open spec fn stages_left(self) -> int {
        match self {
            ExportState::Counting => 4,
            ExportState::Opening { .. } => 3,
            ExportState::Searching { .. } => 2,
            ExportState::Reading { .. } => 2,
            ExportState::Writing { .. } => 2,
            ExportState::Closing => 1,
            ExportState::Ended { .. } => 0,
        }
    }

    /// Then documents that no page has covered.
    pub open spec fn documents_left(self) -> int {
        match self {
            ExportState::Searching { total, offset } => total - offset,
            ExportState::Reading { total, offset, .. } => total - offset,
            ExportState::Writing { total, offset, .. } => total - offset,
            _ => 0,
        }
    }

    /// Then the query of the page.
    pub open spec fn queries_left(self) -> int {
        match self {
            ExportState::Searching { .. } => 1,
            _ => 0,
        }
    }

    /// Then reads and writes on the page.
    pub open spec fn accesses_left(self) -> int {
        match self {
            ExportState::Reading { hits, index, .. } => 2 * (hits - index) + 1,
            ExportState::Writing { hits, index, .. } => 2 * (hits - index),
            _ => 0,
        }
    }
}

/// Every answer brings the export nearer to its end, whatever the answer is, so every export
/// ends.
pub proof fn law_export_ends(state: ExportState, event: ExportEvent)
    requires
        state.wf(),
        state.answered_by(event),
    ensures
        decreases_to!(
            state.stages_left(), state.documents_left(), state.queries_left(), state.accesses_left()
            => state.after(event).stages_left(), state.after(event).documents_left(),
            state.after(event).queries_left(), state.after(event).accesses_left()
        ),
{
}

/// An event that answers nothing leaves the state as it is; an ended export stays ended.
pub proof fn law_stray_events_ignored(state: ExportState, event: ExportEvent)
    requires
        !state.answered_by(event),
    ensures
        state.after(event) == state,
{
}

/// Whether an event reports a failure.
pub open spec fn is_failure(event: ExportEvent) -> bool {
    ||| event is CountFailed
    ||| event is OpenFailed
    ||| event is SearchFailed
    ||| event is WriteFailed
    ||| event is CloseFailed
}

/// After a failure nothing more is queried, read or written.
pub proof fn law_failure_stops(state: ExportState, event: ExportEvent)
    requires
        state.answered_by(event),
        is_failure(event),
    ensures
        state.after(event).asks() is Stop,
{
}

/// What comes of the action of a state where nothing fails: the index holds `docs`, and
/// answers every query with the page that was asked for.
pub open spec fn success(state: ExportState, docs: Seq<Option<Seq<u8>>>) -> ExportEvent {
    match state {
        ExportState::Counting => ExportEvent::Counted { total: docs.len() as usize },
        ExportState::Opening { .. } => ExportEvent::Opened,
        ExportState::Searching { offset, .. } => ExportEvent::Found {
            hits: page_of(docs, offset as int, EXPORT_PAGE as int).len() as usize,
        },
        ExportState::Reading { offset, index, .. } => ExportEvent::Read {
            record: docs[offset + index] is Some,
        },
        ExportState::Writing { .. } => ExportEvent::Written,
        ExportState::Closing => ExportEvent::Closed,
        ExportState::Ended { .. } => ExportEvent::Closed,
    }
}

/// What the action of a state hands over to the file.
pub open spec fn handed_over(state: ExportState, docs: Seq<Option<Seq<u8>>>) -> Seq<u8> {
    match state {
        ExportState::Writing { offset, index, .. } => docs[offset + index]->0,
        _ => Seq::empty(),
    }
}

/// The end of an export and the contents of its file, where nothing fails; `file` is what the
/// file holds so far.
pub open spec fn export_run(
    state: ExportState,
    docs: Seq<Option<Seq<u8>>>,
    file: Seq<u8>,
) -> (ExportEnd, Seq<u8>)
    decreases
            state.stages_left(),
            state.documents_left(),
            state.queries_left(),
            state.accesses_left(),
        when state.wf()
{
    match state {
        ExportState::Ended { end } => (end, file),
        _ => export_run(
            state.after(success(state, docs)),
            docs,
            file + handed_over(state, docs),
        ),
    }
}

/// What comes of the action of a state where it fails. Reading a document does not fail: one
/// that cannot be read counts as one without a message.
pub open spec fn failure(state: ExportState) -> Option<ExportEvent> {
    match state {
        ExportState::Counting => Some(ExportEvent::CountFailed),
        ExportState::Opening { .. } => Some(ExportEvent::OpenFailed),
        ExportState::Searching { .. } => Some(ExportEvent::SearchFailed),
        ExportState::Writing { .. } => Some(ExportEvent::WriteFailed),
        ExportState::Closing => Some(ExportEvent::CloseFailed),
        _ => None,
    }
}

/// Which actions of an export fail. An export comes into a state at most once, so the state
/// tells the action.
pub ghost struct Faults {
    /// Whether the action of a state fails.
    pub fails: spec_fn(ExportState) -> bool,
    /// Where it fails, how many of the bytes handed over until then have reached the file.
    pub landed: spec_fn(ExportState) -> nat,
}

/// The first bytes, as many as there are up to `n`.
pub open spec fn first_bytes(bytes: Seq<u8>, n: nat) -> Seq<u8> {
    bytes.take(
        if n < bytes.len() {
            n as int
        } else {
            bytes.len() as int
        },
    )
}

/// The end of an export some of whose actions fail, and the bytes that reach its file; `bytes`
/// are those handed over so far. Of what was handed over before a failure, and of the record
/// whose write fails, only the first part may have reached the file.
pub open spec fn failing_run(
    state: ExportState,
    docs: Seq<Option<Seq<u8>>>,
    bytes: Seq<u8>,
    faults: Faults,
) -> (ExportEnd, Seq<u8>)
    decreases
            state.stages_left(),
            state.documents_left(),
            state.queries_left(),
            state.accesses_left(),
        when state.wf()
{
    match state {
        ExportState::Ended { end } => (end, bytes),
        _ => if failure(state) is Some && (faults.fails)(state) {
            (
                state.after(failure(state)->0)->end,
                first_bytes(bytes + handed_over(state, docs), (faults.landed)(state)),
            )
        } else {
            failing_run(
                state.after(success(state, docs)),
                docs,
                bytes + handed_over(state, docs),
                faults,
            )
        },
    }
}

/// Whether an export some of whose actions fail comes to open its file.
pub open spec fn opens_file(
    state: ExportState,
    docs: Seq<Option<Seq<u8>>>,
    faults: Faults,
) -> bool
    decreases
            state.stages_left(),
            state.documents_left(),
            state.queries_left(),
            state.accesses_left(),
        when state.wf()
{
    if state is Ended || failure(state) is Some && (faults.fails)(state) {
        false
    } else {
        state is Opening || opens_file(state.after(success(state, docs)), docs, faults)
    }
}

/// The first document of the rest and what comes behind it.
pub proof fn lemma_records_split(docs: Seq<Option<Seq<u8>>>, at: int)
    requires
        0 <= at < docs.len(),
    ensures
        docs[at] is Some ==> records_of(docs.skip(at)) == docs[at]->0 + records_of(
            docs.skip(at + 1),
        ),
        docs[at] is None ==> records_of(docs.skip(at)) == records_of(docs.skip(at + 1)),
{
    let rest = docs.skip(at);
    assert(rest.first() == docs[at]);
    assert(rest.drop_first() =~= docs.skip(at + 1));
    assert(Seq::<u8>::empty() + records_of(docs.skip(at + 1)) =~= records_of(docs.skip(at + 1)));
}

/// Where an export over an index stands: before which document.
spec fn position(state: ExportState, docs: Seq<Option<Seq<u8>>>) -> int {
    match state {
        ExportState::Searching { offset, .. } => offset as int,
        ExportState::Reading { offset, index, .. } => offset + index,
        ExportState::Writing { offset, index, .. } => offset + index,
        _ => docs.len() as int,
    }
}

/// Whether a state is one that the export of an index comes through.
spec fn over(state: ExportState, docs: Seq<Option<Seq<u8>>>) -> bool {
    &&& state.wf()
    &&& match state {
        ExportState::Searching { total, .. } => total == docs.len(),
        ExportState::Reading { total, offset, hits, .. } => {
            &&& total == docs.len()
            &&& hits == page_of(docs, offset as int, EXPORT_PAGE as int).len()
        },
        ExportState::Writing { total, offset, hits, index } => {
            &&& total == docs.len()
            &&& hits == page_of(docs, offset as int, EXPORT_PAGE as int).len()
            &&& docs[offset + index] is Some
        },
        ExportState::Closing => true,
        _ => false,
    }
}

/// The rest of an export appends the records of the rest of the documents.
#[verifier::spinoff_prover]
proof fn lemma_export_run(state: ExportState, docs: Seq<Option<Seq<u8>>>, file: Seq<u8>)
    requires
        over(state, docs),
    ensures
        export_run(state, docs, file) == (
            ExportEnd::Complete,
            file + records_of(docs.skip(position(state, docs))),
        ),
    decreases
            state.stages_left(),
            state.documents_left(),
            state.queries_left(),
            state.accesses_left(),
{
    match state {
        ExportState::Searching { total, offset } => {
            let page = page_of(docs, offset as int, EXPORT_PAGE as int);
            let next = state.after(ExportEvent::Found { hits: page.len() as usize });
            assert(file + Seq::<u8>::empty() =~= file);
            lemma_export_run(next, docs, file);
        },
        ExportState::Reading { total, offset, hits, index } => {
            let record = docs[offset + index] is Some;
            let next = state.after(ExportEvent::Read { record });
            lemma_records_split(docs, offset + index);
            assert(file + Seq::<u8>::empty() =~= file);
            lemma_export_run(next, docs, file);
        },
        ExportState::Writing { total, offset, hits, index } => {
            let record = docs[offset + index]->0;
            let next = state.after(ExportEvent::Written);
            lemma_records_split(docs, offset + index);
            lemma_export_run(next, docs, file + record);
            let rest = records_of(docs.skip(offset + index + 1));
            assert(file + record + rest =~= file + (record + rest));
        },
        _ => {
            assert(docs.skip(docs.len() as int) =~= Seq::empty());
            assert(file + Seq::<u8>::empty() =~= file);
            assert(state.after(ExportEvent::Closed) == (ExportState::Ended {
                end: ExportEnd::Complete,
            }));
            assert(export_run(state.after(ExportEvent::Closed), docs, file) == (
                ExportEnd::Complete,
                file,
            ));
        },
    }
}

/// An export whose documents are counted appends to the file the record of every document
/// that holds a message, each once and in the order of the index, and nothing else.
pub proof fn law_export_is_complete(docs: Seq<Option<Seq<u8>>>, file: Seq<u8>)
    requires
        0 < docs.len(),
        docs.len() + EXPORT_PAGE <= usize::MAX,
    ensures
        export_run(ExportState::Counting, docs, file) == (
            ExportEnd::Complete,
            file + records_of(docs),
        ),
        export_run(ExportState::Opening { total: docs.len() as usize }, docs, file) == (
            ExportEnd::Complete,
            file + records_of(docs),
        ),
{
    let total = docs.len() as usize;
    let opening = ExportState::Opening { total };
    let searching = ExportState::Searching { total, offset: 0 };
    assert(ExportState::Counting.after(ExportEvent::Counted { total }) == opening);
    assert(opening.after(ExportEvent::Opened) == searching);
    lemma_export_run(searching, docs, file);
    assert(docs.skip(0) =~= docs);
    assert(file + Seq::<u8>::empty() =~= file);
    assert(export_run(opening, docs, file) == export_run(searching, docs, file));
    assert(export_run(ExportState::Counting, docs, file) == export_run(opening, docs, file));
}

/// Where an account has no documents, its export leaves the file alone.
pub proof fn law_empty_export_touches_nothing(file: Seq<u8>)
    ensures
        export_run(ExportState::Counting, Seq::empty(), file) == (ExportEnd::Empty, file),
{
    let ended = ExportState::Ended { end: ExportEnd::Empty };
    assert(file + Seq::<u8>::empty() =~= file);
    assert(ExportState::Counting.after(ExportEvent::Counted { total: 0 }) == ended);
    assert(export_run(ended, Seq::empty(), file) == (ExportEnd::Empty, file));
}

/// Exporting again appends the same records again: an export never replaces what the file
/// holds.
pub proof fn law_second_export_duplicates(docs: Seq<Option<Seq<u8>>>, file: Seq<u8>)
    requires
        0 < docs.len(),
        docs.len() + EXPORT_PAGE <= usize::MAX,
    ensures
        export_run(
            ExportState::Counting,
            docs,
            export_run(ExportState::Counting, docs, file).1,
        ).1 == file + records_of(docs) + records_of(docs),
{
    law_export_is_complete(docs, file);
    law_export_is_complete(docs, file + records_of(docs));
}

/// Where nothing fails, an export goes on to a state in order, and nearer to its end.
proof fn lemma_success_goes_on(state: ExportState, docs: Seq<Option<Seq<u8>>>)
    requires
        state.wf(),
        !(state is Ended),
        docs.len() + EXPORT_PAGE <= usize::MAX,
    ensures
        state.after(success(state, docs)).wf(),
        decreases_to!(
            state.stages_left(), state.documents_left(), state.queries_left(), state.accesses_left()
            => state.after(success(state, docs)).stages_left(),
            state.after(success(state, docs)).documents_left(),
            state.after(success(state, docs)).queries_left(),
            state.after(success(state, docs)).accesses_left()
        ),
{
    assert(state.answered_by(success(state, docs)));
    law_export_ends(state, success(state, docs));
}

/// What starts with some bytes starts with every prefix of them.
pub proof fn lemma_prefix_of_prefix(part: Seq<u8>, middle: Seq<u8>, whole: Seq<u8>)
    requires
        part.is_prefix_of(middle),
        middle.is_prefix_of(whole),
    ensures
        part.is_prefix_of(whole),
{
    assert forall|i: int| 0 <= i < part.len() implies part[i] == whole[i] by {
        assert(part[i] == middle.subrange(0, part.len() as int)[i]);
        assert(middle[i] == whole.subrange(0, middle.len() as int)[i]);
    }
    assert(part =~= whole.subrange(0, part.len() as int));
}

/// What the file holds already is not taken back.
#[verifier::spinoff_prover]
proof fn lemma_export_run_appends(state: ExportState, docs: Seq<Option<Seq<u8>>>, file: Seq<u8>)
    requires
        state.wf(),
        docs.len() + EXPORT_PAGE <= usize::MAX,
    ensures
        file.is_prefix_of(export_run(state, docs, file).1),
    decreases
            state.stages_left(),
            state.documents_left(),
            state.queries_left(),
            state.accesses_left(),
{
    if !(state is Ended) {
        let next = state.after(success(state, docs));
        let longer = file + handed_over(state, docs);
        lemma_success_goes_on(state, docs);
        lemma_export_run_appends(next, docs, longer);
        assert(file =~= longer.subrange(0, file.len() as int));
        lemma_prefix_of_prefix(file, longer, export_run(next, docs, longer).1);
    } else {
        assert(file =~= file.subrange(0, file.len() as int));
    }
}

/// A run with failures keeps to the run without, as far as it comes.
#[verifier::spinoff_prover]
proof fn lemma_failing_run(
    state: ExportState,
    docs: Seq<Option<Seq<u8>>>,
    bytes: Seq<u8>,
    faults: Faults,
)
    requires
        state.wf(),
        docs.len() + EXPORT_PAGE <= usize::MAX,
    ensures
        failing_run(state, docs, bytes, faults).1.is_prefix_of(export_run(state, docs, bytes).1),
        failing_run(state, docs, bytes, faults).0 == ExportEnd::Complete ==> failing_run(
            state,
            docs,
            bytes,
            faults,
        ) == export_run(state, docs, bytes),
        (forall|s: ExportState| !#[trigger] (faults.fails)(s)) ==> failing_run(
            state,
            docs,
            bytes,
            faults,
        ) == export_run(state, docs, bytes),
    decreases
            state.stages_left(),
            state.documents_left(),
            state.queries_left(),
            state.accesses_left(),
{
    if !(state is Ended) {
        let next = state.after(success(state, docs));
        let longer = bytes + handed_over(state, docs);
        lemma_success_goes_on(state, docs);
        if failure(state) is Some && (faults.fails)(state) {
            let landed = failing_run(state, docs, bytes, faults).1;
            lemma_export_run_appends(next, docs, longer);
            assert(landed =~= longer.subrange(0, landed.len() as int));
            lemma_prefix_of_prefix(landed, longer, export_run(next, docs, longer).1);
        } else {
            lemma_failing_run(next, docs, longer, faults);
        }
    } else {
        assert(bytes =~= bytes.subrange(0, bytes.len() as int));
    }
}

/// What the end of a run with failures tells: only where the documents were still to be counted
/// is an export empty or not counted, only where the file was still to be opened is it not
/// opened, and only where closing fails is it not flushed.
#[verifier::spinoff_prover]
proof fn lemma_end_tells(
    state: ExportState,
    docs: Seq<Option<Seq<u8>>>,
    bytes: Seq<u8>,
    faults: Faults,
)
    requires
        state.wf(),
        !(state is Ended),
        docs.len() + EXPORT_PAGE <= usize::MAX,
    ensures
        failing_run(state, docs, bytes, faults).0 == ExportEnd::Empty ==> state is Counting,
        failing_run(state, docs, bytes, faults).0 == ExportEnd::CountFailed ==> state is Counting,
        failing_run(state, docs, bytes, faults).0 == ExportEnd::OpenFailed ==> state is Counting
            || state is Opening,
        failing_run(state, docs, bytes, faults).0 == ExportEnd::NotFlushed ==> (faults.fails)(
            ExportState::Closing,
        ),
    decreases
            state.stages_left(),
            state.documents_left(),
            state.queries_left(),
            state.accesses_left(),
{
    if !(failure(state) is Some && (faults.fails)(state)) {
        let next = state.after(success(state, docs));
        let longer = bytes + handed_over(state, docs);
        lemma_success_goes_on(state, docs);
        if next is Ended {
            assert(failing_run(next, docs, longer, faults).0 == next->end);
        } else {
            lemma_end_tells(next, docs, longer, faults);
        }
    }
}

/// Whether an end comes before the file is opened.
pub open spec fn unopened(end: ExportEnd) -> bool {
    end == ExportEnd::CountFailed || end == ExportEnd::Empty || end == ExportEnd::OpenFailed
}

/// The end of an export whose documents are counted tells whether the file was opened.
proof fn lemma_counted_end_tells(docs: Seq<Option<Seq<u8>>>, faults: Faults)
    requires
        docs.len() + EXPORT_PAGE <= usize::MAX,
    ensures
        ({
            let opening = ExportState::Opening { total: docs.len() as usize };
            opens_file(opening, docs, faults) <==> !unopened(
                failing_run(opening, docs, Seq::empty(), faults).0,
            )
        }),
{
    let none = Seq::<u8>::empty();
    let opening = ExportState::Opening { total: docs.len() as usize };
    let next = opening.after(ExportEvent::Opened);
    assert(none + none =~= none);
    lemma_success_goes_on(opening, docs);
    lemma_end_tells(next, docs, none, faults);
}

/// The end of an export tells whether it came to open its file.
pub proof fn law_end_tells_whether_opened(docs: Seq<Option<Seq<u8>>>, faults: Faults)
    requires
        docs.len() + EXPORT_PAGE <= usize::MAX,
    ensures
        ({
            let counting = ExportState::Counting;
            opens_file(counting, docs, faults) <==> !unopened(
                failing_run(counting, docs, Seq::empty(), faults).0,
            )
        }),
        ({
            let opening = ExportState::Opening { total: docs.len() as usize };
            opens_file(opening, docs, faults) <==> !unopened(
                failing_run(opening, docs, Seq::empty(), faults).0,
            )
        }),
{
    let none = Seq::<u8>::empty();
    let counting = ExportState::Counting;
    let next = counting.after(success(counting, docs));
    assert(none + none =~= none);
    lemma_counted_end_tells(docs, faults);
    if !(faults.fails)(counting) {
        assert(failing_run(counting, docs, none, faults) == failing_run(next, docs, none, faults));
        assert(opens_file(counting, docs, faults) == opens_file(next, docs, faults));
    }
}

/// An export whose documents are counted that lets others follow is complete, unless closing
/// the file failed.
pub proof fn law_continued_export_is_complete(docs: Seq<Option<Seq<u8>>>, faults: Faults)
    requires
        docs.len() + EXPORT_PAGE <= usize::MAX,
    ensures
        ({
            let opening = ExportState::Opening { total: docs.len() as usize };
            let end = failing_run(opening, docs, Seq::empty(), faults).0;
            end.continues() ==> end == ExportEnd::Complete || end == ExportEnd::NotFlushed && (
            faults.fails)(ExportState::Closing)
        }),
{
    lemma_end_tells(
        ExportState::Opening { total: docs.len() as usize },
        docs,
        Seq::empty(),
        faults,
    );
}

/// Whether an export that starts in a state adds to the file the first part of what it adds
/// without failures, and everything where it is complete or nothing fails.
pub open spec fn keeps_to_prefix(
    start: ExportState,
    docs: Seq<Option<Seq<u8>>>,
    file: Seq<u8>,
    faults: Faults,
) -> bool {
    let run = failing_run(start, docs, Seq::empty(), faults);
    let whole = export_run(start, docs, file);
    &&& run.1.is_prefix_of(records_of(docs))
    &&& (file + run.1).is_prefix_of(whole.1)
    &&& run.0 == ExportEnd::Complete ==> (run.0, file + run.1) == whole
    &&& (forall|s: ExportState| !#[trigger] (faults.fails)(s)) ==> (run.0, file + run.1) == whole
}

/// A prefix stays one behind the same bytes.
proof fn lemma_prefix_behind(before: Seq<u8>, part: Seq<u8>, whole: Seq<u8>)
    requires
        part.is_prefix_of(whole),
    ensures
        (before + part).is_prefix_of(before + whole),
{
    assert forall|i: int| 0 <= i < part.len() implies part[i] == whole[i] by {
        assert(part[i] == whole.subrange(0, part.len() as int)[i]);
    }
    assert(before + part =~= (before + whole).subrange(0, (before + part).len() as int));
}

/// Whatever fails in an export, the file keeps its old contents, and what was added to them is
/// the first part of what the export without a failure adds: no record is left out, doubled or
/// moved. An export that is complete has added everything.
pub proof fn law_failed_export_leaves_a_prefix(
    docs: Seq<Option<Seq<u8>>>,
    file: Seq<u8>,
    faults: Faults,
)
    requires
        docs.len() + EXPORT_PAGE <= usize::MAX,
    ensures
        keeps_to_prefix(ExportState::Counting, docs, file, faults),
        0 < docs.len() ==> keeps_to_prefix(
            ExportState::Opening { total: docs.len() as usize },
            docs,
            file,
            faults,
        ),
{
    let none = Seq::<u8>::empty();
    let records = records_of(docs);
    let counting = ExportState::Counting;
    lemma_failing_run(counting, docs, none, faults);
    assert(none + records =~= records);
    assert(file + none =~= file);
    if docs.len() == 0 {
        assert(docs =~= Seq::empty());
        law_empty_export_touches_nothing(none);
        law_empty_export_touches_nothing(file);
    } else {
        let opening = ExportState::Opening { total: docs.len() as usize };
        law_export_is_complete(docs, none);
        law_export_is_complete(docs, file);
        lemma_failing_run(opening, docs, none, faults);
        lemma_prefix_behind(file, failing_run(opening, docs, none, faults).1, records);
    }
    lemma_prefix_behind(file, failing_run(counting, docs, none, faults).1, records);
}

} // verus!
