//! What comes of an export whose actions are carried out, one after the other, as it asks for
//! them.
use vstd::prelude::*;

verus! {

use crate::export::{
    lemma_prefix_of_prefix,
    lemma_records_split,
    records_of,
    ExportAction,
    ExportEnd,
    ExportEvent,
    ExportState,
};

/// What an export finds: how many documents are counted, and what the index returns for an
/// offset and a limit. The two need not fit together.
pub ghost struct Surroundings {
    pub total: usize,
    pub index: spec_fn(int, int) -> Seq<Option<Seq<u8>>>,
    /// Whether the action that is asked for in a state fails.
    pub fails: spec_fn(ExportState) -> bool,
}

/// How far the actions of an export have been carried out.
pub ghost struct Course {
    pub state: ExportState,
    /// The page that was found last.
    pub page: Seq<Option<Seq<u8>>>,
    /// The record of the document that was read last.
    pub record: Option<Seq<u8>>,
    /// Whether the file is open.
    pub open: bool,
    /// What the file holds. Only an open file can be written to.
    pub file: Seq<u8>,
}

impl Course {
    /// The course before the first action.
    pub open spec fn start(state: ExportState, file: Seq<u8>) -> Course {
        Course { state, page: Seq::empty(), record: None, open: false, file }
    }

    /// The course after the action that is asked for.
    pub open spec fn step(self, around: Surroundings) -> Course {
        let state = self.state;
        let fails = (around.fails)(state);
        match state.asks() {
            ExportAction::Count => Course {
                state: state.after(
                    if fails {
                        ExportEvent::CountFailed
                    } else {
                        ExportEvent::Counted { total: around.total }
                    },
                ),
                ..self
            },
            ExportAction::Open => if fails {
                Course { state: state.after(ExportEvent::OpenFailed), ..self }
            } else {
                Course { state: state.after(ExportEvent::Opened), open: true, ..self }
            },
            ExportAction::Search { offset, limit } => {
                let page = (around.index)(offset as int, limit as int);
                if fails {
                    Course { state: state.after(ExportEvent::SearchFailed), ..self }
                } else {
                    Course {
                        state: state.after(ExportEvent::Found { hits: page.len() as usize }),
                        page,
                        ..self
                    }
                }
            },
            ExportAction::Read { index } => {
                let record = self.page[index as int];
                Course {
                    state: state.after(ExportEvent::Read { record: record is Some }),
                    record,
                    ..self
                }
            },
            ExportAction::Write => if fails {
                Course { state: state.after(ExportEvent::WriteFailed), ..self }
            } else {
                Course {
                    state: state.after(ExportEvent::Written),
                    file: if self.open {
                        self.file + self.record->0
                    } else {
                        self.file
                    },
                    ..self
                }
            },
            ExportAction::Close => Course {
                state: state.after(
                    if fails {
                        ExportEvent::CloseFailed
                    } else {
                        ExportEvent::Closed
                    },
                ),
                open: false,
                ..self
            },
            ExportAction::Stop { .. } => self,
        }
    }

    /// The course once the export asks for nothing more.
    pub open spec fn run(self, around: Surroundings) -> Course
        decreases
                self.state.stages_left(),
                self.state.documents_left(),
                self.state.queries_left(),
                self.state.accesses_left(),
            when self.state.wf()
    {
        if self.state.asks() is Stop {
            self
        } else {
            self.step(around).run(around)
        }
    }
}

/// The records on the pages at `offset` and every 2000 documents further, as long as that lies
/// within the documents, up to the first page that comes back empty. How many documents a page
/// holds makes no difference.
pub open spec fn records_on_pages(around: Surroundings, offset: int) -> Seq<u8>
    decreases around.total + 2000 - offset,
{
    if offset >= around.total {
        Seq::empty()
    } else {
        let page = (around.index)(offset, 2000);
        if page.len() == 0 {
            Seq::empty()
        } else {
            records_of(page) + records_on_pages(around, offset + 2000)
        }
    }
}

/// Whether nothing fails, and all numbers fit in a `usize`.
pub open spec fn undisturbed(around: Surroundings) -> bool {
    &&& around.total + 2000 <= usize::MAX
    &&& forall|offset: int, limit: int|
        (#[trigger] (around.index)(offset, limit)).len() <= usize::MAX
    &&& forall|state: ExportState| !#[trigger] (around.fails)(state)
}

/// Whether a course is under way over an index.
spec fn under_way(course: Course, around: Surroundings) -> bool {
    &&& course.state.wf()
    &&& course.open
    &&& match course.state {
        ExportState::Searching { total, .. } => total == around.total,
        ExportState::Reading { total, offset, hits, .. } => {
            &&& total == around.total
            &&& course.page == (around.index)(offset as int, 2000)
            &&& hits == course.page.len()
        },
        ExportState::Writing { total, offset, hits, index } => {
            &&& total == around.total
            &&& course.page == (around.index)(offset as int, 2000)
            &&& hits == course.page.len()
            &&& course.record == course.page[index as int]
            &&& course.record is Some
        },
        ExportState::Closing => true,
        _ => false,
    }
}

/// What a course under way is still to write.
spec fn still_to_write(course: Course, around: Surroundings) -> Seq<u8> {
    match course.state {
        ExportState::Searching { offset, .. } => records_on_pages(around, offset as int),
        ExportState::Reading { offset, index, .. } => records_of(course.page.skip(index as int))
            + records_on_pages(around, offset + 2000),
        ExportState::Writing { offset, index, .. } => records_of(course.page.skip(index as int))
            + records_on_pages(around, offset + 2000),
        _ => Seq::empty(),
    }
}

/// One action of a course under way, which takes from what is still to be written what it
/// writes.
#[verifier::spinoff_prover]
proof fn lemma_step(course: Course, around: Surroundings)
    requires
        undisturbed(around),
        under_way(course, around),
        !(course.state is Closing),
    ensures
        under_way(course.step(around), around),
        course.step(around).file + still_to_write(course.step(around), around) == course.file
            + still_to_write(course, around),
{
    let next = course.step(around);
    match course.state {
        ExportState::Searching { total, offset } => {
            let page = (around.index)(offset as int, 2000);
            assert(next.page == page);
            assert(page.skip(0) =~= page);
        },
        ExportState::Reading { total, offset, hits, index } => {
            lemma_records_split(course.page, index as int);
            assert(course.page.skip(hits as int) =~= Seq::empty());
            assert(Seq::<u8>::empty() + records_on_pages(around, offset + 2000)
                =~= records_on_pages(around, offset + 2000));
        },
        ExportState::Writing { total, offset, hits, index } => {
            let record = course.page[index as int]->0;
            let behind = records_of(course.page.skip(index + 1));
            let rest = records_on_pages(around, offset + 2000);
            lemma_records_split(course.page, index as int);
            assert(course.page.skip(hits as int) =~= Seq::empty());
            assert(Seq::<u8>::empty() + rest =~= rest);
            assert(course.file + ((record + behind) + rest) =~= (course.file + record) + (behind
                + rest));
        },
        _ => {},
    }
}

/// The rest of a course under way.
proof fn lemma_run(course: Course, around: Surroundings)
    requires
        undisturbed(around),
        under_way(course, around),
    ensures
        course.run(around).state == (ExportState::Ended { end: ExportEnd::Complete }),
        !course.run(around).open,
        course.run(around).file == course.file + still_to_write(course, around),
    decreases
            course.state.stages_left(),
            course.state.documents_left(),
            course.state.queries_left(),
            course.state.accesses_left(),
{
    let next = course.step(around);
    if course.state is Closing {
        assert(next.run(around) == next);
        assert(course.file + Seq::<u8>::empty() =~= course.file);
    } else {
        lemma_step(course, around);
        lemma_run(next, around);
    }
}

/// Carrying out what an export asks for opens the file, appends to it the records on the pages
/// at the offsets 0, 2000, 4000 and so on within the documents, in this order and in the order
/// of each page, and closes it. An empty page ends the export; a page that is shorter than
/// others does not. Where the documents are still to be counted and there are none, the file is
/// left alone.
pub proof fn law_actions_write_every_page(around: Surroundings, file: Seq<u8>)
    requires
        undisturbed(around),
    ensures
        ({
            let opening = ExportState::Opening { total: around.total };
            let end = Course::start(opening, file).run(around);
            &&& end.state == (ExportState::Ended { end: ExportEnd::Complete })
            &&& end.state.asks() == (ExportAction::Stop { end: ExportEnd::Complete })
            &&& !end.open
            &&& end.file == file + records_on_pages(around, 0)
        }),
        ({
            let end = Course::start(ExportState::Counting, file).run(around);
            &&& around.total == 0 ==> end.state == (ExportState::Ended { end: ExportEnd::Empty })
                && end.file == file
            &&& around.total > 0 ==> end.state == (ExportState::Ended {
                end: ExportEnd::Complete,
            }) && end.file == file + records_on_pages(around, 0)
            &&& !end.open
        }),
{
    let opening = Course::start(ExportState::Opening { total: around.total }, file);
    let counting = Course::start(ExportState::Counting, file);
    let opened = opening.step(around);
    lemma_run(opened, around);
    assert(opening.run(around) == opened.run(around));
    assert(counting.run(around) == counting.step(around).run(around));
    if around.total == 0 {
        assert(counting.step(around).run(around) == counting.step(around));
    } else {
        assert(counting.step(around) == opening);
    }
}

/// Whether an index holds some documents, and answers a query with those of them that stand
/// behind the offset, up to the limit.
pub open spec fn answers_from(around: Surroundings, docs: Seq<Option<Seq<u8>>>) -> bool {
    &&& around.total == docs.len()
    &&& forall|offset: int, limit: int|
        0 <= offset <= docs.len() && 0 < limit ==> {
            let page = #[trigger] (around.index)(offset, limit);
            &&& page.len() == if limit < docs.len() - offset {
                limit
            } else {
                docs.len() - offset
            }
            &&& forall|i: int| 0 <= i < page.len() ==> #[trigger] page[i] == docs[offset + i]
        }
}

/// The records of two lists of documents, one behind the other.
pub proof fn law_records_concatenate(
    front: Seq<Option<Seq<u8>>>,
    back: Seq<Option<Seq<u8>>>,
)
    ensures
        records_of(front + back) == records_of(front) + records_of(back),
    decreases front.len(),
{
    if front.len() == 0 {
        assert(front + back =~= back);
        assert(Seq::<u8>::empty() + records_of(back) =~= records_of(back));
    } else {
        law_records_concatenate(front.drop_first(), back);
        assert((front + back).first() == front.first());
        assert((front + back).drop_first() =~= front.drop_first() + back);
        assert(records_of(front + back) =~= records_of(front) + records_of(back));
    }
}

/// A document with a message adds its record to those of the others, and one without adds
/// nothing.
pub proof fn law_record_of_one(record: Seq<u8>)
    ensures
        records_of(seq![Some(record)]) == record,
        records_of(seq![None::<Seq<u8>>]) == Seq::<u8>::empty(),
        records_of(Seq::empty()) == Seq::<u8>::empty(),
{
    let with = seq![Some(record)];
    let without = seq![None::<Seq<u8>>];
    assert(with.drop_first() =~= Seq::empty());
    assert(without.drop_first() =~= Seq::empty());
    assert(records_of(with.drop_first()) == Seq::<u8>::empty());
    assert(records_of(without.drop_first()) == Seq::<u8>::empty());
    assert(records_of(with) =~= record);
    assert(records_of(without) =~= Seq::<u8>::empty());
}

/// The pages of an index hold its documents, each once and in order.
proof fn lemma_pages_hold_documents(
    around: Surroundings,
    docs: Seq<Option<Seq<u8>>>,
    offset: int,
)
    requires
        answers_from(around, docs),
        0 <= offset,
    ensures
        records_on_pages(around, offset) == if offset < docs.len() {
            records_of(docs.skip(offset))
        } else {
            Seq::empty()
        },
    decreases docs.len() + 2000 - offset,
{
    if offset < docs.len() {
        let page = (around.index)(offset, 2000);
        lemma_pages_hold_documents(around, docs, offset + 2000);
        if offset + 2000 < docs.len() {
            assert(docs.skip(offset) =~= page + docs.skip(offset + 2000));
            law_records_concatenate(page, docs.skip(offset + 2000));
        } else {
            assert(docs.skip(offset) =~= page);
            assert(records_of(page) + Seq::<u8>::empty() =~= records_of(page));
        }
    }
}

/// Carrying out what an export asks for over an index appends the record of every document that
/// holds a message, each once and in the order of the index, and nothing else.
pub proof fn law_actions_write_every_document(
    around: Surroundings,
    docs: Seq<Option<Seq<u8>>>,
    file: Seq<u8>,
)
    requires
        undisturbed(around),
        answers_from(around, docs),
    ensures
        Course::start(ExportState::Counting, file).run(around).file == file + records_of(docs),
        Course::start(ExportState::Opening { total: docs.len() as usize }, file).run(around).file
            == file + records_of(docs),
{
    law_actions_write_every_page(around, file);
    lemma_pages_hold_documents(around, docs, 0);
    if docs.len() > 0 {
        assert(docs.skip(0) =~= docs);
    } else {
        assert(file + records_of(docs) =~= file);
    }
}

/// A failed action ends the export at once, and the end names the action. In particular, nothing
/// is asked for after it.
pub proof fn law_failure_names_its_action(state: ExportState)
    ensures
        state.asks() is Count ==> state.after(ExportEvent::CountFailed).asks() == (
        ExportAction::Stop { end: ExportEnd::CountFailed }),
        state.asks() is Open ==> state.after(ExportEvent::OpenFailed).asks() == (
        ExportAction::Stop { end: ExportEnd::OpenFailed }),
        state.asks() is Search ==> state.after(ExportEvent::SearchFailed).asks() == (
        ExportAction::Stop { end: ExportEnd::SearchFailed }),
        state.asks() is Write ==> state.after(ExportEvent::WriteFailed).asks() == (
        ExportAction::Stop { end: ExportEnd::WriteFailed }),
        state.asks() is Close ==> state.after(ExportEvent::CloseFailed).asks() == (
        ExportAction::Stop { end: ExportEnd::NotFlushed }),
{
}

/// An event that is no answer to what is asked for changes nothing, and once the export has
/// stopped no event does.
pub proof fn law_only_answers_count(state: ExportState, event: ExportEvent)
    requires
        match state.asks() {
            ExportAction::Count => !(event is Counted) && !(event is CountFailed),
            ExportAction::Open => !(event is Opened) && !(event is OpenFailed),
            ExportAction::Search { .. } => !(event is Found) && !(event is SearchFailed),
            ExportAction::Read { .. } => !(event is Read),
            ExportAction::Write => !(event is Written) && !(event is WriteFailed),
            ExportAction::Close => !(event is Closed) && !(event is CloseFailed),
            ExportAction::Stop { .. } => true,
        },
    ensures
        state.after(event) == state,
{
}

/// The same surroundings, where nothing fails.
pub open spec fn calmed(around: Surroundings) -> Surroundings {
    Surroundings { fails: |state: ExportState| false, ..around }
}

/// An action leads to a state in order, and nearer to the end. What the file holds stays.
#[verifier::spinoff_prover]
proof fn lemma_step_goes_on(course: Course, around: Surroundings)
    requires
        course.state.wf(),
        !(course.state.asks() is Stop),
        around.total + 2000 <= usize::MAX,
    ensures
        course.step(around).state.wf(),
        course.file.is_prefix_of(course.step(around).file),
        decreases_to!(
            course.state.stages_left(), course.state.documents_left(),
            course.state.queries_left(), course.state.accesses_left()
            => course.step(around).state.stages_left(), course.step(around).state.documents_left(),
            course.step(around).state.queries_left(), course.step(around).state.accesses_left()
        ),
{
    let longer = course.file + course.record->0;
    assert(course.file =~= longer.subrange(0, course.file.len() as int));
    assert(course.file =~= course.file.subrange(0, course.file.len() as int));
}

/// What a file holds at some time it holds until the end.
proof fn lemma_run_appends(course: Course, around: Surroundings)
    requires
        course.state.wf(),
        around.total + 2000 <= usize::MAX,
    ensures
        course.file.is_prefix_of(course.run(around).file),
    decreases
            course.state.stages_left(),
            course.state.documents_left(),
            course.state.queries_left(),
            course.state.accesses_left(),
{
    if course.state.asks() is Stop {
        assert(course.file =~= course.file.subrange(0, course.file.len() as int));
    } else {
        let next = course.step(around);
        lemma_step_goes_on(course, around);
        lemma_run_appends(next, around);
        lemma_prefix_of_prefix(course.file, next.file, course.run(around).file);
    }
}

/// Where some actions fail, the course is that without failures, as far as it comes.
#[verifier::spinoff_prover]
proof fn lemma_failing_course(course: Course, around: Surroundings)
    requires
        course.state.wf(),
        around.total + 2000 <= usize::MAX,
    ensures
        course.run(around).file.is_prefix_of(course.run(calmed(around)).file),
        course.run(around).state == (ExportState::Ended { end: ExportEnd::Complete })
            ==> course.run(around) == course.run(calmed(around)),
    decreases
            course.state.stages_left(),
            course.state.documents_left(),
            course.state.queries_left(),
            course.state.accesses_left(),
{
    if course.state.asks() is Stop {
        assert(course.file =~= course.file.subrange(0, course.file.len() as int));
    } else {
        let next = course.step(around);
        lemma_step_goes_on(course, around);
        if (around.fails)(course.state) && !(course.state is Reading) {
            law_failure_names_its_action(course.state);
            assert(next.run(around) == next);
            assert(next.file == course.file);
            lemma_run_appends(course, calmed(around));
        } else {
            assert(course.step(calmed(around)) == next);
            lemma_failing_course(next, around);
        }
    }
}

/// Whatever fails, carrying out what an export asks for appends the first part of what is
/// appended without a failure, and all of it where the export is complete.
pub proof fn law_failed_actions_write_a_prefix(around: Surroundings, file: Seq<u8>)
    requires
        undisturbed(calmed(around)),
    ensures
        ({
            let start = Course::start(ExportState::Counting, file);
            let end = start.run(around);
            &&& file.is_prefix_of(end.file)
            &&& around.total > 0 ==> end.file.is_prefix_of(file + records_on_pages(around, 0))
            &&& around.total == 0 ==> end.file == file
            &&& end.state == (ExportState::Ended { end: ExportEnd::Complete }) ==> end.file == file
                + records_on_pages(around, 0)
        }),
        ({
            let opening = ExportState::Opening { total: around.total };
            let end = Course::start(opening, file).run(around);
            &&& file.is_prefix_of(end.file)
            &&& end.file.is_prefix_of(file + records_on_pages(around, 0))
            &&& end.state == (ExportState::Ended { end: ExportEnd::Complete }) ==> end.file == file
                + records_on_pages(around, 0)
        }),
{
    let counting = Course::start(ExportState::Counting, file);
    let opening = Course::start(ExportState::Opening { total: around.total }, file);
    lemma_calm_pages(around, 0);
    law_actions_write_every_page(calmed(around), file);
    lemma_run_appends(counting, around);
    lemma_run_appends(opening, around);
    lemma_failing_course(counting, around);
    lemma_failing_course(opening, around);
    if around.total == 0 {
        assert(counting.run(around) == counting.step(around).run(around));
        assert(counting.step(around).run(around) == counting.step(around));
    }
}

/// Failures make no difference to what the index returns.
proof fn lemma_calm_pages(around: Surroundings, offset: int)
    ensures
        records_on_pages(calmed(around), offset) == records_on_pages(around, offset),
    decreases around.total + 2000 - offset,
{
    if offset < around.total {
        lemma_calm_pages(around, offset + 2000);
    }
}

/// An export that is to query a page asks for the page at that offset and for 2000 documents,
/// and one that is to read a document of a page asks for the document at that index.
pub proof fn law_query_is_that_of_the_page(
    total: usize,
    offset: usize,
    hits: usize,
    index: usize,
)
    ensures
        (ExportState::Searching { total, offset }).asks() == (ExportAction::Search {
            offset,
            limit: 2000,
        }),
        (ExportState::Reading { total, offset, hits, index }).asks() == (ExportAction::Read {
            index,
        }),
        (ExportState::Writing { total, offset, hits, index }).asks() is Write,
{
}

} // verus!
