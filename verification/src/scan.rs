//! The scan of an index that finds out which accounts it holds, and how many documents of each.
use std::collections::HashMap;
use vstd::prelude::*;

verus! {

use crate::paging::page_of;
use vstd::multiset::Multiset;
use vstd::std_specs::iter::IteratorSpec;

/// How many documents a page of the scan asks for.
pub const SCAN_PAGE: usize = 5000;

/// How often each id was counted.
pub open spec fn tally_of(counts: Map<u64, usize>) -> Multiset<u64> {
    Multiset::from_map(counts.map_values(|n: usize| n as nat))
}

/// The tally holds each id as often as it was counted.
proof fn lemma_tally_count(counts: Map<u64, usize>, id: u64)
    requires
        counts.dom().finite(),
    ensures
        tally_of(counts).count(id) == if counts.contains_key(id) {
            counts[id] as nat
        } else {
            0
        },
{
    broadcast use vstd::multiset::group_multiset_axioms;

    let naturals = counts.map_values(|n: usize| n as nat);
    assert(naturals.dom() =~= counts.dom());
}

/// Counts one more document of an account.
fn count_one(counts: &mut HashMap<u64, usize>, id: u64)
    requires
        tally_of(old(counts)@).count(id) < usize::MAX,
        forall|k: u64| #[trigger] old(counts)@.contains_key(k) ==> old(counts)@[k] > 0,
    ensures
        tally_of(final(counts)@) == tally_of(old(counts)@).insert(id),
        forall|k: u64| #[trigger] final(counts)@.contains_key(k) ==> final(counts)@[k] > 0,
{
    broadcast use vstd::std_specs::hash::group_hash_axioms;
    broadcast use vstd::multiset::group_multiset_axioms;

    let ghost before = counts@;
    proof {
        lemma_tally_count(before, id);
    }
    let count: &mut usize = counts.entry(id).or_insert(0);
    *count += 1;
    proof {
        let after = counts@;
        let grown: usize = if before.contains_key(id) { (before[id] + 1) as usize } else { 1 };
        assert(after =~= before.insert(id, grown));
        assert forall|k: u64| tally_of(after).count(k) == tally_of(before).insert(id).count(k) by {
            lemma_tally_count(after, k);
            lemma_tally_count(before, k);
        }
        assert(tally_of(after) =~= tally_of(before).insert(id));
    }
}

/// How far a scan has come, and what it has counted.
pub ghost struct ScanProgress {
    /// How many documents the index holds.
    pub total: int,
    /// Where the next page starts.
    pub offset: int,
    /// Whether a page came back empty.
    pub exhausted: bool,
    /// The accounts of the documents seen so far.
    pub tally: Multiset<u64>,
}

impl ScanProgress {
    /// Whether another page is due.
    pub open spec fn searching(self) -> bool {
        !self.exhausted && self.offset < self.total
    }

    /// The progress once a page has come back, with the account of each document on it.
    pub open spec fn after_page(self, account_ids: Seq<u64>) -> ScanProgress {
        if account_ids.len() == 0 {
            ScanProgress { exhausted: true, ..self }
        } else {
            ScanProgress {
                offset: self.offset + SCAN_PAGE,
                tally: self.tally.add(account_ids.to_multiset()),
                ..self
            }
        }
    }
}

/// The progress before the first page.
pub open spec fn scan_start(total: int) -> ScanProgress {
    ScanProgress { total, offset: 0, exhausted: false, tally: Multiset::empty() }
}

/// A scan under way.
pub struct AccountScan {
    total: usize,
    offset: usize,
    exhausted: bool,
    counts: HashMap<u64, usize>,
}

impl View for AccountScan {
    type V = ScanProgress;

    closed spec fn view(&self) -> ScanProgress {
        ScanProgress {
            total: self.total as int,
            offset: self.offset as int,
            exhausted: self.exhausted,
            tally: tally_of(self.counts@),
        }
    }
}

/// Whether some accounts with their numbers of documents list a tally, each account once.
pub open spec fn lists(accounts: Seq<(u64, usize)>, tally: Multiset<u64>) -> bool {
    &&& forall|i: int, j: int|
        0 <= i < j < accounts.len() ==> (#[trigger] accounts[i]).0 != (#[trigger] accounts[j]).0
    &&& forall|i: int|
        0 <= i < accounts.len() ==> (#[trigger] accounts[i]).1 > 0 && accounts[i].1 == tally.count(
            accounts[i].0,
        )
    &&& forall|id: u64|
        #[trigger] tally.count(id) > 0 ==> exists|i: int|
            0 <= i < accounts.len() && (#[trigger] accounts[i]).0 == id
}

impl AccountScan {
    #[verifier::type_invariant]
    spec fn inv(self) -> bool {
        &&& self.total + SCAN_PAGE <= usize::MAX
        &&& self.offset < self.total + SCAN_PAGE
        &&& tally_of(self.counts@).len() <= self.offset
        &&& forall|k: u64| #[trigger] self.counts@.contains_key(k) ==> self.counts@[k] > 0
    }

    /// Starts the scan of an index with `total` documents.
    pub fn new(total: usize) -> (scan: AccountScan)
        requires
            total + SCAN_PAGE <= usize::MAX,
        ensures
            scan@ == scan_start(total as int),
    {
        broadcast use vstd::std_specs::hash::group_hash_axioms;
        broadcast use vstd::multiset::group_multiset_axioms;

        let counts: HashMap<u64, usize> = HashMap::new();
        proof {
            assert forall|id: u64| tally_of(counts@).count(id) == 0 by {
                lemma_tally_count(counts@, id);
            }
            assert(tally_of(counts@) =~= Multiset::empty());
        }
        AccountScan { total, offset: 0, exhausted: false, counts }
    }

    /// Where the next page starts, as long as one is due.
    pub fn next_search(&self) -> (offset: Option<usize>)
        ensures
            match offset {
                Some(o) => self@.searching() && o == self@.offset,
                None => !self@.searching(),
            },
    {
        if !self.exhausted && self.offset < self.total {
            Some(self.offset)
        } else {
            None
        }
    }

    /// Counts a page, given the account of each document on it. An empty page ends the scan.
    pub fn record_page(self, account_ids: &[u64]) -> (scan: AccountScan)
        requires
            self@.searching(),
            account_ids@.len() <= SCAN_PAGE,
        ensures
            scan@ == self@.after_page(account_ids@),
    {
        broadcast use vstd::std_specs::hash::group_hash_axioms;
        broadcast use vstd::multiset::group_multiset_axioms;

        proof {
            use_type_invariant(&self);
        }
        if account_ids.len() == 0 {
            return AccountScan {
                total: self.total,
                offset: self.offset,
                exhausted: true,
                counts: self.counts,
            };
        }
        let ghost before = tally_of(self.counts@);
        let ghost start = self.offset;
        let total = self.total;
        let offset = self.offset;
        let exhausted = self.exhausted;
        let mut counts = self.counts;
        let mut next: usize = 0;
        assert(account_ids@.take(0) =~= Seq::<u64>::empty());
        assert(Seq::<u64>::empty().to_multiset() =~= Multiset::empty()) by {
            broadcast use vstd::seq_lib::group_to_multiset_ensures;

        }
        assert(before =~= before.add(account_ids@.take(0).to_multiset()));
        while next < account_ids.len()
            invariant
                next <= account_ids.len(),
                account_ids@.len() <= SCAN_PAGE,
                start + SCAN_PAGE <= usize::MAX,
                before.len() <= start,
                tally_of(counts@) == before.add(account_ids@.take(next as int).to_multiset()),
                forall|k: u64| #[trigger] counts@.contains_key(k) ==> counts@[k] > 0,
            decreases account_ids.len() - next,
        {
            broadcast use vstd::multiset::group_multiset_axioms;
            broadcast use vstd::seq_lib::group_to_multiset_ensures;

            let ghost seen = account_ids@.take(next as int);
            assert(seen.to_multiset().len() == next);
            let id = account_ids[next];
            count_one(&mut counts, id);
            next += 1;
            assert(account_ids@.take(next as int) =~= seen.push(id));
            assert(before.add(seen.to_multiset()).insert(id) =~= before.add(
                seen.to_multiset().insert(id),
            ));
        }
        assert(account_ids@.take(next as int) =~= account_ids@);
        assert(account_ids@.to_multiset().len() == account_ids@.len()) by {
            broadcast use vstd::seq_lib::group_to_multiset_ensures;

        }
        AccountScan { total, offset: offset + SCAN_PAGE, exhausted, counts }
    }

    /// How many documents the scan has covered, for a progress display.
    pub fn position(&self) -> (position: usize)
        ensures
            position == if self@.offset < self@.total {
                self@.offset
            } else {
                self@.total
            },
    {
        if self.offset < self.total {
            self.offset
        } else {
            self.total
        }
    }

    /// The accounts that were counted, each with the number of its documents. The order is
    /// left open.
    pub fn accounts(&self) -> (accounts: Vec<(u64, usize)>)
        ensures
            lists(accounts@, self@.tally),
    {
        broadcast use vstd::std_specs::hash::group_hash_axioms;
        broadcast use vstd::multiset::group_multiset_axioms;

        proof {
            use_type_invariant(self);
        }
        let mut accounts: Vec<(u64, usize)> = Vec::new();
        let ghost counts = self.counts@;
        let entries = self.counts.iter();
        let ghost items = entries.remaining();
        for (id, count) in it: entries
            invariant
                it.seq() == items,
                accounts@.len() == it.index(),
                forall|i: int|
                    0 <= i < accounts@.len() ==> (#[trigger] accounts@[i]).0 == *items[i].0
                        && accounts@[i].1 == *items[i].1,
        {
            accounts.push((*id, *count));
        }
        proof {
            assert(accounts@.len() == items.len());
            assert forall|i: int| 0 <= i < accounts@.len() implies counts.contains_key(
                #[trigger] accounts@[i].0,
            ) && counts[accounts@[i].0] == accounts@[i].1 by {
                assert(counts.contains_key(*items[i].0));
                assert(counts[*items[i].0] == *items[i].1);
            }
            assert forall|i: int, j: int| 0 <= i < j < accounts@.len() implies (
            #[trigger] accounts@[i]).0 != (#[trigger] accounts@[j]).0 by {
                if accounts@[i].0 == accounts@[j].0 {
                    assert(items[i] == items[j]);
                }
            }
            assert forall|i: int| 0 <= i < accounts@.len() implies (#[trigger] accounts@[i]).1 > 0
                && accounts@[i].1 == self@.tally.count(accounts@[i].0) by {
                lemma_tally_count(counts, accounts@[i].0);
            }
            assert forall|id: u64| #[trigger] self@.tally.count(id) > 0 implies exists|i: int|
                0 <= i < accounts@.len() && (#[trigger] accounts@[i]).0 == id by {
                lemma_tally_count(counts, id);
                assert(items.contains((&id, &counts[id])));
                let i = choose|i: int| 0 <= i < items.len() && items[i] == (&id, &counts[id]);
                assert(accounts@[i].0 == id);
            }
        }
        accounts
    }
}

/// The progress of a scan that is led to its end over an index, given the account of each
/// document in it.
pub open spec fn scan_run(progress: ScanProgress, account_ids: Seq<u64>) -> ScanProgress
    decreases
            if progress.searching() {
                progress.total - progress.offset
            } else {
                0
            },
{
    if progress.searching() {
        scan_run(
            progress.after_page(page_of(account_ids, progress.offset, SCAN_PAGE as int)),
            account_ids,
        )
    } else {
        progress
    }
}

/// The rest of a scan counts the rest of the documents.
proof fn lemma_scan_run(progress: ScanProgress, account_ids: Seq<u64>)
    requires
        progress.total == account_ids.len(),
        !progress.exhausted,
        0 <= progress.offset,
        progress.tally == page_of(account_ids, 0, progress.offset).to_multiset(),
    ensures
        scan_run(progress, account_ids).tally == account_ids.to_multiset(),
    decreases
            if progress.searching() {
                progress.total - progress.offset
            } else {
                0
            },
{
    let seen = page_of(account_ids, 0, progress.offset);
    if progress.searching() {
        let page = page_of(account_ids, progress.offset, SCAN_PAGE as int);
        let next = progress.after_page(page);
        vstd::seq_lib::lemma_multiset_commutative(seen, page);
        assert(seen + page =~= page_of(account_ids, 0, next.offset));
        lemma_scan_run(next, account_ids);
    } else {
        assert(seen =~= account_ids);
    }
}

/// A scan counts every document of the index once, under its account.
pub proof fn law_scan_counts_every_document(account_ids: Seq<u64>)
    ensures
        scan_run(scan_start(account_ids.len() as int), account_ids).tally
            == account_ids.to_multiset(),
{
    broadcast use vstd::seq_lib::group_to_multiset_ensures;
    broadcast use vstd::multiset::group_multiset_axioms;

    assert(page_of(account_ids, 0, 0) =~= Seq::<u64>::empty());
    assert(Seq::<u64>::empty().to_multiset() =~= Multiset::empty());
    lemma_scan_run(scan_start(account_ids.len() as int), account_ids);
}

/// The numbers of documents of some accounts, added up.
pub open spec fn total_of(accounts: Seq<(u64, usize)>) -> int
    decreases accounts.len(),
{
    if accounts.len() == 0 {
        0
    } else {
        total_of(accounts.drop_last()) + accounts.last().1
    }
}

/// A tally without one of its ids.
proof fn lemma_without(tally: Multiset<u64>, id: u64, n: nat) -> (rest: Multiset<u64>)
    requires
        n <= tally.count(id),
    ensures
        rest.len() == tally.len() - n,
        rest.count(id) == tally.count(id) - n,
        forall|k: u64| k != id ==> #[trigger] rest.count(k) == tally.count(k),
    decreases n,
{
    broadcast use vstd::multiset::group_multiset_axioms;

    if n == 0 {
        tally
    } else {
        let larger = lemma_without(tally, id, (n - 1) as nat);
        larger.remove(id)
    }
}

/// The accounts that a scan lists share all documents among them.
pub proof fn law_accounts_share_all_documents(accounts: Seq<(u64, usize)>, tally: Multiset<u64>)
    requires
        lists(accounts, tally),
    ensures
        total_of(accounts) == tally.len(),
    decreases accounts.len(),
{
    broadcast use vstd::multiset::group_multiset_axioms;

    if accounts.len() == 0 {
        assert forall|id: u64| tally.count(id) == 0 by {
            if tally.count(id) > 0 {
                let i = choose|i: int|
                    0 <= i < accounts.len() && (#[trigger] accounts[i]).0 == id;
            }
        }
        assert(tally =~= Multiset::empty());
    } else {
        let front = accounts.drop_last();
        let last = accounts.last();
        assert(accounts[accounts.len() - 1] == last);
        let rest = lemma_without(tally, last.0, last.1 as nat);
        assert forall|i: int| 0 <= i < front.len() implies (#[trigger] front[i]).1 > 0
            && front[i].1 == rest.count(front[i].0) by {
            assert(accounts[i] == front[i]);
        }
        assert forall|id: u64| #[trigger] rest.count(id) > 0 implies exists|i: int|
            0 <= i < front.len() && (#[trigger] front[i]).0 == id by {
            assert(tally.count(id) > 0);
            let i = choose|i: int| 0 <= i < accounts.len() && (#[trigger] accounts[i]).0 == id;
            assert(front[i].0 == id);
        }
        law_accounts_share_all_documents(front, rest);
    }
}

/// The progress of a scan that is led to its end, given what the index returns for an offset.
/// That need not fit to the number of documents.
pub open spec fn scan_over(progress: ScanProgress, pages: spec_fn(int) -> Seq<u64>) -> ScanProgress
    decreases
            if progress.searching() {
                progress.total + SCAN_PAGE - progress.offset
            } else {
                0
            },
{
    if progress.searching() {
        scan_over(progress.after_page(pages(progress.offset)), pages)
    } else {
        progress
    }
}

/// The accounts on the pages at `offset` and every 5000 documents further, as long as that lies
/// within the documents, up to the first page that comes back empty.
pub open spec fn ids_on_pages(pages: spec_fn(int) -> Seq<u64>, total: int, offset: int) -> Seq<u64>
    decreases total + 5000 - offset,
{
    if offset >= total || pages(offset).len() == 0 {
        Seq::empty()
    } else {
        pages(offset) + ids_on_pages(pages, total, offset + 5000)
    }
}

/// The rest of a scan.
proof fn lemma_scan_over(progress: ScanProgress, pages: spec_fn(int) -> Seq<u64>)
    requires
        !progress.exhausted,
    ensures
        scan_over(progress, pages).tally == progress.tally.add(
            ids_on_pages(pages, progress.total, progress.offset).to_multiset(),
        ),
    decreases progress.total + SCAN_PAGE - progress.offset,
{
    broadcast use vstd::seq_lib::group_to_multiset_ensures;
    broadcast use vstd::multiset::group_multiset_axioms;

    let page = pages(progress.offset);
    assert(Seq::<u64>::empty().to_multiset() =~= Multiset::empty());
    if progress.searching() {
        let next = progress.after_page(page);
        if page.len() == 0 {
            assert(scan_over(next, pages) == next);
            assert(progress.tally =~= progress.tally.add(Multiset::empty()));
        } else {
            let rest = ids_on_pages(pages, progress.total, progress.offset + 5000);
            lemma_scan_over(next, pages);
            vstd::seq_lib::lemma_multiset_commutative(page, rest);
            assert(progress.tally.add(page.to_multiset()).add(rest.to_multiset())
                =~= progress.tally.add(page.to_multiset().add(rest.to_multiset())));
        }
    } else {
        assert(progress.tally =~= progress.tally.add(Multiset::empty()));
    }
}

/// A scan counts every document on the pages at the offsets 0, 5000, 10000 and so on within the
/// documents, each once. An empty page ends the scan; a page that is shorter than others does
/// not.
pub proof fn law_scan_counts_every_page(total: int, pages: spec_fn(int) -> Seq<u64>)
    ensures
        scan_over(scan_start(total), pages).tally == ids_on_pages(pages, total, 0).to_multiset(),
{
    broadcast use vstd::multiset::group_multiset_axioms;

    lemma_scan_over(scan_start(total), pages);
    let counted = ids_on_pages(pages, total, 0).to_multiset();
    assert(Multiset::empty().add(counted) =~= counted);
}

/// Where a scan queries next: at the start, then 5000 documents further after each page that
/// holds any, as long as that lies within the documents, and nowhere after an empty page.
pub proof fn law_scan_goes_page_by_page(progress: ScanProgress, page: Seq<u64>, total: int)
    requires
        progress.searching(),
    ensures
        scan_start(total).total == total,
        scan_start(total).offset == 0,
        scan_start(total).searching() <==> total > 0,
        progress.after_page(page).total == progress.total,
        page.len() == 0 ==> !progress.after_page(page).searching(),
        page.len() > 0 ==> progress.after_page(page).offset == progress.offset + 5000,
        page.len() > 0 ==> (progress.after_page(page).searching() <==> progress.offset + 5000
            < progress.total),
        forall|id: u64| #[trigger]
            progress.after_page(page).tally.count(id) == progress.tally.count(id)
                + page.to_multiset().count(id),
{
    broadcast use vstd::multiset::group_multiset_axioms;
    broadcast use vstd::seq_lib::group_to_multiset_ensures;

    assert(page.len() == 0 ==> page =~= Seq::empty());
    assert(Seq::<u64>::empty().to_multiset() =~= Multiset::empty());
}

/// A list of a tally has each id that was counted, once, with its number, and no other.
pub proof fn law_list_is_the_tally(accounts: Seq<(u64, usize)>, tally: Multiset<u64>, id: u64)
    requires
        lists(accounts, tally),
    ensures
        tally.count(id) == 0 ==> forall|i: int|
            0 <= i < accounts.len() ==> (#[trigger] accounts[i]).0 != id,
        tally.count(id) > 0 ==> exists|i: int|
            0 <= i < accounts.len() && #[trigger] accounts[i] == (id, tally.count(id) as usize),
        forall|i: int, j: int|
            0 <= i < accounts.len() && 0 <= j < accounts.len() && (#[trigger] accounts[i]).0 == id
                && (#[trigger] accounts[j]).0 == id ==> i == j,
{
    if tally.count(id) > 0 {
        let i = choose|i: int| 0 <= i < accounts.len() && (#[trigger] accounts[i]).0 == id;
        assert(accounts[i] == (id, tally.count(id) as usize));
    }
}

} // verus!
