//! The order in which the accounts of an index are exported, and where that ends.
use crate::export::ExportEnd;
use crate::plan::{fallback_export, FallbackExport};
use vstd::prelude::*;

verus! {

use crate::mbox::{fallback_file, separator, UNKNOWN_SENDER};

/// How far a walk over accounts has come.
pub ghost struct WalkProgress {
    /// The accounts in their order, each with the number of its documents.
    pub accounts: Seq<(u64, usize)>,
    /// How many of them are done.
    pub done: int,
    /// The end that let no other account follow.
    pub stopped: Option<ExportEnd>,
}

impl WalkProgress {
    /// The account to export next, as long as there is one.
    pub open spec fn next(self) -> Option<(u64, usize)> {
        if self.stopped is None && 0 <= self.done < self.accounts.len() {
            Some(self.accounts[self.done])
        } else {
            None
        }
    }

    /// The progress once the export of an account has ended.
    pub open spec fn after_export(self, end: ExportEnd) -> WalkProgress {
        if end.continues() {
            WalkProgress { done: self.done + 1, ..self }
        } else {
            WalkProgress { stopped: Some(end), ..self }
        }
    }
}

/// The progress before the first account.
pub open spec fn walk_start(accounts: Seq<(u64, usize)>) -> WalkProgress {
    WalkProgress { accounts, done: 0, stopped: None }
}

/// A walk over accounts under way.
pub struct FallbackWalk {
    accounts: Vec<(u64, usize)>,
    done: usize,
    stopped: Option<ExportEnd>,
}

impl View for FallbackWalk {
    type V = WalkProgress;

    closed spec fn view(&self) -> WalkProgress {
        WalkProgress {
            accounts: self.accounts@,
            done: self.done as int,
            stopped: self.stopped,
        }
    }
}

impl FallbackWalk {
    /// Starts a walk over some accounts, each with the number of its documents.
    pub fn new(accounts: Vec<(u64, usize)>) -> (walk: FallbackWalk)
        ensures
            walk@ == walk_start(accounts@),
    {
        FallbackWalk { accounts, done: 0, stopped: None }
    }

    /// The export that is next, as long as there is one.
    pub fn next_export(&self, date: &str) -> (plan: Option<FallbackExport>)
        ensures
            match plan {
                Some(plan) => {
                    &&& self@.next() == Some((plan.account_id, plan.total))
                    &&& plan.file@ == fallback_file(plan.account_id as nat)
                    &&& plan.line@ == separator(UNKNOWN_SENDER@, date@)
                },
                None => self@.next() is None,
            },
    {
        if self.stopped.is_none() && self.done < self.accounts.len() {
            let (account_id, total) = self.accounts[self.done];
            Some(fallback_export(account_id, total, date))
        } else {
            None
        }
    }

    /// Takes how the export of the account ended.
    pub fn after_export(self, end: ExportEnd) -> (walk: FallbackWalk)
        requires
            self@.next() is Some,
        ensures
            walk@ == self@.after_export(end),
    {
        if end.lets_others_follow() {
            assert(self.done < self.accounts.len());
            FallbackWalk {
                accounts: self.accounts,
                done: self.done + 1,
                stopped: self.stopped,
            }
        } else {
            FallbackWalk { accounts: self.accounts, done: self.done, stopped: Some(end) }
        }
    }

    /// The end that let no other account follow, where there was one.
    pub fn stopped_by(&self) -> (end: Option<ExportEnd>)
        ensures
            end == self@.stopped,
    {
        self.stopped
    }
}

/// A walk starts with the first account and takes them in their order. An export that is
/// complete, that could not be flushed or that was empty lets the next account follow; any other
/// end stops the walk, and is kept.
pub proof fn law_walk_takes_accounts_in_order(
    accounts: Seq<(u64, usize)>,
    walk: WalkProgress,
    end: ExportEnd,
)
    requires
        0 <= walk.done < walk.accounts.len(),
        walk.stopped is None,
    ensures
        accounts.len() > 0 ==> walk_start(accounts).next() == Some(accounts[0]),
        accounts.len() == 0 ==> walk_start(accounts).next() is None,
        walk.next() == Some(walk.accounts[walk.done]),
        walk.after_export(end).accounts == walk.accounts,
        end == ExportEnd::Complete || end == ExportEnd::NotFlushed || end == ExportEnd::Empty ==> {
            &&& walk.after_export(end).stopped is None
            &&& walk.done + 1 < walk.accounts.len() ==> walk.after_export(end).next() == Some(
                walk.accounts[walk.done + 1],
            )
            &&& walk.done + 1 == walk.accounts.len() ==> walk.after_export(end).next() is None
        },
        !(end == ExportEnd::Complete || end == ExportEnd::NotFlushed || end == ExportEnd::Empty)
            ==> {
            &&& walk.after_export(end).stopped == Some(end)
            &&& walk.after_export(end).next() is None
        },
{
}

} // verus!
