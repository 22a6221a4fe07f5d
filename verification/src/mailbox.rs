//! Mailboxes as the mailbox database stores them, and what an export knows of them.
use crate::account::AccountV3;
use std::collections::HashMap;
use vstd::prelude::*;

verus! {

use crate::json::optional_view;

/// The file of the account database in the root directory.
pub const META_DB: &'static str = "meta.db";

/// The file of the mailbox database in the root directory.
pub const MAILBOX_DB: &'static str = "mailbox.db";

/// How many bytes each of the two databases may cache.
pub const DB_CACHE_BYTES: usize = 67_108_864;

/// An attribute that the IMAP server gives a mailbox.
#[derive(Clone, Copy, Debug, PartialEq, Eq, Structural)]
pub enum AttributeEnum {
    NoInferiors,
    NoSelect,
    Marked,
    Unmarked,
    All,
    Archive,
    Drafts,
    Flagged,
    Junk,
    Sent,
    Trash,
    Extension,
    Unknown,
}

impl Default for AttributeEnum {
    fn default() -> (r: Self)
        ensures
            r == AttributeEnum::Unknown,
    {
        AttributeEnum::Unknown
    }
}

/// An attribute, with its name where it is an extension.
#[derive(Clone, Debug, PartialEq, Eq)]
pub struct Attribute {
    pub attr: AttributeEnum,
    pub extension: Option<String>,
}

impl Default for Attribute {
    fn default() -> (r: Self)
        ensures
            r.attr == AttributeEnum::Unknown,
            r.extension is None,
    {
        Attribute { attr: AttributeEnum::default(), extension: None }
    }
}

/// A mailbox of an account.
#[derive(Clone, Debug, PartialEq, Eq)]
pub struct MailBox {
    pub id: u64,
    pub account_id: u64,
    pub name: String,
    pub delimiter: Option<String>,
    pub attributes: Vec<Attribute>,
    pub exists: u32,
    pub unseen: Option<u32>,
    pub uid_next: Option<u32>,
    pub uid_validity: Option<u32>,
}

impl Default for MailBox {
    fn default() -> (r: Self)
        ensures
            r.id == 0,
            r.account_id == 0,
            r.name@ == Seq::<char>::empty(),
            r.delimiter is None,
            r.attributes@ == Seq::<Attribute>::empty(),
            r.exists == 0,
            r.unseen is None,
            r.uid_next is None,
            r.uid_validity is None,
    {
        MailBox {
            id: 0,
            account_id: 0,
            name: String::new(),
            delimiter: None,
            attributes: Vec::new(),
            exists: 0,
            unseen: None,
            uid_next: None,
            uid_validity: None,
        }
    }
}

/// A record that the mailbox database also holds. Nothing reads it; the database opens only
/// where its kind is known.
#[derive(Clone, Copy, Debug, PartialEq, Eq, Structural)]
pub struct AccountRunningState {
    pub account_id: u64,
}

impl Default for AccountRunningState {
    fn default() -> (r: Self)
        ensures
            r.account_id == 0,
    {
        AccountRunningState { account_id: 0 }
    }
}

/// The account and the name of each mailbox, by the id of the mailbox.
pub type MailboxIndex = HashMap<u64, (u64, String)>;

/// The contents of a mailbox index.
pub open spec fn index_view(index: Map<u64, (u64, String)>) -> Map<u64, (u64, Seq<char>)> {
    index.map_values(|entry: (u64, String)| (entry.0, entry.1@))
}

/// The index of some mailboxes: of two with one id the later counts.
pub open spec fn mailbox_index(mailboxes: Seq<MailBox>) -> Map<u64, (u64, Seq<char>)>
    decreases mailboxes.len(),
{
    if mailboxes.len() == 0 {
        Map::empty()
    } else {
        mailbox_index(mailboxes.drop_last()).insert(
            mailboxes.last().id,
            (mailboxes.last().account_id, mailboxes.last().name@),
        )
    }
}

/// Indexes the mailboxes by their ids.
pub fn index_mailboxes(mailboxes: &[MailBox]) -> (index: MailboxIndex)
    ensures
        index_view(index@) == mailbox_index(mailboxes@),
{
    broadcast use vstd::std_specs::hash::group_hash_axioms;

    let mut index: MailboxIndex = HashMap::new();
    let mut next: usize = 0;
    assert(mailboxes@.take(0) =~= Seq::<MailBox>::empty());
    assert(index_view(index@) =~= Map::empty());
    while next < mailboxes.len()
        invariant
            next <= mailboxes.len(),
            index_view(index@) == mailbox_index(mailboxes@.take(next as int)),
        decreases mailboxes.len() - next,
    {
        broadcast use vstd::std_specs::hash::group_hash_axioms;

        let ghost before = index@;
        let mailbox = &mailboxes[next];
        index.insert(mailbox.id, (mailbox.account_id, mailbox.name.clone()));
        next += 1;
        proof {
            let seen = mailboxes@.take(next as int);
            assert(seen.drop_last() =~= mailboxes@.take(next - 1));
            assert(seen.last() == mailboxes@[next - 1]);
            assert(index_view(index@) =~= index_view(before).insert(
                mailbox.id,
                (mailbox.account_id, mailbox.name@),
            ));
        }
    }
    assert(mailboxes@.take(next as int) =~= mailboxes@);
    index
}

/// What the two databases tell: the accounts, and the index of the mailboxes. Where one of
/// them could not be read, or no root directory was given, nothing is known.
pub fn try_open_native(
    accounts: Option<Vec<AccountV3>>,
    mailboxes: Option<Vec<MailBox>>,
) -> (native: Option<(Vec<AccountV3>, MailboxIndex)>)
    ensures
        native is Some <==> accounts is Some && mailboxes is Some,
        native matches Some(n) ==> n.0 == accounts->0 && index_view(n.1@) == mailbox_index(
            mailboxes->0@,
        ),
{
    match (accounts, mailboxes) {
        (Some(accounts), Some(mailboxes)) => {
            let index = index_mailboxes(mailboxes.as_slice());
            Some((accounts, index))
        },
        _ => None,
    }
}

/// The name of a mailbox, where the index knows it.
pub open spec fn name_in(index: Map<u64, (u64, Seq<char>)>, mailbox_id: u64) -> Option<Seq<char>> {
    if index.contains_key(mailbox_id) {
        Some(index[mailbox_id].1)
    } else {
        None
    }
}

/// Looks the name of a mailbox up.
pub fn mailbox_name(index: &MailboxIndex, mailbox_id: u64) -> (name: Option<String>)
    ensures
        optional_view(name) == name_in(index_view(index@), mailbox_id),
{
    broadcast use vstd::std_specs::hash::group_hash_axioms;

    match index.get(&mailbox_id) {
        Some(entry) => Some(entry.1.clone()),
        None => None,
    }
}

/// A mailbox is in the index where no later one has its id.
pub proof fn law_last_mailbox_counts(mailboxes: Seq<MailBox>, i: int)
    requires
        0 <= i < mailboxes.len(),
        forall|j: int| i < j < mailboxes.len() ==> (#[trigger] mailboxes[j]).id != mailboxes[i].id,
    ensures
        mailbox_index(mailboxes).contains_key(mailboxes[i].id),
        mailbox_index(mailboxes)[mailboxes[i].id] == (mailboxes[i].account_id, mailboxes[i].name@),
    decreases mailboxes.len(),
{
    if i < mailboxes.len() - 1 {
        assert(mailboxes.last() == mailboxes[mailboxes.len() - 1]);
        law_last_mailbox_counts(mailboxes.drop_last(), i);
    }
}

/// The index knows no id but those of the mailboxes.
pub proof fn law_other_ids_unknown(mailboxes: Seq<MailBox>, id: u64)
    requires
        forall|i: int| 0 <= i < mailboxes.len() ==> (#[trigger] mailboxes[i]).id != id,
    ensures
        name_in(mailbox_index(mailboxes), id) is None,
    decreases mailboxes.len(),
{
    if mailboxes.len() > 0 {
        assert(mailboxes.last() == mailboxes[mailboxes.len() - 1]);
        law_other_ids_unknown(mailboxes.drop_last(), id);
    }
}

/// The name found for a mailbox is the one that the index has for it, in full, and for an id
/// that the index does not know none is found.
pub proof fn law_lookup_gives_the_entry(index: Map<u64, (u64, Seq<char>)>, mailbox_id: u64)
    ensures
        name_in(index, mailbox_id) is Some <==> index.contains_key(mailbox_id),
        index.contains_key(mailbox_id) ==> name_in(index, mailbox_id)->0 == index[mailbox_id].1,
{
}

/// The name found for a mailbox is the name that the database stores: that of the last mailbox
/// with the id.
pub proof fn law_stored_name_is_found(mailboxes: Seq<MailBox>, i: int)
    requires
        0 <= i < mailboxes.len(),
        forall|j: int| i < j < mailboxes.len() ==> (#[trigger] mailboxes[j]).id != mailboxes[i].id,
    ensures
        name_in(mailbox_index(mailboxes), mailboxes[i].id) == Some(mailboxes[i].name@),
{
    law_last_mailbox_counts(mailboxes, i);
}

/// The view of an index has its ids, and for each the account and all characters of the name.
pub proof fn law_index_view_leaves_nothing_out(index: Map<u64, (u64, String)>)
    ensures
        index_view(index).dom() == index.dom(),
        forall|id: u64| #[trigger]
            index.contains_key(id) ==> index_view(index)[id] == (index[id].0, index[id].1@),
{
    assert(index_view(index).dom() =~= index.dom());
}

} // verus!
