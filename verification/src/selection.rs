//! Which account is exported.
use crate::account::AccountV3;
use vstd::prelude::*;

verus! {

/// How the account to export is found.
#[derive(Debug)]
pub enum AccountChoice {
    /// There is no account.
    NoAccounts,
    /// There is one account, which is described by `label`.
    Only { label: String },
    /// One of several is to be asked for; each is described by a label.
    Ask { labels: Vec<String> },
}

/// How an account is described: its address and its name.
pub open spec fn label_of(account: AccountV3) -> Seq<char> {
    account.email@ + " | "@ + (match account.name {
        Some(name) => name@,
        None => "(no name)"@,
    })
}

/// Describes an account by its address and its name.
pub fn account_label(account: &AccountV3) -> (label: String)
    ensures
        label@ == label_of(*account),
{
    let mut label = String::new();
    label.append(account.email.as_str());
    label.append(" | ");
    match &account.name {
        Some(name) => label.append(name.as_str()),
        None => label.append("(no name)"),
    }
    assert(label@ =~= label_of(*account));
    label
}

/// Tells how the account to export is found: no account, the only one, or one of several that
/// are described in their order.
pub fn choose_account(accounts: &[AccountV3]) -> (choice: AccountChoice)
    ensures
        match choice {
            AccountChoice::NoAccounts => accounts@.len() == 0,
            AccountChoice::Only { label } => accounts@.len() == 1 && label@ == label_of(
                accounts@[0],
            ),
            AccountChoice::Ask { labels } => {
                &&& accounts@.len() > 1
                &&& labels@.len() == accounts@.len()
                &&& forall|i: int|
                    0 <= i < labels@.len() ==> (#[trigger] labels@[i])@ == label_of(accounts@[i])
            },
        },
{
    if accounts.len() == 0 {
        return AccountChoice::NoAccounts;
    }
    if accounts.len() == 1 {
        return AccountChoice::Only { label: account_label(&accounts[0]) };
    }
    let mut labels: Vec<String> = Vec::new();
    let mut next: usize = 0;
    while next < accounts.len()
        invariant
            next <= accounts.len(),
            labels@.len() == next,
            forall|i: int|
                0 <= i < labels@.len() ==> (#[trigger] labels@[i])@ == label_of(accounts@[i]),
        decreases accounts.len() - next,
    {
        labels.push(account_label(&accounts[next]));
        next += 1;
    }
    AccountChoice::Ask { labels }
}

/// Whether `found` is the first account with an id.
pub open spec fn is_first_with_id(accounts: Seq<AccountV3>, id: u64, found: int) -> bool {
    &&& 0 <= found < accounts.len()
    &&& accounts[found].id == id
    &&& forall|i: int| 0 <= i < found ==> (#[trigger] accounts[i]).id != id
}

/// The account that is exported for a selection: the first one that has the id of the
/// selected account.
pub fn selected_account(accounts: &[AccountV3], selection: usize) -> (found: usize)
    requires
        selection < accounts@.len(),
    ensures
        is_first_with_id(accounts@, accounts@[selection as int].id, found as int),
{
    let id = accounts[selection].id;
    let mut found: usize = 0;
    while accounts[found].id != id
        invariant
            found <= selection < accounts@.len(),
            id == accounts@[selection as int].id,
            forall|i: int| 0 <= i < found ==> (#[trigger] accounts@[i]).id != id,
        decreases selection - found,
    {
        assert(found != selection);
        found += 1;
    }
    found
}

/// Where no two accounts share an id, the selected account itself is exported.
pub proof fn law_selection_is_exported(accounts: Seq<AccountV3>, selection: int, found: int)
    requires
        0 <= selection < accounts.len(),
        forall|i: int, j: int|
            0 <= i < j < accounts.len() ==> (#[trigger] accounts[i]).id != (
            #[trigger] accounts[j]).id,
        is_first_with_id(accounts, accounts[selection].id, found),
    ensures
        found == selection,
{
}

/// The label of an account tells its address in full, then its name in full, or that it has
/// none, with a bar between them.
pub proof fn law_label_tells_address_and_name(account: AccountV3)
    ensures
        ({
            let label = label_of(account);
            let middle = account.email@.len() as int;
            &&& label.len() >= middle + 3
            &&& label.take(middle) == account.email@
            &&& label.subrange(middle, middle + 3) == seq![' ', '|', ' ']
            &&& account.name matches Some(name) ==> label.skip(middle + 3) == name@
            &&& account.name is None ==> label.skip(middle + 3) == "(no name)"@
        }),
{
    reveal_strlit(" | ");
    let label = label_of(account);
    let middle = account.email@.len() as int;
    assert(label.take(middle) =~= account.email@);
    assert(label.subrange(middle, middle + 3) =~= seq![' ', '|', ' ']);
    match account.name {
        Some(name) => assert(label.skip(middle + 3) =~= name@),
        None => assert(label.skip(middle + 3) =~= "(no name)"@),
    }
}

/// The account that is exported for a selection has the id of the selected one and stands before
/// no other that has it. There is no second such account.
pub proof fn law_exported_account_is_the_first(
    accounts: Seq<AccountV3>,
    selection: int,
    found: int,
    other: int,
)
    requires
        0 <= selection < accounts.len(),
        is_first_with_id(accounts, accounts[selection].id, found),
    ensures
        0 <= found <= selection,
        accounts[found].id == accounts[selection].id,
        0 <= other < accounts.len() && accounts[other].id == accounts[selection].id ==> found
            <= other,
{
}

} // verus!
