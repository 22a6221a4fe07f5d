//! What is fixed about the export of one account before it starts.
use crate::account::AccountV3;
use crate::mailbox::MailboxIndex;
use crate::mbox::{
    fallback_file_name,
    fallback_record,
    from_line,
    native_file_name,
    native_record,
    UNKNOWN_SENDER,
};
use vstd::prelude::*;

verus! {

use crate::mailbox::index_view;
use crate::mbox::{
    fallback_document,
    fallback_file,
    message_view,
    native_document,
    native_file,
    record_view,
    separator,
};

/// The export of an account whose address is known.
#[derive(Clone, Debug, PartialEq, Eq)]
pub struct NativeExport {
    /// The account whose documents are queried.
    pub account_id: u64,
    /// The address that the added headers tell.
    pub email: String,
    /// The name of the file.
    pub file: String,
    /// The separator line in front of each message.
    pub line: String,
}

/// Fixes the export of an account whose address is known.
pub fn native_export(account: &AccountV3, date: &str) -> (plan: NativeExport)
    ensures
        plan.account_id == account.id,
        plan.email@ == account.email@,
        plan.file@ == native_file(account.email@),
        plan.line@ == separator(account.email@, date@),
{
    let email = account.email.as_str();
    NativeExport {
        account_id: account.id,
        email: email.to_owned(),
        file: native_file_name(email),
        line: from_line(email, date),
    }
}

impl NativeExport {
    /// Makes the record of a document of the account.
    pub fn record(&self, index: &MailboxIndex, mailbox_id: u64, eml: Option<&[u8]>) -> (record:
        Option<Vec<u8>>)
        ensures
            record_view(record) == native_document(
                self.line@,
                self.email@,
                index_view(index@),
                mailbox_id,
                message_view(eml),
            ),
    {
        native_record(self.line.as_str(), self.email.as_str(), index, mailbox_id, eml)
    }
}

/// The export of an account of which the id alone is known.
#[derive(Clone, Debug, PartialEq, Eq)]
pub struct FallbackExport {
    /// The account whose documents are queried.
    pub account_id: u64,
    /// How many documents it has.
    pub total: usize,
    /// The name of the file.
    pub file: String,
    /// The separator line in front of each message.
    pub line: String,
}

/// Fixes the export of an account of which the id and the number of documents are known.
pub fn fallback_export(account_id: u64, total: usize, date: &str) -> (plan: FallbackExport)
    ensures
        plan.account_id == account_id,
        plan.total == total,
        plan.file@ == fallback_file(account_id as nat),
        plan.line@ == separator(UNKNOWN_SENDER@, date@),
{
    FallbackExport {
        account_id,
        total,
        file: fallback_file_name(account_id),
        line: from_line(UNKNOWN_SENDER, date),
    }
}

impl FallbackExport {
    /// Makes the record of a document of the account.
    pub fn record(&self, eml: Option<&[u8]>) -> (record: Option<Vec<u8>>)
        ensures
            record_view(record) == fallback_document(self.line@, message_view(eml)),
    {
        fallback_record(self.line.as_str(), eml)
    }
}

} // verus!
