//! mbox files: their names, the separator lines, and the records in them.
use crate::mailbox::{mailbox_name, MailboxIndex};
use crate::metadata::{build_metadata_header, BichonMetadata};
use crate::text::push_decimal;
use vstd::prelude::*;

verus! {

use crate::date::{lemma_date_printable, LocalTime};
use crate::mailbox::{
    index_view,
    law_stored_name_is_found,
    mailbox_index,
    name_in,
    MailBox,
};
use crate::metadata::{law_header_determines_metadata, metadata_header, Metadata};
use crate::text::{decimal, lemma_decimal_digits, lemma_decimal_injective};
use vstd::utf8::encode_utf8;

/// Whether a character of an address is kept out of file names: the separators of paths, and
/// what some file systems refuse. An `@` stays.
pub open spec fn is_unsafe_char(c: char) -> bool {
    ||| c == '/'
    ||| c == '\\'
    ||| c == ':'
    ||| c == '*'
    ||| c == '?'
    ||| c == '"'
    ||| c == '<'
    ||| c == '>'
    ||| c == '|'
}

/// The character that stands in a file name for a character of an address.
pub open spec fn safe_char(c: char) -> char {
    if is_unsafe_char(c) {
        '_'
    } else {
        c
    }
}

/// An address as it stands in a file name.
pub open spec fn safe_text(email: Seq<char>) -> Seq<char> {
    email.map_values(|c: char| safe_char(c))
}

/// Tells the characters that are kept out of file names.
pub fn unsafe_in_file_name(c: char) -> (r: bool)
    ensures
        r == is_unsafe_char(c),
{
    c == '/' || c == '\\' || c == ':' || c == '*' || c == '?' || c == '"' || c == '<' || c == '>'
        || c == '|'
}

/// Replaces each character that is kept out of file names by `_`.
pub fn safe_email(email: &str) -> (safe: String)
    ensures
        safe@ == safe_text(email@),
{
    let mut safe = String::new();
    for c in it: email.chars()
        invariant
            it.seq() == email@,
            safe@ == safe_text(email@.take(it.index() as int)),
    {
        if unsafe_in_file_name(c) {
            safe.push('_');
        } else {
            safe.push(c);
        }
        assert(safe@ =~= safe_text(email@.take(it.index() + 1)));
    }
    assert(safe@ =~= safe_text(email@));
    safe
}

/// The file of an account whose address is known: the address itself, but for the characters
/// that are kept out of file names.
pub open spec fn native_file(email: Seq<char>) -> Seq<char> {
    safe_text(email) + ".mbox"@
}

/// The file of an account of which the id alone is known.
pub open spec fn fallback_file(account_id: nat) -> Seq<char> {
    "account_"@ + decimal(account_id) + ".mbox"@
}

/// Names the file of an account whose address is known.
pub fn native_file_name(email: &str) -> (name: String)
    ensures
        name@ == native_file(email@),
{
    let mut name = safe_email(email);
    name.append(".mbox");
    name
}

/// Names the file of an account of which the id alone is known.
pub fn fallback_file_name(account_id: u64) -> (name: String)
    ensures
        name@ == fallback_file(account_id as nat),
{
    let mut name = String::new();
    name.append("account_");
    push_decimal(&mut name, account_id);
    name.append(".mbox");
    assert(name@ =~= fallback_file(account_id as nat));
    name
}

/// The sender that stands in the separator lines where no address is known.
pub const UNKNOWN_SENDER: &'static str = "sender@example.com";

/// The separator line in front of each message.
pub open spec fn separator(sender: Seq<char>, date: Seq<char>) -> Seq<char> {
    "From "@ + sender + " "@ + date + "\n"@
}

/// Writes the separator line in front of each message.
pub fn from_line(sender: &str, date: &str) -> (line: String)
    ensures
        line@ == separator(sender@, date@),
{
    let mut line = String::new();
    line.append("From ");
    line.append(sender);
    line.append(" ");
    line.append(date);
    line.append("\n");
    assert(line@ =~= separator(sender@, date@));
    line
}

/// A record of an mbox file: separator line, added header, message, and an empty line.
pub open spec fn record_bytes(line: Seq<char>, header: Seq<char>, eml: Seq<u8>) -> Seq<u8> {
    encode_utf8(line) + encode_utf8(header) + eml + seq![10u8, 10u8]
}

/// Puts a record together.
fn assemble_record(line: &str, header: &str, eml: &[u8]) -> (record: Vec<u8>)
    ensures
        record@ == record_bytes(line@, header@, eml@),
{
    let mut record: Vec<u8> = Vec::new();
    record.extend_from_slice(line.as_bytes());
    record.extend_from_slice(header.as_bytes());
    record.extend_from_slice(eml);
    record.push(10u8);
    record.push(10u8);
    assert(record@ =~= record_bytes(line@, header@, eml@));
    record
}

/// What the header of a message says that lies in a mailbox of a known account.
pub open spec fn native_metadata(
    email: Seq<char>,
    index: Map<u64, (u64, Seq<char>)>,
    mailbox_id: u64,
) -> Metadata {
    Metadata { account_email: Some(email), mailbox_name: name_in(index, mailbox_id) }
}

/// The record of a document of a known account, where it holds a message: its header tells
/// the account and, where the index knows it, the mailbox.
pub open spec fn native_document(
    line: Seq<char>,
    email: Seq<char>,
    index: Map<u64, (u64, Seq<char>)>,
    mailbox_id: u64,
    eml: Option<Seq<u8>>,
) -> Option<Seq<u8>> {
    match eml {
        Some(eml) => Some(
            record_bytes(line, metadata_header(native_metadata(email, index, mailbox_id)), eml),
        ),
        None => None,
    }
}

/// The record of a document of which only the account id is known, where it holds a message:
/// no header is added.
pub open spec fn fallback_document(line: Seq<char>, eml: Option<Seq<u8>>) -> Option<Seq<u8>> {
    match eml {
        Some(eml) => Some(encode_utf8(line) + eml + seq![10u8, 10u8]),
        None => None,
    }
}

/// The bytes of a message, where there is one.
pub open spec fn message_view(eml: Option<&[u8]>) -> Option<Seq<u8>> {
    match eml {
        Some(eml) => Some(eml@),
        None => None,
    }
}

/// The bytes of a record, where there is one.
pub open spec fn record_view(record: Option<Vec<u8>>) -> Option<Seq<u8>> {
    match record {
        Some(record) => Some(record@),
        None => None,
    }
}

/// Makes the record of a document of a known account.
pub fn native_record(
    line: &str,
    email: &str,
    index: &MailboxIndex,
    mailbox_id: u64,
    eml: Option<&[u8]>,
) -> (record: Option<Vec<u8>>)
    ensures
        record_view(record) == native_document(
            line@,
            email@,
            index_view(index@),
            mailbox_id,
            message_view(eml),
        ),
{
    match eml {
        Some(eml) => {
            let header = build_metadata_header(
                &BichonMetadata {
                    account_email: Some(email.to_owned()),
                    mailbox_name: mailbox_name(index, mailbox_id),
                },
            );
            Some(assemble_record(line, header.as_str(), eml))
        },
        None => None,
    }
}

/// Makes the record of a document of which only the account id is known.
pub fn fallback_record(line: &str, eml: Option<&[u8]>) -> (record: Option<Vec<u8>>)
    ensures
        record_view(record) == fallback_document(line@, message_view(eml)),
{
    match eml {
        Some(eml) => {
            let record = assemble_record(line, "", eml);
            proof {
                reveal_strlit("");
                assert(""@ =~= Seq::<char>::empty());
                assert(record@ =~= encode_utf8(line@) + eml@ + seq![10u8, 10u8]);
            }
            Some(record)
        },
        None => None,
    }
}

/// An address in a file name has none of the characters that are kept out.
pub proof fn law_safe_text_is_safe(email: Seq<char>)
    ensures
        safe_text(email).len() == email.len(),
        forall|i: int|
            0 <= i < email.len() ==> !is_unsafe_char(#[trigger] safe_text(email)[i]),
{
}

/// Making a safe address safe again changes nothing.
pub proof fn law_safe_text_idempotent(email: Seq<char>)
    ensures
        safe_text(safe_text(email)) == safe_text(email),
{
    assert(safe_text(safe_text(email)) =~= safe_text(email));
}

/// The files of an export lie in the output directory itself: no name has a path separator.
pub proof fn law_file_names_are_flat(email: Seq<char>, account_id: nat)
    ensures
        forall|i: int|
            0 <= i < native_file(email).len() ==> #[trigger] native_file(email)[i] != '/'
                && native_file(email)[i] != '\\',
        forall|i: int|
            0 <= i < fallback_file(account_id).len() ==> #[trigger] fallback_file(account_id)[i]
                != '/' && fallback_file(account_id)[i] != '\\',
{
    reveal_strlit(".mbox");
    reveal_strlit("account_");
    lemma_decimal_digits(account_id);
    let digits = decimal(account_id);
    assert forall|i: int| 0 <= i < fallback_file(account_id).len() implies #[trigger] fallback_file(
        account_id,
    )[i] != '/' && fallback_file(account_id)[i] != '\\' by {
        if 8 <= i < 8 + digits.len() {
            assert(fallback_file(account_id)[i] == digits[i - 8]);
        }
    }
}

/// Accounts with different ids are exported into different files.
pub proof fn law_fallback_files_differ(a: nat, b: nat)
    requires
        fallback_file(a) == fallback_file(b),
    ensures
        a == b,
{
    let prefix = "account_"@.len() as int;
    let suffix = ".mbox"@.len() as int;
    let end_a = fallback_file(a).len() - suffix;
    let end_b = fallback_file(b).len() - suffix;
    assert(fallback_file(a).subrange(prefix, end_a) =~= decimal(a));
    assert(fallback_file(b).subrange(prefix, end_b) =~= decimal(b));
    lemma_decimal_injective(a, b);
}

/// Accounts with different addresses are exported into different files, provided that no
/// address has a character that is kept out of file names.
pub proof fn law_native_files_differ(a: Seq<char>, b: Seq<char>)
    requires
        forall|i: int| 0 <= i < a.len() ==> !is_unsafe_char(#[trigger] a[i]),
        forall|i: int| 0 <= i < b.len() ==> !is_unsafe_char(#[trigger] b[i]),
        native_file(a) == native_file(b),
    ensures
        a == b,
{
    let suffix = ".mbox"@.len() as int;
    assert(safe_text(a) =~= a);
    assert(safe_text(b) =~= b);
    assert(native_file(a).take(native_file(a).len() - suffix) =~= a);
    assert(native_file(b).take(native_file(b).len() - suffix) =~= b);
}

/// An address that has no character kept out of file names is the name of its file.
pub proof fn law_address_is_file_name(email: Seq<char>)
    requires
        forall|i: int| 0 <= i < email.len() ==> !is_unsafe_char(#[trigger] email[i]),
    ensures
        native_file(email) == email + ".mbox"@,
{
    assert(safe_text(email) =~= email);
}

/// A separator line is one line, provided that no line feed stands in the sender's address.
pub proof fn law_separator_is_one_line(sender: Seq<char>, time: LocalTime)
    requires
        time.valid(),
        forall|i: int| 0 <= i < sender.len() ==> #[trigger] sender[i] != '\n',
    ensures
        separator(sender, time.date_text()).last() == '\n',
        forall|i: int|
            0 <= i < separator(sender, time.date_text()).len() - 1 ==> #[trigger] separator(
                sender,
                time.date_text(),
            )[i] != '\n',
{
    reveal_strlit("From ");
    reveal_strlit(" ");
    reveal_strlit("\n");
    let date = time.date_text();
    let line = separator(sender, date);
    lemma_date_printable(time);
    assert(line.len() == 5 + sender.len() + 1 + date.len() + 1);
    assert forall|i: int| 0 <= i < line.len() - 1 implies #[trigger] line[i] != '\n' by {
        if 5 <= i < 5 + sender.len() {
            assert(line[i] == sender[i - 5]);
        } else if i >= 6 + sender.len() {
            assert(line[i] == date[i - 6 - sender.len()]);
        }
    }
}

/// The characters that are kept out of file names are the path separators, the colon, the two
/// wildcards, the quotation mark, the angle brackets and the bar, and no others.
pub proof fn law_listed_characters_are_unsafe(c: char)
    ensures
        is_unsafe_char(c) <==> c == '/' || c == '\\' || c == ':' || c == '*' || c == '?' || c == '"'
            || c == '<' || c == '>' || c == '|',
{
}

/// The name of the file of an address has a character for each character of the address: `_` for
/// a path separator, colon, wildcard, quotation mark, angle bracket or bar, and the character
/// itself for any other. Behind it stands `.mbox`.
pub proof fn law_only_listed_characters_replaced(email: Seq<char>)
    ensures
        native_file(email).len() == email.len() + 5,
        native_file(email).skip(email.len() as int) == seq!['.', 'm', 'b', 'o', 'x'],
        native_file(email).take(email.len() as int) == safe_text(email),
        forall|i: int|
            0 <= i < email.len() ==> #[trigger] native_file(email)[i] == (if email[i] == '/'
                || email[i] == '\\' || email[i] == ':' || email[i] == '*' || email[i] == '?'
                || email[i] == '"' || email[i] == '<' || email[i] == '>' || email[i] == '|' {
                '_'
            } else {
                email[i]
            }),
{
    reveal_strlit(".mbox");
    assert(native_file(email).skip(email.len() as int) =~= seq!['.', 'm', 'b', 'o', 'x']);
    assert(native_file(email).take(email.len() as int) =~= safe_text(email));
}

/// An address of letters, digits and the usual marks is the name of its file.
pub proof fn law_plain_address_is_file_name(email: Seq<char>)
    requires
        forall|i: int|
            0 <= i < email.len() ==> {
                let c = #[trigger] email[i];
                ||| 'a' <= c <= 'z'
                ||| 'A' <= c <= 'Z'
                ||| '0' <= c <= '9'
                ||| c == '@'
                ||| c == '.'
                ||| c == '-'
                ||| c == '_'
                ||| c == '+'
            },
    ensures
        native_file(email) == email + seq!['.', 'm', 'b', 'o', 'x'],
{
    law_only_listed_characters_replaced(email);
    assert(native_file(email) =~= email + seq!['.', 'm', 'b', 'o', 'x']);
}

/// Two addresses share a file only where they have the same length and differ in no character
/// but those for which `_` stands, and `_` itself.
pub proof fn law_shared_file_tells(a: Seq<char>, b: Seq<char>)
    requires
        native_file(a) == native_file(b),
    ensures
        a.len() == b.len(),
        forall|i: int|
            0 <= i < a.len() && #[trigger] a[i] != b[i] ==> {
                let shown = |c: char|
                    c == '_' || c == '/' || c == '\\' || c == ':' || c == '*' || c == '?' || c == '"'
                        || c == '<' || c == '>' || c == '|';
                shown(a[i]) && shown(b[i])
            },
{
    law_only_listed_characters_replaced(a);
    law_only_listed_characters_replaced(b);
    assert forall|i: int| 0 <= i < a.len() && #[trigger] a[i] != b[i] implies {
        let shown = |c: char|
            c == '_' || c == '/' || c == '\\' || c == ':' || c == '*' || c == '?' || c == '"' || c
                == '<' || c == '>' || c == '|';
        shown(a[i]) && shown(b[i])
    } by {
        let shown_a = native_file(a)[i];
        let shown_b = native_file(b)[i];
        assert(shown_a == shown_b);
        assert(shown_a == '_' || shown_a == a[i]);
        assert(shown_b == '_' || shown_b == b[i]);
        assert(shown_a == '_');
    }
}

/// The file of an account of which only the id is known: `account_`, the id, `.mbox`.
pub proof fn law_fallback_file_tells_the_id(account_id: nat)
    ensures
        ({
            let file = fallback_file(account_id);
            let end = file.len() - 5;
            &&& file.len() > 13
            &&& file.take(8) == seq!['a', 'c', 'c', 'o', 'u', 'n', 't', '_']
            &&& file.subrange(8, end) == decimal(account_id)
            &&& file.skip(end) == seq!['.', 'm', 'b', 'o', 'x']
        }),
{
    reveal_strlit("account_");
    reveal_strlit(".mbox");
    lemma_decimal_digits(account_id);
    let file = fallback_file(account_id);
    let end = file.len() - 5;
    assert(file.take(8) =~= seq!['a', 'c', 'c', 'o', 'u', 'n', 't', '_']);
    assert(file.subrange(8, end) =~= decimal(account_id));
    assert(file.skip(end) =~= seq!['.', 'm', 'b', 'o', 'x']);
}

/// A separator line tells the sender and the date in full: `From`, the sender, the date, with a
/// space before each of the two, and a line feed.
pub proof fn law_separator_tells_sender_and_date(sender: Seq<char>, date: Seq<char>)
    ensures
        ({
            let line = separator(sender, date);
            let middle = 5 + sender.len() as int;
            &&& line.len() == 5 + sender.len() + 1 + date.len() + 1
            &&& line.take(5) == seq!['F', 'r', 'o', 'm', ' ']
            &&& line.subrange(5, middle) == sender
            &&& line[middle] == ' '
            &&& line.subrange(middle + 1, line.len() - 1) == date
            &&& line.last() == '\n'
        }),
{
    reveal_strlit("From ");
    reveal_strlit(" ");
    reveal_strlit("\n");
    let line = separator(sender, date);
    let middle = 5 + sender.len() as int;
    assert(line.take(5) =~= seq!['F', 'r', 'o', 'm', ' ']);
    assert(line.subrange(5, middle) =~= sender);
    assert(line.subrange(middle + 1, line.len() - 1) =~= date);
}

/// Every message has a record, and the record holds it unchanged, however long it is: the
/// separator line in front of it and two line feeds behind it. A document without a message has
/// no record.
pub proof fn law_fallback_record_holds_message(line: Seq<char>, eml: Seq<u8>)
    ensures
        fallback_document(line, None) is None,
        fallback_document(line, Some(eml)) is Some,
        ({
            let record = fallback_document(line, Some(eml))->0;
            let front = encode_utf8(line).len() as int;
            &&& record.len() == front + eml.len() + 2
            &&& record.take(front) == encode_utf8(line)
            &&& record.subrange(front, record.len() - 2) == eml
            &&& record.skip(record.len() - 2) == seq![10u8, 10u8]
        }),
{
    let record = fallback_document(line, Some(eml))->0;
    let front = encode_utf8(line).len() as int;
    assert(record.take(front) =~= encode_utf8(line));
    assert(record.subrange(front, record.len() - 2) =~= eml);
    assert(record.skip(record.len() - 2) =~= seq![10u8, 10u8]);
}

/// Every message of a known account has a record, and the record holds it unchanged, however
/// long it is: in front of it stand the separator line and the header line that tells the
/// address and the name that the index gives for the mailbox, and behind it two line feeds. A
/// document without a message has no record.
pub proof fn law_native_record_holds_message(
    line: Seq<char>,
    email: Seq<char>,
    index: Map<u64, (u64, Seq<char>)>,
    mailbox_id: u64,
    eml: Seq<u8>,
)
    ensures
        native_document(line, email, index, mailbox_id, None) is None,
        native_document(line, email, index, mailbox_id, Some(eml)) is Some,
        ({
            let record = native_document(line, email, index, mailbox_id, Some(eml))->0;
            let header = encode_utf8(
                metadata_header(
                    Metadata {
                        account_email: Some(email),
                        mailbox_name: if index.contains_key(mailbox_id) {
                            Some(index[mailbox_id].1)
                        } else {
                            None
                        },
                    },
                ),
            );
            let middle = encode_utf8(line).len() as int;
            let front = middle + header.len();
            &&& record.len() == front + eml.len() + 2
            &&& record.take(middle) == encode_utf8(line)
            &&& record.subrange(middle, front) == header
            &&& record.subrange(front, record.len() - 2) == eml
            &&& record.skip(record.len() - 2) == seq![10u8, 10u8]
        }),
{
    let record = native_document(line, email, index, mailbox_id, Some(eml))->0;
    let header = encode_utf8(metadata_header(native_metadata(email, index, mailbox_id)));
    let middle = encode_utf8(line).len() as int;
    let front = middle + header.len();
    assert(record.take(middle) =~= encode_utf8(line));
    assert(record.subrange(middle, front) =~= header);
    assert(record.subrange(front, record.len() - 2) =~= eml);
    assert(record.skip(record.len() - 2) =~= seq![10u8, 10u8]);
}

/// A message of a mailbox that the database knows is told with the name of that mailbox in full.
/// Two mailboxes of different names are never told by the same header line.
pub proof fn law_headers_tell_mailboxes_apart(
    email: Seq<char>,
    mailboxes: Seq<MailBox>,
    i: int,
    j: int,
)
    requires
        0 <= i < mailboxes.len(),
        0 <= j < mailboxes.len(),
        forall|k: int| i < k < mailboxes.len() ==> (#[trigger] mailboxes[k]).id != mailboxes[i].id,
        forall|k: int| j < k < mailboxes.len() ==> (#[trigger] mailboxes[k]).id != mailboxes[j].id,
    ensures
        ({
            let index = mailbox_index(mailboxes);
            let told = native_metadata(email, index, mailboxes[i].id);
            let other = native_metadata(email, index, mailboxes[j].id);
            &&& told.account_email == Some(email)
            &&& told.mailbox_name == Some(mailboxes[i].name@)
            &&& mailboxes[i].name@ != mailboxes[j].name@ ==> metadata_header(told)
                != metadata_header(other)
        }),
{
    let index = mailbox_index(mailboxes);
    let told = native_metadata(email, index, mailboxes[i].id);
    let other = native_metadata(email, index, mailboxes[j].id);
    law_stored_name_is_found(mailboxes, i);
    law_stored_name_is_found(mailboxes, j);
    if metadata_header(told) == metadata_header(other) {
        law_header_determines_metadata(told, other);
    }
}

/// The views of messages and records leave nothing out.
pub proof fn law_message_and_record_views(eml: &[u8], record: Vec<u8>)
    ensures
        message_view(Some(eml)) == Some(eml@),
        message_view(None) is None,
        record_view(Some(record)) == Some(record@),
        record_view(None) is None,
{
}

} // verus!
