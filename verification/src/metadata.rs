//! The `X-Bichon-Metadata` header: the account and the mailbox that an exported message
//! belongs to, as base64-encoded JSON.
use crate::encoding::{decode_base64, encode_base64};
use crate::json::write_json_optional;
use vstd::prelude::*;

verus! {

use crate::encoding::{base64_text, lemma_base64_injective, lemma_base64_printable};
use crate::json::{json_optional, lemma_json_optional_delimited, optional_view};
use crate::text::{is_white_space, trimmed};
use vstd::utf8::{encode_utf8, encode_utf8_decode_utf8};

/// What the header records of a message. What is unknown is `None`.
#[derive(Clone, Debug, PartialEq, Eq)]
pub struct BichonMetadata {
    pub account_email: Option<String>,
    pub mailbox_name: Option<String>,
}

/// The contents of a `BichonMetadata`.
pub ghost struct Metadata {
    pub account_email: Option<Seq<char>>,
    pub mailbox_name: Option<Seq<char>>,
}

impl View for BichonMetadata {
    type V = Metadata;

    open spec fn view(&self) -> Metadata {
        Metadata {
            account_email: optional_view(self.account_email),
            mailbox_name: optional_view(self.mailbox_name),
        }
    }
}

impl Default for BichonMetadata {
    fn default() -> (r: Self)
        ensures
            r.account_email is None,
            r.mailbox_name is None,
    {
        BichonMetadata { account_email: None, mailbox_name: None }
    }
}

/// The JSON object that the header carries.
pub open spec fn metadata_json(m: Metadata) -> Seq<char> {
    "{\"account_email\":"@ + json_optional(m.account_email) + ",\"mailbox_name\":"@ + json_optional(
        m.mailbox_name,
    ) + "}"@
}

/// The bytes of that JSON object.
pub open spec fn metadata_payload(m: Metadata) -> Seq<u8> {
    encode_utf8(metadata_json(m))
}

/// The whole header line, its line end included.
pub open spec fn metadata_header(m: Metadata) -> Seq<char> {
    "X-Bichon-Metadata: "@ + base64_text(metadata_payload(m)) + "\n"@
}

/// The bytes whose base64 text, white space around it aside, is the value of a header.
pub open spec fn decoded_payload(value: Seq<char>) -> Option<Seq<u8>> {
    if exists|b: Seq<u8>| #[trigger] base64_text(b) == trimmed(value) {
        Some(choose|b: Seq<u8>| #[trigger] base64_text(b) == trimmed(value))
    } else {
        None
    }
}

/// Writes the header line of a message.
pub fn build_metadata_header(metadata: &BichonMetadata) -> (header: String)
    ensures
        header@ == metadata_header(metadata@),
{
    let mut json = String::new();
    json.append("{\"account_email\":");
    let email = write_json_optional(&metadata.account_email);
    json.append(email.as_str());
    json.append(",\"mailbox_name\":");
    let mailbox = write_json_optional(&metadata.mailbox_name);
    json.append(mailbox.as_str());
    json.append("}");
    assert(json@ =~= metadata_json(metadata@));
    let encoded = encode_base64(json.as_str().as_bytes());
    let mut header = String::new();
    header.append("X-Bichon-Metadata: ");
    header.append(encoded.as_str());
    header.append("\n");
    assert(header@ =~= metadata_header(metadata@));
    header
}

/// Reads the value of a header back into the JSON bytes that it carries. White space around
/// the value is skipped; a value that is no base64 text gives `None`.
pub fn parse_bichon_metadata(header_value: &str) -> (payload: Option<Vec<u8>>)
    ensures
        match payload {
            Some(b) => decoded_payload(header_value@) == Some(b@),
            None => decoded_payload(header_value@) is None,
        },
{
    match decode_base64(header_value.trim()) {
        Ok(b) => {
            proof {
                let chosen = decoded_payload(header_value@).unwrap();
                assert(base64_text(b@) == trimmed(header_value@));
                assert(base64_text(chosen) == trimmed(header_value@));
                lemma_base64_injective(b@, chosen);
            }
            Some(b)
        },
        Err(_) => None,
    }
}

/// What follows the account in the JSON object.
spec fn behind_account(m: Metadata) -> Seq<char> {
    ",\"mailbox_name\":"@ + (json_optional(m.mailbox_name) + "}"@)
}

/// What follows the same text in two equal texts is equal.
proof fn lemma_same_behind(front: Seq<char>, a: Seq<char>, b: Seq<char>)
    requires
        front + a == front + b,
    ensures
        a == b,
{
    assert(a =~= (front + a).skip(front.len() as int));
    assert(b =~= (front + b).skip(front.len() as int));
}

/// The JSON object in its parts: up to the account, the account, and what follows it.
proof fn lemma_json_parts(m: Metadata)
    ensures
        metadata_json(m) == "{\"account_email\":"@ + (json_optional(m.account_email)
            + behind_account(m)),
{
    assert(metadata_json(m) =~= "{\"account_email\":"@ + (json_optional(m.account_email)
        + behind_account(m)));
}

/// The JSON object determines the account, and what follows it.
proof fn lemma_json_determines_account(a: Metadata, b: Metadata)
    requires
        metadata_json(a) == metadata_json(b),
    ensures
        a.account_email == b.account_email,
        behind_account(a) == behind_account(b),
{
    lemma_json_parts(a);
    lemma_json_parts(b);
    let rest_a = behind_account(a);
    let rest_b = behind_account(b);
    lemma_same_behind(
        "{\"account_email\":"@,
        json_optional(a.account_email) + rest_a,
        json_optional(b.account_email) + rest_b,
    );
    lemma_json_optional_delimited(a.account_email, b.account_email, rest_a, rest_b);
}

/// What follows the account determines the mailbox.
proof fn lemma_rest_determines_mailbox(a: Metadata, b: Metadata)
    requires
        behind_account(a) == behind_account(b),
    ensures
        a.mailbox_name == b.mailbox_name,
{
    lemma_same_behind(
        ",\"mailbox_name\":"@,
        json_optional(a.mailbox_name) + "}"@,
        json_optional(b.mailbox_name) + "}"@,
    );
    lemma_json_optional_delimited(a.mailbox_name, b.mailbox_name, "}"@, "}"@);
}

/// Two metadata with the same payload are the same, so a reader of the header recovers the
/// account and the mailbox without doubt.
pub proof fn law_payload_determines_metadata(a: Metadata, b: Metadata)
    requires
        metadata_payload(a) == metadata_payload(b),
    ensures
        a == b,
{
    encode_utf8_decode_utf8(metadata_json(a));
    encode_utf8_decode_utf8(metadata_json(b));
    lemma_json_determines_account(a, b);
    lemma_rest_determines_mailbox(a, b);
}

/// White space is trimmed away around characters of which none is white space.
proof fn lemma_trim_around(before: Seq<char>, core: Seq<char>, after: Seq<char>)
    requires
        forall|i: int| 0 <= i < before.len() ==> is_white_space(#[trigger] before[i]),
        forall|i: int| 0 <= i < core.len() ==> !is_white_space(#[trigger] core[i]),
        forall|i: int| 0 <= i < after.len() ==> is_white_space(#[trigger] after[i]),
    ensures
        trimmed(before + core + after) == core,
    decreases before.len() + after.len(),
{
    let all = before + core + after;
    if before.len() > 0 {
        assert(all.first() == before[0]);
        assert(all.drop_first() =~= before.drop_first() + core + after);
        lemma_trim_around(before.drop_first(), core, after);
    } else if after.len() > 0 {
        assert(all.last() == after.last());
        if core.len() > 0 {
            assert(all.first() == core[0]);
            assert(all.drop_last() =~= before + core + after.drop_last());
            lemma_trim_around(before, core, after.drop_last());
        } else {
            assert(all.first() == after[0]);
            assert(all.drop_first() =~= before + core + after.drop_first());
            lemma_trim_around(before, core, after.drop_first());
        }
    } else {
        assert(all =~= core);
    }
}

/// Reading the value of a written header, that is the rest of the line behind the colon,
/// gives back the payload that was written, and no other metadata have that payload.
pub proof fn law_header_round_trip(m: Metadata)
    ensures
        metadata_header(m).take(18) == "X-Bichon-Metadata:"@,
        decoded_payload(metadata_header(m).skip(18)) == Some(metadata_payload(m)),
        forall|n: Metadata|
            decoded_payload(metadata_header(m).skip(18)) == Some(#[trigger] metadata_payload(n))
                ==> n == m,
{
    reveal_strlit("X-Bichon-Metadata:");
    reveal_strlit("X-Bichon-Metadata: ");
    reveal_strlit("\n");
    let payload = metadata_payload(m);
    let core = base64_text(payload);
    let value = metadata_header(m).skip(18);
    assert(metadata_header(m).take(18) =~= "X-Bichon-Metadata:"@);
    assert(value =~= seq![' '] + core + seq!['\n']);
    lemma_base64_printable(payload);
    lemma_trim_around(seq![' '], core, seq!['\n']);
    assert(base64_text(payload) == trimmed(value));
    let chosen = decoded_payload(value).unwrap();
    lemma_base64_injective(payload, chosen);
    assert forall|n: Metadata|
        decoded_payload(value) == Some(#[trigger] metadata_payload(n)) implies n == m by {
        law_payload_determines_metadata(n, m);
    }
}

/// The header is one line: it ends with a line feed, and holds no other line end.
pub proof fn law_header_is_one_line(m: Metadata)
    ensures
        metadata_header(m).last() == '\n',
        forall|i: int|
            0 <= i < metadata_header(m).len() - 1 ==> #[trigger] metadata_header(m)[i] != '\n'
                && metadata_header(m)[i] != '\r',
{
    reveal_strlit("X-Bichon-Metadata: ");
    reveal_strlit("\n");
    lemma_base64_printable(metadata_payload(m));
    let core = base64_text(metadata_payload(m));
    assert forall|i: int| 0 <= i < metadata_header(m).len() - 1 implies #[trigger] metadata_header(
        m,
    )[i] != '\n' && metadata_header(m)[i] != '\r' by {
        if i >= 19 {
            assert(metadata_header(m)[i] == core[i - 19]);
        }
    }
}

/// Different metadata have different header lines.
pub proof fn law_header_determines_metadata(a: Metadata, b: Metadata)
    requires
        metadata_header(a) == metadata_header(b),
    ensures
        a == b,
{
    law_header_round_trip(a);
    law_header_round_trip(b);
    law_payload_determines_metadata(a, b);
}

/// The header line: its name, a colon and a space, the base64 text of a JSON object, and a line
/// feed. The object has the members `account_email` and `mailbox_name` in this order, without
/// white space.
pub proof fn law_header_carries_json(m: Metadata)
    ensures
        ({
            let header = metadata_header(m);
            let json = "{\"account_email\":"@ + json_optional(m.account_email)
                + ",\"mailbox_name\":"@ + json_optional(m.mailbox_name) + "}"@;
            &&& header.len() > 20
            &&& header.take(19) == "X-Bichon-Metadata: "@
            &&& header.subrange(19, header.len() - 1) == base64_text(encode_utf8(json))
            &&& header.last() == '\n'
        }),
{
    reveal_strlit("X-Bichon-Metadata: ");
    reveal_strlit("\n");
    reveal_strlit("}");
    let header = metadata_header(m);
    let json = metadata_json(m);
    assert(json.last() == '}');
    encode_utf8_decode_utf8(json);
    assert(encode_utf8(json).len() > 0);
    assert(base64_text(encode_utf8(json)).len() > 0);
    assert(header.take(19) =~= "X-Bichon-Metadata: "@);
    assert(header.subrange(19, header.len() - 1) =~= base64_text(encode_utf8(json)));
}

/// Reading the value of a header gives some bytes exactly where the value, white space around
/// it aside, is their base64 text.
pub proof fn law_payload_is_what_was_encoded(value: Seq<char>, bytes: Seq<u8>)
    ensures
        decoded_payload(value) == Some(bytes) <==> base64_text(bytes) == trimmed(value),
{
    if base64_text(bytes) == trimmed(value) {
        lemma_base64_injective(bytes, decoded_payload(value)->0);
    }
}

/// The view of metadata leaves no character out.
pub proof fn law_metadata_view_leaves_nothing_out(m: BichonMetadata)
    ensures
        m@.account_email is Some <==> m.account_email is Some,
        m.account_email matches Some(email) ==> m@.account_email == Some(email@),
        m@.mailbox_name is Some <==> m.mailbox_name is Some,
        m.mailbox_name matches Some(name) ==> m@.mailbox_name == Some(name@),
{
}

} // verus!
