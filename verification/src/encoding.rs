//! Base64 text, as the `base64` crate writes and reads it with its standard alphabet.
use base64::Engine;
use vstd::prelude::*;

verus! {

/// The character that stands for a number below 64.
pub open spec fn base64_char(v: int) -> char {
    if v < 26 {
        (65 + v) as char
    } else if v < 52 {
        (97 + (v - 26)) as char
    } else if v < 62 {
        (48 + (v - 52)) as char
    } else if v == 62 {
        '+'
    } else {
        '/'
    }
}

/// The base64 text of some bytes: four characters for each group of three bytes, a shorter
/// last group being filled up with zero bits and then with `=`.
pub open spec fn base64_text(bytes: Seq<u8>) -> Seq<char>
    decreases bytes.len(),
{
    if bytes.len() == 0 {
        Seq::empty()
    } else if bytes.len() == 1 {
        let a = bytes[0] as int;
        seq![base64_char(a / 4), base64_char(a % 4 * 16), '=', '=']
    } else if bytes.len() == 2 {
        let a = bytes[0] as int;
        let b = bytes[1] as int;
        seq![base64_char(a / 4), base64_char(a % 4 * 16 + b / 16), base64_char(b % 16 * 4), '=']
    } else {
        let a = bytes[0] as int;
        let b = bytes[1] as int;
        let c = bytes[2] as int;
        seq![
            base64_char(a / 4),
            base64_char(a % 4 * 16 + b / 16),
            base64_char(b % 16 * 4 + c / 64),
            base64_char(c % 64),
        ] + base64_text(bytes.skip(3))
    }
}

/// The reason for which the `base64` crate refuses a text.
#[verifier::external_type_specification]
#[verifier::external_body]
pub struct ExDecodeError(base64::DecodeError);

/// `base64::engine::general_purpose::STANDARD.encode` returns the base64 text of the bytes,
/// padded. The crate's own limit on the length of its input cannot be reached: no slice is
/// longer than `isize::MAX`, and four thirds of that fit in a `usize`.
#[verifier::external_body]
pub(crate) fn encode_base64(bytes: &[u8]) -> (text: String)
    ensures
        text@ == base64_text(bytes@),
{
    base64::engine::general_purpose::STANDARD.encode(bytes)
}

/// `base64::engine::general_purpose::STANDARD.decode` reads a text back. It demands the
/// padding and demands that the unused bits be zero, so it accepts the text of some bytes,
/// gives those bytes, and refuses everything else.
#[verifier::external_body]
pub(crate) fn decode_base64(text: &str) -> (bytes: Result<Vec<u8>, base64::DecodeError>)
    ensures
        match bytes {
            Ok(b) => base64_text(b@) == text@,
            Err(_) => forall|b: Seq<u8>| #[trigger] base64_text(b) != text@,
        },
{
    base64::engine::general_purpose::STANDARD.decode(text)
}

/// Different numbers below 64 have different characters, and none of them is `=`.
proof fn lemma_base64_char_injective(v: int, w: int)
    requires
        0 <= v < 64,
        0 <= w < 64,
    ensures
        base64_char(v) == base64_char(w) ==> v == w,
        base64_char(v) != '=',
{
}

/// The first group of a text determines the first group of bytes.
proof fn lemma_base64_first_group(a: Seq<u8>, b: Seq<u8>)
    requires
        a.len() > 0,
        b.len() > 0,
        base64_text(a).len() >= 4,
        base64_text(b).len() >= 4,
        base64_text(a)[0] == base64_text(b)[0],
        base64_text(a)[1] == base64_text(b)[1],
        base64_text(a)[2] == base64_text(b)[2],
        base64_text(a)[3] == base64_text(b)[3],
    ensures
        a[0] == b[0],
        a.len() >= 2 <==> b.len() >= 2,
        a.len() >= 3 <==> b.len() >= 3,
        a.len() >= 2 ==> a[1] == b[1],
        a.len() >= 3 ==> a[2] == b[2],
{
    let a0 = a[0] as int;
    let b0 = b[0] as int;
    let a1 = if a.len() >= 2 { a[1] as int } else { 0 };
    let b1 = if b.len() >= 2 { b[1] as int } else { 0 };
    let a2 = if a.len() >= 3 { a[2] as int } else { 0 };
    let b2 = if b.len() >= 3 { b[2] as int } else { 0 };
    lemma_base64_char_injective(a0 / 4, b0 / 4);
    lemma_base64_char_injective(a0 % 4 * 16 + a1 / 16, b0 % 4 * 16 + b1 / 16);
    lemma_base64_char_injective(a1 % 16 * 4 + a2 / 64, b1 % 16 * 4 + b2 / 64);
    lemma_base64_char_injective(b1 % 16 * 4 + b2 / 64, a1 % 16 * 4 + a2 / 64);
    lemma_base64_char_injective(a2 % 64, b2 % 64);
    lemma_base64_char_injective(b2 % 64, a2 % 64);
}

/// Different bytes have different base64 texts.
pub proof fn lemma_base64_injective(a: Seq<u8>, b: Seq<u8>)
    requires
        base64_text(a) == base64_text(b),
    ensures
        a == b,
    decreases a.len(),
{
    if a.len() == 0 || b.len() == 0 {
        assert(a.len() == 0 ==> base64_text(a).len() == 0);
        assert(a.len() > 0 ==> base64_text(a).len() >= 4);
        assert(b.len() > 0 ==> base64_text(b).len() >= 4);
        assert(a =~= b);
    } else {
        lemma_base64_first_group(a, b);
        if a.len() >= 3 {
            assert(base64_text(a.skip(3)) =~= base64_text(a).skip(4));
            assert(base64_text(b.skip(3)) =~= base64_text(b).skip(4));
            lemma_base64_injective(a.skip(3), b.skip(3));
            assert forall|i: int| 0 <= i < a.len() implies a[i] == b[i] by {
                if i >= 3 {
                    assert(a[i] == a.skip(3)[i - 3]);
                    assert(b[i] == b.skip(3)[i - 3]);
                }
            }
            assert(a.len() == a.skip(3).len() + 3);
            assert(b.len() == b.skip(3).len() + 3);
        }
        assert(a =~= b);
    }
}

/// Base64 text is made of printable ASCII characters other than the space.
pub proof fn lemma_base64_printable(bytes: Seq<u8>)
    ensures
        forall|i: int|
            0 <= i < base64_text(bytes).len() ==> 33 <= (#[trigger] base64_text(bytes)[i] as int)
                < 127,
    decreases bytes.len(),
{
    if bytes.len() >= 3 {
        lemma_base64_printable(bytes.skip(3));
        assert forall|i: int| 0 <= i < base64_text(bytes).len() implies 33 <= (
        #[trigger] base64_text(bytes)[i] as int) < 127 by {
            if i >= 4 {
                assert(base64_text(bytes)[i] == base64_text(bytes.skip(3))[i - 4]);
            }
        }
    }
}

} // verus!
