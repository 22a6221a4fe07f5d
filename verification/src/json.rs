//! JSON text of optional strings, as `serde_json` writes it.
use vstd::prelude::*;

verus! {

/// The lowercase hexadecimal digit of a number below 16.
pub open spec fn hex_char(v: int) -> char {
    if v < 10 {
        (48 + v) as char
    } else {
        (97 + (v - 10)) as char
    }
}

/// A character inside a JSON string: `"`, `\` and the control characters are escaped.
pub open spec fn json_escaped(c: char) -> Seq<char> {
    let v = c as int;
    if c == '"' || c == '\\' {
        seq!['\\', c]
    } else if v == 8 {
        seq!['\\', 'b']
    } else if v == 9 {
        seq!['\\', 't']
    } else if v == 10 {
        seq!['\\', 'n']
    } else if v == 12 {
        seq!['\\', 'f']
    } else if v == 13 {
        seq!['\\', 'r']
    } else if v < 32 {
        seq!['\\', 'u', '0', '0', hex_char(v / 16), hex_char(v % 16)]
    } else {
        seq![c]
    }
}

/// The characters between the quotes of a JSON string.
pub open spec fn json_contents(s: Seq<char>) -> Seq<char>
    decreases s.len(),
{
    if s.len() == 0 {
        Seq::empty()
    } else {
        json_escaped(s.first()) + json_contents(s.drop_first())
    }
}

/// An optional string in JSON: a string, or `null`.
pub open spec fn json_optional(value: Option<Seq<char>>) -> Seq<char> {
    match value {
        Some(s) => seq!['"'] + json_contents(s) + seq!['"'],
        None => seq!['n', 'u', 'l', 'l'],
    }
}

/// The characters of an optional string.
pub open spec fn optional_view(value: Option<String>) -> Option<Seq<char>> {
    match value {
        Some(s) => Some(s@),
        None => None,
    }
}

/// `serde_json::to_string` writes an optional string without white space: `null`, or the
/// quoted string with `"`, `\` and control characters escaped. It fails only where a
/// `Serialize` impl fails or a map has a key that is no string; an optional string gives
/// cause for neither.
#[verifier::external_body]
pub(crate) fn write_json_optional(value: &Option<String>) -> (text: String)
    ensures
        text@ == json_optional(optional_view(*value)),
{
    serde_json::to_string(value).unwrap()
}

/// Different characters have escapes of which neither starts the other.
proof fn lemma_json_escaped_prefix_free(c: char, d: char, rest_c: Seq<char>, rest_d: Seq<char>)
    requires
        json_escaped(c) + rest_c == json_escaped(d) + rest_d,
    ensures
        c == d,
        rest_c == rest_d,
{
    let left = json_escaped(c) + rest_c;
    let right = json_escaped(d) + rest_d;
    assert(forall|i: int| 0 <= i < json_escaped(c).len() ==> left[i] == json_escaped(c)[i]);
    assert(forall|i: int| 0 <= i < json_escaped(d).len() ==> right[i] == json_escaped(d)[i]);
    assert(left[0] == right[0]);
    if json_escaped(c).len() > 1 && json_escaped(d).len() > 1 {
        assert(left[1] == right[1]);
        if json_escaped(c).len() == 6 && json_escaped(d).len() == 6 {
            assert(left[4] == right[4]);
            assert(left[5] == right[5]);
        }
    }
    assert(c == d);
    assert(rest_c =~= left.skip(json_escaped(c).len() as int));
    assert(rest_d =~= right.skip(json_escaped(d).len() as int));
}

/// The contents of a JSON string end at the first quote that is not escaped.
proof fn lemma_json_contents_delimited(
    s: Seq<char>,
    t: Seq<char>,
    rest_s: Seq<char>,
    rest_t: Seq<char>,
)
    requires
        json_contents(s) + (seq!['"'] + rest_s) == json_contents(t) + (seq!['"'] + rest_t),
    ensures
        s == t,
        rest_s == rest_t,
    decreases s.len(),
{
    let tail_s = seq!['"'] + rest_s;
    let tail_t = seq!['"'] + rest_t;
    let left = json_contents(s) + tail_s;
    let right = json_contents(t) + tail_t;
    if s.len() == 0 && t.len() == 0 {
        assert(left =~= tail_s);
        assert(right =~= tail_t);
        assert(rest_s =~= tail_s.skip(1));
        assert(rest_t =~= tail_t.skip(1));
        assert(s =~= t);
    } else if s.len() == 0 {
        assert(left[0] == '"');
        assert(right[0] == json_escaped(t.first())[0]);
        assert(false);
    } else if t.len() == 0 {
        assert(right[0] == '"');
        assert(left[0] == json_escaped(s.first())[0]);
        assert(false);
    } else {
        assert(left =~= json_escaped(s.first()) + (json_contents(s.drop_first()) + tail_s));
        assert(right =~= json_escaped(t.first()) + (json_contents(t.drop_first()) + tail_t));
        lemma_json_escaped_prefix_free(
            s.first(),
            t.first(),
            json_contents(s.drop_first()) + tail_s,
            json_contents(t.drop_first()) + tail_t,
        );
        lemma_json_contents_delimited(s.drop_first(), t.drop_first(), rest_s, rest_t);
        assert(s =~= seq![s.first()] + s.drop_first());
        assert(t =~= seq![t.first()] + t.drop_first());
    }
}

/// A JSON value followed by anything determines the optional string it was written from.
pub proof fn lemma_json_optional_delimited(
    a: Option<Seq<char>>,
    b: Option<Seq<char>>,
    rest_a: Seq<char>,
    rest_b: Seq<char>,
)
    requires
        json_optional(a) + rest_a == json_optional(b) + rest_b,
    ensures
        a == b,
        rest_a == rest_b,
{
    let left = json_optional(a) + rest_a;
    let right = json_optional(b) + rest_b;
    assert(left[0] == json_optional(a)[0]);
    assert(right[0] == json_optional(b)[0]);
    match (a, b) {
        (Some(s), Some(t)) => {
            assert(left.skip(1) =~= json_contents(s) + (seq!['"'] + rest_a));
            assert(right.skip(1) =~= json_contents(t) + (seq!['"'] + rest_b));
            lemma_json_contents_delimited(s, t, rest_a, rest_b);
        },
        (None, None) => {
            assert(rest_a =~= left.skip(4));
            assert(rest_b =~= right.skip(4));
        },
        _ => {
            assert(false);
        },
    }
}

/// Whether a text has no quotation marks, backslashes and control characters.
pub open spec fn is_plain(s: Seq<char>) -> bool {
    forall|i: int|
        0 <= i < s.len() ==> #[trigger] s[i] != '"' && s[i] != '\\' && s[i] as int >= 32
}

/// A plain text needs no escapes.
proof fn lemma_plain_contents(s: Seq<char>)
    requires
        is_plain(s),
    ensures
        json_contents(s) == s,
    decreases s.len(),
{
    if s.len() > 0 {
        lemma_plain_contents(s.drop_first());
        assert(json_contents(s) =~= s);
    }
}

/// A plain text stands between the quotes as it is.
pub proof fn law_plain_text_is_quoted(s: Seq<char>)
    requires
        is_plain(s),
    ensures
        json_optional(Some(s)) == seq!['"'] + s + seq!['"'],
{
    lemma_plain_contents(s);
}

/// The view of an optional string leaves no character out.
pub proof fn law_optional_view_leaves_nothing_out(s: String)
    ensures
        optional_view(Some(s)) == Some(s@),
        optional_view(None) is None,
{
}

} // verus!
