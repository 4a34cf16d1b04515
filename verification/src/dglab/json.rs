//! Strings and lists of strings in JSON.

use vstd::prelude::*;

use crate::text;

verus! {

/// The lower-case hexadecimal digit of `d`, for `d` below sixteen.
pub open spec fn low_hex_char(d: int) -> char {
    if d < 10 {
        (0x30 + d) as char
    } else {
        (0x57 + d) as char
    }
}

/// How a JSON string spells the character `c`.
pub open spec fn json_char(c: char) -> Seq<char> {
    if c == '"' || c == '\\' {
        seq!['\\', c]
    } else if c as u32 == 0x8 {
        seq!['\\', 'b']
    } else if c as u32 == 0x9 {
        seq!['\\', 't']
    } else if c as u32 == 0xa {
        seq!['\\', 'n']
    } else if c as u32 == 0xc {
        seq!['\\', 'f']
    } else if c as u32 == 0xd {
        seq!['\\', 'r']
    } else if (c as u32) < 0x20 {
        seq!['\\', 'u', '0', '0', low_hex_char(c as int / 16), low_hex_char(c as int % 16)]
    } else {
        seq![c]
    }
}

/// The spelling of the characters of `s`, one after the other.
pub open spec fn json_body(s: Seq<char>) -> Seq<char>
    decreases s.len(),
{
    if s.len() == 0 {
        seq![]
    } else {
        json_body(s.drop_last()) + json_char(s.last())
    }
}

/// `s` as a JSON string.
pub open spec fn json_string(s: Seq<char>) -> Seq<char> {
    seq!['"'] + json_body(s) + seq!['"']
}

/// The JSON strings of `items` with commas between them.
pub open spec fn json_items(items: Seq<Seq<char>>) -> Seq<char>
    decreases items.len(),
{
    if items.len() == 0 {
        seq![]
    } else if items.len() == 1 {
        json_string(items[0])
    } else {
        json_items(items.drop_last()) + seq![','] + json_string(items.last())
    }
}

/// `items` as a JSON array of strings.
pub open spec fn json_list(items: Seq<Seq<char>>) -> Seq<char> {
    seq!['['] + json_items(items) + seq![']']
}

/// `serde_json::to_string` on a string: writes it between quotation marks,
/// escapes the quotation mark, the backslash and the characters below U+0020,
/// and does not fail.
#[verifier::external_body]
pub(crate) fn string_to_json(text: &str) -> (r: Result<String, String>)
    ensures
        r is Ok,
        r->Ok_0@ == json_string(text@),
{
    serde_json::to_string(text).map_err(|err| err.to_string())
}

/// `serde_json::to_string` on a list of strings: writes them as JSON strings
/// between brackets, with commas and no white space, and does not fail.
#[verifier::external_body]
pub(crate) fn strings_to_json(items: &Vec<String>) -> (r: Result<String, String>)
    ensures
        r is Ok,
        r->Ok_0@ == json_list(text::views(items@)),
{
    serde_json::to_string(items).map_err(|err| err.to_string())
}

proof fn lemma_plain_body(s: Seq<char>)
    requires
        forall|i: int|
            0 <= i < s.len() ==> (#[trigger] s[i]) as u32 >= 32 && s[i] != '"' && s[i] != '\\',
    ensures
        json_body(s) == s,
    decreases s.len(),
{
    if s.len() > 0 {
        let t = s.drop_last();
        assert forall|i: int| 0 <= i < t.len() implies (#[trigger] t[i]) as u32 >= 32 && t[i] != '"'
            && t[i] != '\\' by {
            assert(t[i] == s[i]);
        }
        lemma_plain_body(t);
        assert(s[s.len() - 1] != '"');
        assert(t + seq![s.last()] =~= s);
    }
}

/// A text without quotation marks, backslashes and control characters stands as
/// it is between quotation marks.
pub proof fn law_plain_text_is_quoted(s: Seq<char>)
    requires
        forall|i: int|
            0 <= i < s.len() ==> (#[trigger] s[i]) as u32 >= 32 && s[i] != '"' && s[i] != '\\',
    ensures
        json_string(s) == seq!['"'] + s + seq!['"'],
{
    lemma_plain_body(s);
}

/// A list has its strings in order, in brackets and with commas between them.
pub proof fn law_lists_have_their_items_in_order(items: Seq<Seq<char>>, next: Seq<char>)
    ensures
        json_list(Seq::empty()) == seq!['[', ']'],
        json_list(seq![next]) == seq!['['] + json_string(next) + seq![']'],
        items.len() > 0 ==> json_list(items.push(next)) == json_list(items).drop_last() + seq![',']
            + json_string(next) + seq![']'],
{
    assert(json_list(Seq::empty()) =~= seq!['[', ']']);
    assert(json_list(seq![next]) =~= seq!['['] + json_string(next) + seq![']']);
    if items.len() > 0 {
        let more = items.push(next);
        assert(more.drop_last() =~= items);
        assert(json_items(more) == json_items(items) + seq![','] + json_string(next));
        assert(json_list(items).drop_last() =~= seq!['['] + json_items(items));
        assert(json_list(more) =~= json_list(items).drop_last() + seq![','] + json_string(next)
            + seq![']']);
    }
}

} // verus!
