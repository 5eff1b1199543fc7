//! JSON: texts as literals, and objects whose members are texts.

use serde_json::Value;
use vstd::prelude::*;

verus! {

/// The hexadecimal digit for `d`, in small letters.
pub open spec fn hex_char(d: nat) -> char {
    if d < 10 {
        (('0' as nat + d) as u32) as char
    } else {
        (('a' as nat + d - 10) as u32) as char
    }
}

/// How the character is written in a JSON string.
pub open spec fn escaped_char(c: char) -> Seq<char> {
    if c == '"' {
        seq!['\\', '"']
    } else if c == '\\' {
        seq!['\\', '\\']
    } else if c == '\u{8}' {
        seq!['\\', 'b']
    } else if c == '\u{c}' {
        seq!['\\', 'f']
    } else if c == '\n' {
        seq!['\\', 'n']
    } else if c == '\r' {
        seq!['\\', 'r']
    } else if c == '\t' {
        seq!['\\', 't']
    } else if c <= '\u{1f}' {
        seq!['\\', 'u', '0', '0', hex_char(c as nat / 16), hex_char(c as nat % 16)]
    } else {
        seq![c]
    }
}

/// How the text is written in a JSON string.
pub open spec fn escaped(text: Seq<char>) -> Seq<char>
    decreases text.len(),
{
    if text.len() == 0 {
        seq![]
    } else {
        escaped_char(text[0]) + escaped(text.skip(1))
    }
}

/// The JSON string of the text.
pub open spec fn literal(text: Seq<char>) -> Seq<char> {
    seq!['"'] + escaped(text) + seq!['"']
}

/// `a` comes before `b` in the order of texts by the code points of their
/// characters.
pub open spec fn precedes(a: Seq<char>, b: Seq<char>) -> bool
    decreases a.len(),
{
    if a.len() == 0 || b.len() == 0 {
        a.len() < b.len()
    } else {
        a[0] < b[0] || (a[0] == b[0] && precedes(a.skip(1), b.skip(1)))
    }
}

/// The members of an object, one to a line.
pub open spec fn member_lines(members: Seq<(Seq<char>, Option<Seq<char>>)>) -> Seq<char>
    decreases members.len(),
{
    if members.len() == 0 {
        seq![]
    } else {
        let (key, value) = members.last();
        member_lines(members.drop_last()) + (if members.len() == 1 {
            "\n  "@
        } else {
            ",\n  "@
        }) + literal(key) + ": "@ + literal(value->0)
    }
}

/// An object of texts, laid out for reading.
pub open spec fn object_text(members: Seq<(Seq<char>, Option<Seq<char>>)>) -> Seq<char> {
    if members.len() == 0 {
        "{}"@
    } else {
        "{"@ + member_lines(members) + "\n}"@
    }
}

/// The members of an object of texts, by their keys.
pub open spec fn by_key(members: Seq<(Seq<char>, Option<Seq<char>>)>) -> Map<Seq<char>, Seq<char>>
    decreases members.len(),
{
    if members.len() == 0 {
        Map::empty()
    } else {
        by_key(members.drop_last()).insert(members.last().0, members.last().1->0)
    }
}

/// A JSON value.
#[verifier::external_type_specification]
#[verifier::external_body]
pub struct ExValue(serde_json::Value);

/// The members of a JSON object.
#[verifier::external_type_specification]
#[verifier::external_body]
#[verifier::reject_recursive_types(K)]
#[verifier::reject_recursive_types(V)]
pub struct ExObject<K, V>(serde_json::Map<K, V>);

/// The members of the object in the order in which it is walked: each key with
/// the text under it, or with `None` if something else is under it.
pub uninterp spec fn members_of(object: serde_json::Map<String, serde_json::Value>) -> Seq<
    (Seq<char>, Option<Seq<char>>),
>;

/// The members of the value that are texts, by their keys; none if the value is
/// no object.
pub uninterp spec fn texts_of(value: serde_json::Value) -> Map<Seq<char>, Seq<char>>;

/// What stands in a JSON text: the members that are texts, by their keys; `None`
/// if the text is no JSON.
pub uninterp spec fn texts_in(text: Seq<char>) -> Option<Map<Seq<char>, Seq<char>>>;

/// `serde_json::to_string` of a text: its JSON string.
#[verifier::external_body]
pub(crate) fn quote(text: &str) -> (quoted: String)
    ensures
        quoted@ == literal(text@),
{
    serde_json::to_string(text).unwrap()
}

/// `serde_json::from_str` into a `Value`: which texts are JSON, and what stands
/// in them, depends on the text alone.
#[verifier::external_body]
pub(crate) fn parse(text: &str) -> (value: Option<Value>)
    ensures
        match value {
            Some(value) => texts_in(text@) == Some(texts_of(value)),
            None => texts_in(text@) is None,
        },
{
    serde_json::from_str(text).ok()
}

/// `Value::get` with a key, and `Value::as_str` of what it gives: the text under
/// the key, if the value is an object and has one there.
#[verifier::external_body]
pub(crate) fn text_member(value: &Value, key: &str) -> (text: Option<String>)
    ensures
        match text {
            Some(text) => texts_of(*value).contains_pair(key@, text@),
            None => !texts_of(*value).contains_key(key@),
        },
{
    value.get(key).and_then(Value::as_str).map(str::to_owned)
}

/// `serde_json::Map::new`: an object without members.
#[verifier::external_body]
pub(crate) fn empty_object() -> (object: serde_json::Map<String, Value>)
    ensures
        members_of(object).len() == 0,
{
    serde_json::Map::new()
}

/// `serde_json::Map::insert` of a text under a key that comes after all others:
/// it becomes the last member, whether the object keeps the order of keys or
/// that of insertion.
#[verifier::external_body]
pub(crate) fn insert_text(object: &mut serde_json::Map<String, Value>, key: &str, text: &str)
    requires
        forall|i: int|
            0 <= i < members_of(*old(object)).len() ==> precedes(
                (#[trigger] members_of(*old(object))[i]).0,
                key@,
            ),
    ensures
        members_of(*final(object)) == members_of(*old(object)).push((key@, Some(text@))),
{
    object.insert(key.to_owned(), Value::String(text.to_owned()));
}

/// `serde_json::to_string_pretty` of an object whose members are all texts: one
/// member to a line, and read again it is an object with these members.
#[verifier::external_body]
pub(crate) fn pretty(object: serde_json::Map<String, Value>) -> (text: String)
    requires
        forall|i: int| 0 <= i < members_of(object).len() ==> (#[trigger] members_of(object)[i]).1 is Some,
    ensures
        text@ == object_text(members_of(object)),
        texts_in(text@) == Some(by_key(members_of(object))),
{
    serde_json::to_string_pretty(&Value::Object(object)).unwrap()
}

/// A character is known by how it is written, and nothing that is written for
/// one character begins what is written for another.
proof fn lemma_escaped_char(c: char, d: char, s: Seq<char>, t: Seq<char>)
    requires
        escaped_char(c) + s == escaped_char(d) + t,
    ensures
        c == d,
        s == t,
{
    let x = escaped_char(c) + s;
    let y = escaped_char(d) + t;
    assert(x[0] == escaped_char(c)[0]);
    assert(y[0] == escaped_char(d)[0]);
    if x[0] == '\\' {
        assert(x[1] == escaped_char(c)[1]);
        assert(y[1] == escaped_char(d)[1]);
        if x[1] == 'u' {
            assert(x[4] == escaped_char(c)[4]);
            assert(y[4] == escaped_char(d)[4]);
            assert(x[5] == escaped_char(c)[5]);
            assert(y[5] == escaped_char(d)[5]);
        }
    }
    assert(c == d);
    let n = escaped_char(c).len() as int;
    assert(x.skip(n) =~= s);
    assert(y.skip(n) =~= t);
}

proof fn lemma_escaped_injective(a: Seq<char>, b: Seq<char>)
    requires
        escaped(a) == escaped(b),
    ensures
        a == b,
    decreases a.len(),
{
    if a.len() > 0 {
        assert(escaped_char(a[0]).len() > 0);
        assert(escaped(a).len() > 0);
    }
    if b.len() > 0 {
        assert(escaped_char(b[0]).len() > 0);
        assert(escaped(b).len() > 0);
    }
    assert(a.len() == 0 ==> escaped(a).len() == 0);
    assert(b.len() == 0 ==> escaped(b).len() == 0);
    if a.len() == 0 || b.len() == 0 {
        assert(a =~= b);
    } else {
        lemma_escaped_char(a[0], b[0], escaped(a.skip(1)), escaped(b.skip(1)));
        lemma_escaped_injective(a.skip(1), b.skip(1));
        assert(a =~= seq![a[0]] + a.skip(1));
        assert(b =~= seq![b[0]] + b.skip(1));
    }
}

/// A JSON string stands for one text only.
pub proof fn law_literal_stands_for_one_text(a: Seq<char>, b: Seq<char>)
    requires
        literal(a) == literal(b),
    ensures
        a == b,
{
    let x = literal(a);
    let y = literal(b);
    assert(x.subrange(1, x.len() - 1) =~= escaped(a));
    assert(y.subrange(1, y.len() - 1) =~= escaped(b));
    lemma_escaped_injective(a, b);
}

/// A JSON string holds no line break and no other control character, so that it
/// fits into one line of a script.
pub proof fn law_literal_has_no_control_character(text: Seq<char>, i: int)
    requires
        0 <= i < literal(text).len(),
    ensures
        literal(text)[i] >= ' ',
{
    if 0 < i < literal(text).len() - 1 {
        lemma_escaped_has_no_control_character(text, i - 1);
    }
}

proof fn lemma_escaped_char_is_visible(c: char, i: int)
    requires
        0 <= i < escaped_char(c).len(),
    ensures
        escaped_char(c)[i] >= ' ',
{
    assert(hex_char(c as nat / 16) >= '0' || c as nat / 16 >= 16);
    assert(hex_char(c as nat % 16) >= '0');
}

proof fn lemma_escaped_has_no_control_character(text: Seq<char>, i: int)
    requires
        0 <= i < escaped(text).len(),
    ensures
        escaped(text)[i] >= ' ',
    decreases text.len(),
{
    assert(text.len() == 0 ==> escaped(text).len() == 0);
    assert(text.len() > 0);
    let first = escaped_char(text[0]);
    if i >= first.len() {
        lemma_escaped_has_no_control_character(text.skip(1), i - first.len());
        assert(escaped(text)[i] == escaped(text.skip(1))[i - first.len()]);
    } else {
        assert(escaped(text)[i] == first[i]);
        lemma_escaped_char_is_visible(text[0], i);
    }
}

}
