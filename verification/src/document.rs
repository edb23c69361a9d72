//! The model of a parsed JSON document, as the dictionary reply is read, and
//! the parsing of a reply's text with the `json` crate.
//!
//! Lookups follow the JSON crate that parses the reply: a missing key, an
//! index past the end, or a lookup on a value of the wrong kind gives `Null`;
//! `members` of anything but an array is empty; the text of anything but a
//! string is empty.

use vstd::prelude::*;

verus! {

/// One `key: value` pair of a JSON object.
pub struct JsonMember {
    pub key: String,
    pub value: JsonNode,
}

/// A JSON value. Numbers are kept as the parser stores them: a sign, a
/// mantissa and a decimal exponent.
pub enum JsonNode {
    Null,
    Boolean(bool),
    Number { positive: bool, mantissa: u64, exponent: i16 },
    Str(String),
    Array(Vec<JsonNode>),
    Object(Vec<JsonMember>),
}

/// The value stored under `key` among `members`: the first pair with that key,
/// or `Null` when there is none.
pub open spec fn member_lookup(members: Seq<JsonMember>, key: Seq<char>) -> JsonNode
    decreases members.len(),
{
    if members.len() == 0 {
        JsonNode::Null
    } else if members[0].key@ == key {
        members[0].value
    } else {
        member_lookup(members.drop_first(), key)
    }
}

/// `v[key]`: the value under `key` when `v` is an object, else `Null`.
pub open spec fn spec_field(v: JsonNode, key: Seq<char>) -> JsonNode {
    match v {
        JsonNode::Object(m) => member_lookup(m@, key),
        _ => JsonNode::Null,
    }
}

/// `v[i]`: element `i` when `v` is an array that long, else `Null`.
pub open spec fn spec_element(v: JsonNode, i: int) -> JsonNode {
    match v {
        JsonNode::Array(a) => if 0 <= i < a@.len() {
            a@[i]
        } else {
            JsonNode::Null
        },
        _ => JsonNode::Null,
    }
}

/// The members of `v` when it is an array, else nothing.
pub open spec fn spec_members(v: JsonNode) -> Seq<JsonNode> {
    match v {
        JsonNode::Array(a) => a@,
        _ => Seq::empty(),
    }
}

/// The text of `v` when it is a string, else the empty text.
pub open spec fn spec_text(v: JsonNode) -> Seq<char> {
    match v {
        JsonNode::Str(s) => s@,
        _ => Seq::empty(),
    }
}

/// The `json` crate's parsed document, carried through as it is.
#[verifier::external_type_specification]
#[verifier::external_body]
pub struct ExJsonDocument(json::JsonValue);

/// What `json::parse` gives for a text: the document, copied one value for
/// one into a [`JsonNode`], or the message of its error.
pub uninterp spec fn json_document(text: Seq<char>) -> Result<JsonNode, Seq<char>>;

/// Copies a document of the `json` crate into a [`JsonNode`], variant for
/// variant: both kinds of string become `Str`, a number keeps its sign,
/// mantissa and exponent, an object keeps its pairs in the crate's order.
/// Nothing is stated of it; [`parse_json`] states what the pair of calls
/// gives.
#[verifier::external_body]
fn from_json(v: &json::JsonValue) -> JsonNode {
    match v {
        json::JsonValue::Null => JsonNode::Null,
        json::JsonValue::Short(s) => JsonNode::Str(s.as_str().to_string()),
        json::JsonValue::String(s) => JsonNode::Str(s.clone()),
        json::JsonValue::Number(n) => {
            let (positive, mantissa, exponent) = n.as_parts();
            JsonNode::Number { positive, mantissa, exponent }
        },
        json::JsonValue::Boolean(b) => JsonNode::Boolean(*b),
        json::JsonValue::Object(o) => JsonNode::Object(
            o.iter().map(|(k, v)| JsonMember { key: k.to_string(), value: from_json(v) }).collect(),
        ),
        json::JsonValue::Array(a) => JsonNode::Array(a.iter().map(from_json).collect()),
    }
}

/// Calls `json::parse` on `text`, and copies the document it returns into a
/// [`JsonNode`] (or takes the `Display` text of its error). The parse depends
/// on the text alone, so the contract names its result, `json_document`, and
/// claims the result is that name applied to `text`; what the JSON grammar
/// accepts is not written out.
#[verifier::external_body]
pub(crate) fn parse_json(text: &str) -> (doc: Result<JsonNode, String>)
    ensures
        match doc {
            Ok(v) => json_document(text@) == Ok::<JsonNode, Seq<char>>(v),
            Err(e) => json_document(text@) == Err::<JsonNode, Seq<char>>(e@),
        },
{
    match json::parse(text) {
        Ok(v) => Ok(from_json(&v)),
        Err(e) => Err(e.to_string()),
    }
}

/// The value that an optional reference stands for: `None` is `Null`.
pub open spec fn or_null(v: Option<&JsonNode>) -> JsonNode {
    match v {
        Some(x) => *x,
        None => JsonNode::Null,
    }
}

/// Looks `key` up in `v`; `None` stands for `Null`.
pub fn field<'a>(v: Option<&'a JsonNode>, key: &str) -> (r: Option<&'a JsonNode>)
    ensures
        or_null(r) == spec_field(or_null(v), key@),
{
    match v {
        Some(JsonNode::Object(members)) => {
            let wanted = key.to_owned();
            let n = members.len();
            let mut i: usize = 0;
            assert(members@.skip(0) == members@);
            while i < n
                invariant
                    n == members@.len(),
                    0 <= i <= n,
                    wanted@ == key@,
                    spec_field(or_null(v), key@) == member_lookup(members@, key@),
                    member_lookup(members@, key@) == member_lookup(members@.skip(i as int), key@),
                decreases n - i,
            {
                assert(members@.skip(i as int).drop_first() == members@.skip(i + 1));
                if members[i].key == wanted {
                    let ghost rest = members@.skip(i as int);
                    assert(rest.len() > 0 && rest[0] == members@[i as int]);
                    assert(member_lookup(rest, key@) == members@[i as int].value);
                    return Some(&members[i].value);
                }
                i = i + 1;
            }
            None
        },
        _ => None,
    }
}

/// Element `i` of `v`; `None` stands for `Null`.
pub fn element<'a>(v: Option<&'a JsonNode>, i: usize) -> (r: Option<&'a JsonNode>)
    ensures
        or_null(r) == spec_element(or_null(v), i as int),
{
    match v {
        Some(JsonNode::Array(items)) => {
            if i < items.len() {
                Some(&items[i])
            } else {
                None
            }
        },
        _ => None,
    }
}

/// The members of `v` when it is an array, else an empty slice.
pub fn members<'a>(v: Option<&'a JsonNode>) -> (r: &'a [JsonNode])
    ensures
        r@ == spec_members(or_null(v)),
{
    match v {
        Some(JsonNode::Array(items)) => items.as_slice(),
        _ => &[],
    }
}

/// The text of `v` when it is a string, else the empty text.
pub fn text<'a>(v: Option<&'a JsonNode>) -> (r: &'a str)
    ensures
        r@ == spec_text(or_null(v)),
{
    match v {
        Some(JsonNode::Str(s)) => s.as_str(),
        _ => {
            proof {
                reveal_strlit("");
            }
            ""
        },
    }
}

/// Looking a key up in an object gives the value of the first pair with that
/// key; with no such pair, `Null`.
pub proof fn lookup_finds_the_first_pair(members: Seq<JsonMember>, key: Seq<char>, j: int)
    ensures
        (0 <= j < members.len() && members[j].key@ == key && forall|i: int|
            0 <= i < j ==> (#[trigger] members[i]).key@ != key) ==> member_lookup(members, key)
            == members[j].value,
        (forall|i: int| 0 <= i < members.len() ==> (#[trigger] members[i]).key@ != key) ==> member_lookup(
            members,
            key,
        ) == JsonNode::Null,
    decreases members.len(),
{
    if members.len() > 0 {
        let rest = members.drop_first();
        lookup_finds_the_first_pair(rest, key, j - 1);
        if (forall|i: int| 0 <= i < members.len() ==> (#[trigger] members[i]).key@ != key) {
            assert(members[0].key@ != key);
            assert forall|i: int| 0 <= i < rest.len() implies (#[trigger] rest[i]).key@ != key by {
                assert(rest[i] == members[i + 1]);
            }
        }
        if 0 < j < members.len() && members[j].key@ == key && forall|i: int|
            0 <= i < j ==> (#[trigger] members[i]).key@ != key {
            assert(members[0].key@ != key);
            assert(rest[j - 1] == members[j]);
            assert forall|i: int| 0 <= i < j - 1 implies (#[trigger] rest[i]).key@ != key by {
                assert(rest[i] == members[i + 1]);
            }
        }
    }
}

} // verus!
