//! JSON documents as the inference rules read them.
//!
//! A document keeps the members of a top-level object and the compact
//! serialization of the whole value. Of a member the rules read whether it
//! is a boolean, a number or a text, and which; nested values are not
//! looked into.

use serde_json::Value;
use vstd::prelude::*;
use crate::text::{chars_of, same_text};

verus! {

/// A member value. A number holds its decimal text; arrays and objects hold
/// nothing.
#[derive(Debug, Clone, PartialEq, Eq)]
pub enum JsonValue {
    Null,
    Bool(bool),
    Number(String),
    Text(String),
    Array,
    Object,
}

/// A named member of the top-level object.
#[derive(Debug, Clone, PartialEq, Eq)]
pub struct JsonField {
    pub name: String,
    pub value: JsonValue,
}

/// A parsed JSON value. `fields` is empty unless the value is an object.
#[derive(Debug, Clone, PartialEq, Eq)]
pub struct JsonDocument {
    pub fields: Vec<JsonField>,
    pub rendered: String,
}

/// The document that `serde_json` reads from a text, if it is JSON.
pub uninterp spec fn json_document(text: Seq<char>) -> Option<JsonDocument>;

/// Calls `serde_json::from_str` for a `serde_json::Value` and copies out the
/// top-level members and `Value::to_string`. Whether the text parses and what
/// it parses to depend on the text alone.
#[verifier::external_body]
pub(crate) fn parse_json(text: &str) -> (out: Option<JsonDocument>)
    ensures
        out == json_document(text@),
{
    let value: Value = serde_json::from_str(text).ok()?;
    let (rendered, mut fields) = (value.to_string(), Vec::new());
    if let Value::Object(members) = value {
        for (name, member) in members {
            fields.push(JsonField { name, value: match member {
                Value::Null => JsonValue::Null,
                Value::Bool(b) => JsonValue::Bool(b),
                Value::Number(n) => JsonValue::Number(n.to_string()),
                Value::String(s) => JsonValue::Text(s),
                Value::Array(_) => JsonValue::Array,
                Value::Object(_) => JsonValue::Object,
            } });
        }
    }
    Some(JsonDocument { fields, rendered })
}

/// The value of the first member called `name`.
pub open spec fn lookup(fields: Seq<JsonField>, name: Seq<char>) -> Option<JsonValue>
    decreases fields.len(),
{
    if fields.len() == 0 {
        None
    } else if fields[0].name@ == name {
        Some(fields[0].value)
    } else {
        lookup(fields.skip(1), name)
    }
}

/// The value of the first of `names`, in their order, that the document has
/// a member for.
pub open spec fn first_present(fields: Seq<JsonField>, names: Seq<&'static str>) -> Option<
    JsonValue,
>
    decreases names.len(),
{
    if names.len() == 0 {
        None
    } else {
        match lookup(fields, names[0]@) {
            Some(v) => Some(v),
            None => first_present(fields, names.skip(1)),
        }
    }
}

impl JsonDocument {
    /// The member called `name`, if the document is an object that has one.
    pub fn get(&self, name: &str) -> (out: Option<&JsonValue>)
        ensures
            out == match lookup(self.fields@, name@) {
                Some(v) => Some(&v),
                None => None,
            },
    {
        let wanted = chars_of(name);
        let mut i: usize = 0;
        assert(self.fields@.skip(0) =~= self.fields@);
        while i < self.fields.len()
            invariant
                i <= self.fields.len(),
                wanted@ == name@,
                lookup(self.fields@, name@) == lookup(self.fields@.skip(i as int), name@),
            decreases self.fields.len() - i,
        {
            let have = chars_of(self.fields[i].name.as_str());
            if same_text(have.as_slice(), wanted.as_slice()) {
                return Some(&self.fields[i].value);
            }
            assert(self.fields@.skip(i as int).skip(1) =~= self.fields@.skip(i + 1));
            i += 1;
        }
        None
    }

    /// The first of `names` that the document has a member for.
    pub fn get_first(&self, names: &[&'static str]) -> (out: Option<&JsonValue>)
        ensures
            out == match first_present(self.fields@, names@) {
                Some(v) => Some(&v),
                None => None,
            },
    {
        let mut i: usize = 0;
        assert(names@.skip(0) =~= names@);
        while i < names.len()
            invariant
                i <= names.len(),
                first_present(self.fields@, names@) == first_present(
                    self.fields@,
                    names@.skip(i as int),
                ),
            decreases names.len() - i,
        {
            let found = self.get(names[i]);
            if found.is_some() {
                return found;
            }
            assert(names@.skip(i as int).skip(1) =~= names@.skip(i + 1));
            i += 1;
        }
        None
    }
}

} // verus!
