//! Flat JSON records: an object whose members are null, a string, a
//! non-negative integer, or an object of strings.

use vstd::prelude::*;

verus! {

/// The value of one member of a record.
pub enum JsonField {
    Null,
    Text(String),
    Number(u64),
    /// An object whose members are all strings.
    Dict(Vec<(String, String)>),
}

/// What a `JsonField` holds.
pub enum JsonFieldView {
    Null,
    Text(Seq<char>),
    Number(u64),
    Dict(Seq<(Seq<char>, Seq<char>)>),
}

impl View for JsonField {
    type V = JsonFieldView;

    open spec fn view(&self) -> JsonFieldView {
        match self {
            JsonField::Null => JsonFieldView::Null,
            JsonField::Text(s) => JsonFieldView::Text(s@),
            JsonField::Number(n) => JsonFieldView::Number(*n),
            JsonField::Dict(d) => JsonFieldView::Dict(d.deep_view()),
        }
    }
}

/// A JSON object given by its members in the order in which they were
/// added.
pub struct JsonRecord {
    pub fields: Vec<(String, JsonField)>,
}

impl View for JsonRecord {
    type V = Seq<(Seq<char>, JsonFieldView)>;

    open spec fn view(&self) -> Seq<(Seq<char>, JsonFieldView)> {
        Seq::new(self.fields@.len(), |i: int| (self.fields@[i].0@, self.fields@[i].1@))
    }
}

/// The pretty-printed JSON text, as bytes, of the object with the given
/// members.
pub uninterp spec fn pretty_json(fields: Seq<(Seq<char>, JsonFieldView)>) -> Seq<u8>;

/// The pretty-printed JSON text of a record.
///
/// Trusted: builds the `serde_json::Value` object that has the record's
/// members and hands it to `serde_json::to_vec_pretty`, which cannot fail on
/// such a value. The contract only gives the result its name.
#[verifier::external_body]
fn to_vec_pretty(record: &JsonRecord) -> (bytes: Vec<u8>)
    ensures
        bytes@ == pretty_json(record@),
{
    let text = |s: &String| serde_json::Value::String(s.clone());
    let object: serde_json::Map<String, serde_json::Value> = record.fields.iter().map(
        |(key, field)| {
            let value = match field {
                JsonField::Null => serde_json::Value::Null,
                JsonField::Text(s) => text(s),
                JsonField::Number(n) => serde_json::Value::from(*n),
                JsonField::Dict(d) => d.iter().map(|(k, v)| (k.clone(), text(v))).collect(),
            };
            (key.clone(), value)
        },
    ).collect();
    serde_json::to_vec_pretty(&object).unwrap_or_default()
}

impl JsonRecord {
    /// A record without members.
    pub fn new() -> (r: JsonRecord)
        ensures
            r@ == Seq::<(Seq<char>, JsonFieldView)>::empty(),
    {
        JsonRecord { fields: Vec::new() }
    }

    /// Adds a member at the end.
    pub fn push(&mut self, key: &str, value: JsonField)
        ensures
            final(self)@ == old(self)@.push((key@, value@)),
    {
        self.fields.push((key.to_owned(), value));
    }

    /// The pretty-printed JSON text of the record, as bytes.
    pub fn to_pretty_bytes(&self) -> (bytes: Vec<u8>)
        ensures
            bytes@ == pretty_json(self@),
    {
        to_vec_pretty(self)
    }
}

} // verus!
