//! JSON values, held as `serde_json::Value` and stated over their content.
use crate::text::text_eq;
use serde_json::Value;
use vstd::prelude::*;

verus! {

/// The content of a JSON value. A number that is no integer of 64 bits is told
/// by the numeral that it is printed as.
pub enum Json {
    Null,
    Bool(bool),
    Int(int),
    Float(Seq<char>),
    Text(Seq<char>),
    List(Seq<Json>),
    Fields(Map<Seq<char>, Json>),
}

/// `serde_json::Value`, a JSON document in memory.
#[verifier::external_type_specification]
#[verifier::external_body]
pub struct ExValue(serde_json::Value);

/// `serde_json::Error`, why a text is no JSON document.
#[verifier::external_type_specification]
#[verifier::external_body]
pub struct ExJsonError(serde_json::Error);

/// What a JSON value holds.
pub uninterp spec fn of(value: serde_json::Value) -> Json;

/// The compact text that a JSON value prints as.
pub uninterp spec fn json_text(content: Json) -> Seq<char>;

/// What comes of reading a text: the content of the document, or the words of
/// the error that refuses it.
pub enum Reading {
    Document(Json),
    Refused(Seq<char>),
}

/// What a text reads as.
pub uninterp spec fn json_read(text: Seq<char>) -> Reading;

/// The contents of a list of values.
pub open spec fn all(values: Seq<Value>) -> Seq<Json> {
    values.map_values(|v: Value| of(v))
}

/// The object that holds the given fields.
pub open spec fn fields_of(pairs: Seq<(Seq<char>, Json)>) -> Map<Seq<char>, Json>
    decreases pairs.len(),
{
    if pairs.len() == 0 {
        Map::empty()
    } else {
        fields_of(pairs.drop_last()).insert(pairs.last().0, pairs.last().1)
    }
}

/// Whether no two fields have one name.
pub open spec fn distinct_names(pairs: Seq<(Seq<char>, Json)>) -> bool {
    forall|i: int, j: int|
        0 <= i < j < pairs.len() ==> (#[trigger] pairs[i]).0 != (#[trigger] pairs[j]).0
}

/// The named contents of a list of fields.
pub open spec fn pairs_of(fields: Seq<(String, Value)>) -> Seq<(Seq<char>, Json)> {
    fields.map_values(|f: (String, Value)| (f.0@, of(f.1)))
}

/// The field of an object under a name.
pub open spec fn field(content: Json, name: Seq<char>) -> Option<Json> {
    match content {
        Json::Fields(fields) => if fields.contains_key(name) {
            Some(fields[name])
        } else {
            None
        },
        _ => None,
    }
}

/// The text that a value is, if it is one.
pub open spec fn text_in(content: Json) -> Option<Seq<char>> {
    match content {
        Json::Text(text) => Some(text),
        _ => None,
    }
}

/// The text field of an object under a name.
pub open spec fn text_field(content: Json, name: Seq<char>) -> Option<Seq<char>> {
    match field(content, name) {
        Some(value) => text_in(value),
        None => None,
    }
}

/// The truth value of an object under a name.
pub open spec fn bool_field(content: Json, name: Seq<char>) -> Option<bool> {
    match field(content, name) {
        Some(Json::Bool(b)) => Some(b),
        _ => None,
    }
}

/// The natural number of 64 bits that an object holds under a name.
pub open spec fn u64_field(content: Json, name: Seq<char>) -> Option<int> {
    match field(content, name) {
        Some(Json::Int(n)) => if 0 <= n <= u64::MAX {
            Some(n)
        } else {
            None
        },
        _ => None,
    }
}

// ---------------------------------------------------------------------------
// Calls into `serde_json`

/// `Value::clone` keeps the content.
#[verifier::external_body]
pub(crate) fn copy_of(value: &Value) -> (r: Value)
    ensures
        of(r) == of(*value),
{
    value.clone()
}

/// `Value::get` with a name: the field of that name where the value is an
/// object that has one.
#[verifier::external_body]
fn get<'a>(value: &'a Value, name: &str) -> (r: Option<&'a Value>)
    ensures
        r is Some <==> field(of(*value), name@) is Some,
        r matches Some(found) ==> field(of(*value), name@) == Some(of(*found)),
{
    value.get(name)
}

/// `Value::as_str`: the text where the value is one.
#[verifier::external_body]
fn as_text(value: &Value) -> (r: Option<String>)
    ensures
        r is Some <==> text_in(of(*value)) is Some,
        r matches Some(text) ==> text_in(of(*value)) == Some(text@),
{
    value.as_str().map(|text| text.to_string())
}

/// `Value::as_bool`: the truth value where the value is one.
#[verifier::external_body]
fn as_bool(value: &Value) -> (r: Option<bool>)
    ensures
        r == (match of(*value) {
            Json::Bool(b) => Some(b),
            _ => None,
        }),
{
    value.as_bool()
}

/// `Value::as_u64`: the number where the value is an integer from 0 to
/// `u64::MAX`.
#[verifier::external_body]
fn as_u64(value: &Value) -> (r: Option<u64>)
    ensures
        r == (match of(*value) {
            Json::Int(n) => if 0 <= n <= u64::MAX {
                Some(n as u64)
            } else {
                None
            },
            _ => None,
        }),
{
    value.as_u64()
}

/// `Value::Null`.
#[verifier::external_body]
pub(crate) fn null_value() -> (r: Value)
    ensures
        of(r) == Json::Null,
{
    Value::Null
}

/// `Value::Bool`.
#[verifier::external_body]
pub(crate) fn bool_value(b: bool) -> (r: Value)
    ensures
        of(r) == Json::Bool(b),
{
    Value::Bool(b)
}

/// `Value::from` an integer.
#[verifier::external_body]
pub(crate) fn int_value(n: i64) -> (r: Value)
    ensures
        of(r) == Json::Int(n as int),
{
    Value::from(n)
}

/// `Value::from` a natural number.
#[verifier::external_body]
pub(crate) fn u64_value(n: u64) -> (r: Value)
    ensures
        of(r) == Json::Int(n as int),
{
    Value::from(n)
}

/// `Value::String`.
#[verifier::external_body]
pub(crate) fn text_value(text: String) -> (r: Value)
    ensures
        of(r) == Json::Text(text@),
{
    Value::String(text)
}

/// `Value::Array`.
#[verifier::external_body]
pub(crate) fn list_value(values: Vec<Value>) -> (r: Value)
    ensures
        of(r) == Json::List(all(values@)),
{
    Value::Array(values)
}

/// `Value::Object` of a `serde_json::Map` collected from its fields, no two of
/// which have one name: the map holds each of them and nothing else.
#[verifier::external_body]
fn object_value(fields: Vec<(String, Value)>) -> (r: Value)
    requires
        distinct_names(pairs_of(fields@)),
    ensures
        of(r) == Json::Fields(fields_of(pairs_of(fields@))),
{
    Value::Object(fields.into_iter().collect())
}

/// `Value::to_string`: the compact text, which depends on the content alone.
#[verifier::external_body]
pub(crate) fn value_text(value: &Value) -> (r: String)
    ensures
        r@ == json_text(of(*value)),
{
    value.to_string()
}

/// `serde_json::from_str` into a `Value`, which depends on the text alone.
#[verifier::external_body]
fn read_value(text: &str) -> (r: Result<Value, serde_json::Error>)
    ensures
        r matches Ok(value) ==> json_read(text@) == Reading::Document(of(value)),
        r matches Err(error) ==> json_read(text@) == Reading::Refused(error_words(error)),
{
    serde_json::from_str(text)
}

/// The words that a `serde_json::Error` prints as.
pub uninterp spec fn error_words(error: serde_json::Error) -> Seq<char>;

/// `serde_json::Error::to_string`.
#[verifier::external_body]
fn words_of(error: serde_json::Error) -> (r: String)
    ensures
        r@ == error_words(error),
{
    error.to_string()
}

// ---------------------------------------------------------------------------
// Reading

/// The document that a text holds, or the words of the refusal.
pub fn parse(text: &str) -> (r: Result<Value, String>)
    ensures
        r is Ok <==> json_read(text@) is Document,
        r matches Ok(value) ==> json_read(text@) == Reading::Document(of(value)),
        r matches Err(words) ==> json_read(text@) == Reading::Refused(words@),
{
    match read_value(text) {
        Ok(value) => Ok(value),
        Err(error) => Err(words_of(error)),
    }
}

/// The text field of `value` under `name`.
pub fn get_text(value: &Value, name: &str) -> (r: Option<String>)
    ensures
        r is Some <==> text_field(of(*value), name@) is Some,
        r matches Some(text) ==> text_field(of(*value), name@) == Some(text@),
{
    match get(value, name) {
        Some(found) => as_text(found),
        None => None,
    }
}

/// The truth value of `value` under `name`.
pub fn get_bool(value: &Value, name: &str) -> (r: Option<bool>)
    ensures
        r == bool_field(of(*value), name@),
{
    match get(value, name) {
        Some(found) => as_bool(found),
        None => None,
    }
}

/// The natural number of `value` under `name`.
pub fn get_u64(value: &Value, name: &str) -> (r: Option<u64>)
    ensures
        r is Some <==> u64_field(of(*value), name@) is Some,
        r matches Some(n) ==> u64_field(of(*value), name@) == Some(n as int),
{
    match get(value, name) {
        Some(found) => as_u64(found),
        None => None,
    }
}

// ---------------------------------------------------------------------------
// Building

/// An object under construction. It has one field of each name.
pub struct Fields {
    fields: Vec<(String, Value)>,
}

/// An object has the fields that it was made of, and no others.
proof fn lemma_fields_of(pairs: Seq<(Seq<char>, Json)>)
    requires
        distinct_names(pairs),
    ensures
        forall|name: Seq<char>| #[trigger]
            fields_of(pairs).contains_key(name) ==> exists|i: int|
                0 <= i < pairs.len() && (#[trigger] pairs[i]).0 == name,
        forall|i: int|
            0 <= i < pairs.len() ==> fields_of(pairs).contains_key((#[trigger] pairs[i]).0)
                && fields_of(pairs)[pairs[i].0] == pairs[i].1,
    decreases pairs.len(),
{
    if pairs.len() > 0 {
        let rest = pairs.drop_last();
        lemma_fields_of(rest);
        assert forall|name: Seq<char>| #[trigger]
            fields_of(pairs).contains_key(name) implies exists|i: int|
            0 <= i < pairs.len() && (#[trigger] pairs[i]).0 == name by {
            if name == pairs.last().0 {
                assert(pairs[pairs.len() - 1].0 == name);
            } else {
                assert(fields_of(rest).contains_key(name));
                let i = choose|i: int| 0 <= i < rest.len() && (#[trigger] rest[i]).0 == name;
                assert(pairs[i].0 == name);
            }
        }
        assert forall|i: int| 0 <= i < pairs.len() implies fields_of(pairs).contains_key(
            (#[trigger] pairs[i]).0,
        ) && fields_of(pairs)[pairs[i].0] == pairs[i].1 by {
            if i < pairs.len() - 1 {
                assert(rest[i] == pairs[i]);
                assert(pairs[i].0 != pairs[pairs.len() - 1].0);
            }
        }
    }
}

/// Replacing the field of a name replaces what the object holds under it.
proof fn lemma_field_replaced(pairs: Seq<(Seq<char>, Json)>, i: int, value: Json)
    requires
        distinct_names(pairs),
        0 <= i < pairs.len(),
    ensures
        distinct_names(pairs.update(i, (pairs[i].0, value))),
        fields_of(pairs.update(i, (pairs[i].0, value))) == fields_of(pairs).insert(
            pairs[i].0,
            value,
        ),
{
    let after = pairs.update(i, (pairs[i].0, value));
    assert(distinct_names(after));
    lemma_fields_of(pairs);
    lemma_fields_of(after);
    let object = fields_of(after);
    let wanted = fields_of(pairs).insert(pairs[i].0, value);
    assert forall|name: Seq<char>| object.contains_key(name) == wanted.contains_key(name) by {
        if object.contains_key(name) {
            let k = choose|k: int| 0 <= k < after.len() && (#[trigger] after[k]).0 == name;
            assert(pairs[k].0 == name);
        }
        if wanted.contains_key(name) && name != pairs[i].0 {
            let k = choose|k: int| 0 <= k < pairs.len() && (#[trigger] pairs[k]).0 == name;
            assert(after[k].0 == name);
        }
        assert(after[i].0 == pairs[i].0);
    }
    assert forall|name: Seq<char>| object.contains_key(name) implies object[name]
        == wanted[name] by {
        let k = choose|k: int| 0 <= k < after.len() && (#[trigger] after[k]).0 == name;
        assert(pairs[k].0 == name);
    }
    assert(object =~= wanted);
}

impl Fields {
    #[verifier::type_invariant]
    spec fn named_once(&self) -> bool {
        distinct_names(pairs_of(self.fields@))
    }

    /// The object so far.
    pub closed spec fn content(&self) -> Map<Seq<char>, Json> {
        fields_of(pairs_of(self.fields@))
    }

    pub fn new() -> (r: Self)
        ensures
            r.content() == Map::<Seq<char>, Json>::empty(),
    {
        Fields { fields: Vec::new() }
    }

    /// Sets a field, in place of an earlier one of that name.
    pub fn with(self, name: &str, value: Value) -> (r: Self)
        ensures
            r.content() == self.content().insert(name@, of(value)),
    {
        proof {
            use_type_invariant(&self);
        }
        let mut fields = self.fields;
        let ghost before = pairs_of(fields@);
        let mut i: usize = 0;
        while i < fields.len()
            invariant
                i <= fields@.len(),
                before == pairs_of(fields@),
                forall|k: int| 0 <= k < i ==> (#[trigger] before[k]).0 != name@,
            ensures
                i < fields@.len() ==> before[i as int].0 == name@,
                i == fields@.len() ==> forall|k: int|
                    0 <= k < before.len() ==> (#[trigger] before[k]).0 != name@,
            decreases fields@.len() - i,
        {
            if text_eq(fields[i].0.as_str(), name) {
                break;
            }
            i = i + 1;
        }
        if i < fields.len() {
            proof {
                lemma_field_replaced(before, i as int, of(value));
            }
            fields.set(i, (name.to_string(), value));
            assert(pairs_of(fields@) =~= before.update(
                i as int,
                (before[i as int].0, of(value)),
            ));
        } else {
            fields.push((name.to_string(), value));
            assert(pairs_of(fields@) =~= before.push((name@, of(value))));
            assert(pairs_of(fields@).drop_last() =~= before);
        }
        Fields { fields }
    }

    /// Sets a text field.
    pub fn with_text(self, name: &str, text: &str) -> (r: Self)
        ensures
            r.content() == self.content().insert(name@, Json::Text(text@)),
    {
        self.with(name, text_value(text.to_string()))
    }

    /// Sets a truth value.
    pub fn with_bool(self, name: &str, b: bool) -> (r: Self)
        ensures
            r.content() == self.content().insert(name@, Json::Bool(b)),
    {
        self.with(name, bool_value(b))
    }

    /// The finished object.
    pub fn value(self) -> (r: Value)
        ensures
            of(r) == Json::Fields(self.content()),
    {
        proof {
            use_type_invariant(&self);
        }
        object_value(self.fields)
    }
}

/// A list of texts.
pub fn text_list(texts: &Vec<String>) -> (r: Value)
    ensures
        of(r) == Json::List(texts@.map_values(|t: String| Json::Text(t@))),
{
    let mut values: Vec<Value> = Vec::new();
    let mut i: usize = 0;
    while i < texts.len()
        invariant
            i <= texts@.len(),
            all(values@) =~= texts@.take(i as int).map_values(|t: String| Json::Text(t@)),
        decreases texts@.len() - i,
    {
        let value = text_value(texts[i].clone());
        let ghost before = values@;
        values.push(value);
        assert(all(values@) =~= all(before).push(of(value)));
        assert(texts@.take(i + 1) =~= texts@.take(i as int).push(texts@[i as int]));
        i = i + 1;
    }
    assert(texts@.take(i as int) =~= texts@);
    list_value(values)
}

} // verus!
