use vstd::prelude::*;

use crate::text::str_eq;

verus! {

broadcast use vstd::std_specs::vec::group_vec_axioms;

/// The mathematical shape of a JSON document as this host models it. The
/// capability schemas only ever read counts, sizes and indices, so a number
/// that fits a signed 64-bit integer is held as one; any other number is
/// carried through as its rendered text, never read by the host's own
/// schemas but kept so that full JSON payloads pass through unharmed.
pub enum JsonV {
    Null,
    Bool(bool),
    Int(i64),
    Num(Seq<char>),
    Str(Seq<char>),
    Arr(Seq<JsonV>),
    Obj(Seq<(Seq<char>, JsonV)>),
}

/// An in-memory JSON document. Obj keeps fields in their textual order.
#[derive(Debug)]
pub enum Json {
    Null,
    Bool(bool),
    Int(i64),
    Num(String),
    Str(String),
    Arr(Vec<Json>),
    Obj(Vec<(String, Json)>),
}

impl Json {
    pub open spec fn model(self) -> JsonV
        decreases self,
    {
        match self {
            Json::Null => JsonV::Null,
            Json::Bool(b) => JsonV::Bool(b),
            Json::Int(n) => JsonV::Int(n),
            Json::Num(s) => JsonV::Num(s@),
            Json::Str(s) => JsonV::Str(s@),
            Json::Arr(items) => JsonV::Arr(model_items(items@)),
            Json::Obj(fields) => JsonV::Obj(model_fields(fields@)),
        }
    }
}

pub open spec fn model_items(items: Seq<Json>) -> Seq<JsonV>
    decreases items,
{
    if items.len() <= 0 {
        Seq::empty()
    } else {
        seq![items[0].model()] + model_items(items.drop_first())
    }
}

pub open spec fn model_fields(fields: Seq<(String, Json)>) -> Seq<(Seq<char>, JsonV)>
    decreases fields,
{
    if fields.len() <= 0 {
        Seq::empty()
    } else {
        seq![(fields[0].0@, fields[0].1.model())] + model_fields(fields.drop_first())
    }
}

/// The element-wise model keeps lengths and order.
pub proof fn lemma_model_items_len(items: Seq<Json>)
    ensures
        model_items(items).len() == items.len(),
        forall|i: int| 0 <= i < items.len() ==> model_items(items)[i] == #[trigger] items[i].model(),
    decreases items,
{
    if items.len() > 0 {
        lemma_model_items_len(items.drop_first());
        assert forall|i: int| 0 <= i < items.len() implies model_items(items)[i]
            == #[trigger] items[i].model() by {
            if i > 0 {
                assert(items.drop_first()[i - 1] == items[i]);
                assert(model_items(items)[i] == model_items(items.drop_first())[i - 1]);
            }
        }
    }
}

/// The field-wise model keeps lengths, order, and names.
pub proof fn lemma_model_fields_len(fields: Seq<(String, Json)>)
    ensures
        model_fields(fields).len() == fields.len(),
        forall|i: int| 0 <= i < fields.len() ==> model_fields(fields)[i]
            == (#[trigger] fields[i].0@, fields[i].1.model()),
    decreases fields,
{
    if fields.len() > 0 {
        lemma_model_fields_len(fields.drop_first());
        assert forall|i: int| 0 <= i < fields.len() implies model_fields(fields)[i]
            == (#[trigger] fields[i].0@, fields[i].1.model()) by {
            if i > 0 {
                assert(fields.drop_first()[i - 1] == fields[i]);
                assert(model_fields(fields)[i] == model_fields(fields.drop_first())[i - 1]);
            }
        }
    }
}

impl View for Json {
    type V = JsonV;

    open spec fn view(&self) -> JsonV {
        self.model()
    }
}

#[verifier::external_type_specification]
#[verifier::external_body]
pub struct ExValue(serde_json::Value);

/// What serde_json makes of a JSON text: `None` exactly where the text is
/// not JSON. A field a schema does not read never affects parsing.
pub uninterp spec fn json_of(s: Seq<char>) -> Option<JsonV>;

/// Relies on serde_json::Value and Number: one variant of the parsed
/// document mapped to one variant of ours; a number outside i64 is carried
/// as the text serde_json renders it to.
#[verifier::external_body]
fn value_to_json(v: &serde_json::Value) -> (r: Json) {
    match v {
        serde_json::Value::Null => Json::Null,
        serde_json::Value::Bool(b) => Json::Bool(*b),
        serde_json::Value::Number(n) => match n.as_i64() {
            Some(i) => Json::Int(i),
            None => Json::Num(n.to_string()),
        },
        serde_json::Value::String(s) => Json::Str(s.clone()),
        serde_json::Value::Array(xs) => Json::Arr(xs.iter().map(value_to_json).collect()),
        serde_json::Value::Object(m) => Json::Obj(
            m.iter().map(|(k, x)| (k.clone(), value_to_json(x))).collect(),
        ),
    }
}

/// Relies on serde_json::from_str: whether a text parses as JSON, and to
/// which document, depends on the text alone, and parsing fails exactly on
/// text that is not JSON. A parsed document's fields are already in
/// serde_json's canonical (sorted, deduplicated) order and its numbers in
/// canonical rendering, so rendering the document and parsing the rendering
/// yields the same document.
#[verifier::external_body]
pub fn parse_json(s: &str) -> (r: Option<Json>)
    ensures
        match r {
            Some(j) => json_of(s@) == Some(j@) && json_of(json_text_of(j@)) == Some(j@),
            None => json_of(s@) is None,
        },
{
    match serde_json::from_str::<serde_json::Value>(s) {
        Ok(v) => Some(value_to_json(&v)),
        Err(_) => None,
    }
}

/// Relies on serde_json::Value and Number: one variant of our document
/// mapped to one variant of serde_json's; a carried number text is parsed
/// back into a number, or rendered as null where it is not one.
#[verifier::external_body]
fn json_to_value(j: &Json) -> serde_json::Value {
    match j {
        Json::Null => serde_json::Value::Null,
        Json::Bool(b) => serde_json::Value::Bool(*b),
        Json::Int(n) => serde_json::Value::from(*n),
        Json::Num(s) => match serde_json::from_str::<serde_json::Number>(s) {
            Ok(n) => serde_json::Value::Number(n),
            Err(_) => serde_json::Value::Null,
        },
        Json::Str(s) => serde_json::Value::String(s.clone()),
        Json::Arr(items) => serde_json::Value::Array(items.iter().map(json_to_value).collect()),
        Json::Obj(fields) => serde_json::Value::Object(
            fields.iter().map(|(k, x)| (k.clone(), json_to_value(x))).collect(),
        ),
    }
}

/// What serde_json renders a document to.
pub uninterp spec fn json_text_of(j: JsonV) -> Seq<char>;

/// Relies on serde_json::Value::to_string: the rendered text depends on the
/// document alone.
#[verifier::external_body]
pub fn json_to_text(j: &Json) -> (r: String)
    ensures
        r@ == json_text_of(j@),
{
    json_to_value(j).to_string()
}

/// Looks up the first field named `key` in an object's field list.
pub open spec fn spec_obj_get(fields: Seq<(Seq<char>, JsonV)>, key: Seq<char>) -> Option<JsonV>
    decreases fields.len(),
{
    if fields.len() == 0 {
        Option::None
    } else if fields[0].0 == key {
        Option::Some(fields[0].1)
    } else {
        spec_obj_get(fields.drop_first(), key)
    }
}

/// Skipping a prefix of fields none of which is named `key` leaves the
/// lookup's result unchanged.
pub proof fn lemma_obj_get_prefix(fields: Seq<(Seq<char>, JsonV)>, key: Seq<char>, i: int)
    requires
        0 <= i <= fields.len(),
        forall|k: int| 0 <= k < i ==> (#[trigger] fields[k]).0 != key,
    ensures
        spec_obj_get(fields, key) == spec_obj_get(fields.subrange(i, fields.len() as int), key),
    decreases i,
{
    if i > 0 {
        assert(fields[0].0 != key);
        let rest = fields.drop_first();
        assert forall|k: int| 0 <= k < i - 1 implies (#[trigger] rest[k]).0 != key by {
            assert(rest[k] == fields[k + 1]);
        }
        lemma_obj_get_prefix(rest, key, i - 1);
        assert(rest.subrange(i - 1, rest.len() as int) =~= fields.subrange(
            i,
            fields.len() as int,
        ));
    } else {
        assert(fields.subrange(0, fields.len() as int) =~= fields);
    }
}

/// The field list of an object document, or `None` for any other document.
pub fn obj_fields<'a>(j: &'a Json) -> (r: Option<&'a Vec<(String, Json)>>)
    ensures
        match r {
            Some(fields) => j@ == JsonV::Obj(model_fields(fields@)),
            None => !(j@ matches JsonV::Obj(_)),
        },
{
    match j {
        Json::Obj(fields) => Some(fields),
        _ => None,
    }
}

/// The first field named `key`, by the same rule as `spec_obj_get`.
pub fn obj_get<'a>(fields: &'a Vec<(String, Json)>, key: &str) -> (r: Option<&'a Json>)
    ensures
        match r {
            Some(j) => spec_obj_get(model_fields(fields@), key@) == Some(j@),
            None => spec_obj_get(model_fields(fields@), key@) is None,
        },
{
    let ghost m = model_fields(fields@);
    proof {
        lemma_model_fields_len(fields@);
    }
    let mut i: usize = 0;
    while i < fields.len()
        invariant
            0 <= i <= fields.len(),
            m == model_fields(fields@),
            m.len() == fields@.len(),
            forall|k: int| 0 <= k < fields@.len() ==> #[trigger] m[k]
                == (fields@[k].0@, fields@[k].1.model()),
            forall|k: int| 0 <= k < i ==> (#[trigger] m[k]).0 != key@,
        decreases fields.len() - i,
    {
        if str_eq(fields[i].0.as_str(), key) {
            proof {
                lemma_obj_get_prefix(m, key@, i as int);
                assert(m.subrange(i as int, m.len() as int)[0] == m[i as int]);
            }
            return Some(&fields[i].1);
        }
        i = i + 1;
    }
    proof {
        lemma_obj_get_prefix(m, key@, i as int);
        assert(m.subrange(i as int, m.len() as int).len() == 0);
    }
    None
}

} // verus!
