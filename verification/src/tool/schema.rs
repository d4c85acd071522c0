//! The JSON Schemas of the tools' inputs.

use vstd::prelude::*;
use crate::json::{no_fields, set_field, Json, JsonModel};
use crate::text;

verus! {

/// The schema of a value of the type `kind`.
pub open spec fn value_schema(kind: Seq<char>) -> JsonModel {
    JsonModel::Object(Map::empty().insert("type"@, JsonModel::Str(kind)))
}

/// The schema of a value of the type `kind` with a description.
pub open spec fn described_schema(kind: Seq<char>, description: Seq<char>) -> JsonModel {
    JsonModel::Object(
        Map::empty().insert("type"@, JsonModel::Str(kind)).insert("description"@, JsonModel::Str(description)),
    )
}

/// The schema of an object with these properties, of which the `required` ones
/// must be there.
pub open spec fn object_schema(properties: Map<Seq<char>, JsonModel>, required: Seq<Seq<char>>) -> JsonModel {
    JsonModel::Object(
        Map::empty().insert("type"@, JsonModel::Str("object"@)).insert(
            "properties"@,
            JsonModel::Object(properties),
        ).insert("required"@, JsonModel::Array(required.map_values(|name: Seq<char>| JsonModel::Str(name)))),
    )
}

/// The schema of a value of the type `kind`.
pub fn value(kind: &str) -> (r: Json)
    ensures
        r.model() == value_schema(kind@),
{
    let mut fields = no_fields();
    set_field(&mut fields, "type", Json::Str(kind.to_owned()));
    Json::Object(fields)
}

/// The schema of a value of the type `kind` with a description.
pub fn described(kind: &str, description: &str) -> (r: Json)
    ensures
        r.model() == described_schema(kind@, description@),
{
    let mut fields = no_fields();
    set_field(&mut fields, "type", Json::Str(kind.to_owned()));
    set_field(&mut fields, "description", Json::Str(description.to_owned()));
    Json::Object(fields)
}

/// The schema of an object.
pub fn object(properties: Vec<(String, Json)>, required: &Vec<&str>) -> (r: Json)
    ensures
        r.model() == object_schema(Json::field_models(properties@), text::texts(required@)),
{
    let mut names: Vec<Json> = Vec::new();
    let mut i: usize = 0;
    while i < required.len()
        invariant
            i <= required.len(),
            names@.len() == i,
            forall|j: int| 0 <= j < i ==> (#[trigger] names@[j]).model() == JsonModel::Str(required@[j]@),
        decreases required.len() - i,
    {
        names.push(Json::Str(required[i].to_owned()));
        i = i + 1;
    }
    let list = Json::Array(names);
    assert(list.model()->Array_0 =~= text::texts(required@).map_values(|name: Seq<char>| JsonModel::Str(name)));
    let mut fields = no_fields();
    set_field(&mut fields, "type", Json::Str("object".to_owned()));
    set_field(&mut fields, "properties", Json::Object(properties));
    set_field(&mut fields, "required", list);
    Json::Object(fields)
}

/// Whether an object holds a value under a key.
pub open spec fn holds(v: JsonModel, key: Seq<char>, value: JsonModel) -> bool {
    v is Object && v->Object_0.contains_key(key) && v->Object_0[key] == value
}

/// A schema says of what type a value is and what it means, and of an object which fields it
/// has and which of them must be there, all of them and in their order.
pub proof fn lemma_schemas(
    kind: Seq<char>,
    description: Seq<char>,
    properties: Map<Seq<char>, JsonModel>,
    required: Seq<Seq<char>>,
)
    ensures
        holds(value_schema(kind), "type"@, JsonModel::Str(kind)),
        holds(described_schema(kind, description), "type"@, JsonModel::Str(kind)),
        holds(described_schema(kind, description), "description"@, JsonModel::Str(description)),
        holds(object_schema(properties, required), "type"@, JsonModel::Str("object"@)),
        holds(object_schema(properties, required), "properties"@, JsonModel::Object(properties)),
        ({
            let v = object_schema(properties, required)->Object_0;
            &&& v.contains_key("required"@)
            &&& v["required"@] matches JsonModel::Array(names)
            &&& names.len() == required.len()
            &&& forall|i: int| 0 <= i < names.len() ==> #[trigger] names[i] == JsonModel::Str(required[i])
        }),
{
    reveal_strlit("type");
    reveal_strlit("description");
    reveal_strlit("properties");
    reveal_strlit("required");
    assert("type"@.len() == 4 && "description"@.len() == 11 && "properties"@.len() == 10 && "required"@.len() == 8);
}

} // verus!
