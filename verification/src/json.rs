//! JSON values: the tool inputs, tool schemas and request bodies that travel
//! through the crate.

use vstd::prelude::*;
use crate::registry::Entries;
use crate::text;

verus! {

// ---------------------------------------------------------------------------
// Values of `serde_json`
// ---------------------------------------------------------------------------

/// A number of `serde_json`. Its contents are not looked at but through
/// [`number_of_u64`] and [`u64_of_number`].
#[verifier::external_type_specification]
#[verifier::external_body]
pub struct ExNumber(serde_json::Number);

/// A value of `serde_json`.
#[verifier::external_type_specification]
#[verifier::external_body]
pub struct ExValue(serde_json::Value);

/// An error of `serde_json`.
#[verifier::external_type_specification]
#[verifier::external_body]
pub struct ExError(serde_json::Error);

/// What a JSON value is, whatever holds it.
pub enum JsonModel {
    Null,
    Bool(bool),
    Number(serde_json::Number),
    Str(Seq<char>),
    Array(Seq<JsonModel>),
    Object(Map<Seq<char>, JsonModel>),
}

/// The number that `serde_json::Number::from` makes of an unsigned integer.
pub uninterp spec fn number_from_u64(n: u64) -> serde_json::Number;

/// What `serde_json::Number::as_u64` says of a number.
pub uninterp spec fn number_as_u64(n: serde_json::Number) -> Option<u64>;

/// What a value of `serde_json` holds.
pub uninterp spec fn value_contents(v: serde_json::Value) -> JsonModel;

/// What `serde_json::from_str` reads from a text, if the text is JSON.
pub uninterp spec fn parsed_text(text: Seq<char>) -> Option<JsonModel>;

/// How a value of `serde_json` with these contents is displayed.
pub uninterp spec fn compact_text(v: JsonModel) -> Seq<char>;

/// `serde_json::Number::from` for `u64`: the number depends on the integer alone,
/// and `as_u64` gives the integer back.
#[verifier::external_body]
pub(crate) fn number_of_u64(n: u64) -> (r: serde_json::Number)
    ensures
        r == number_from_u64(n),
        number_as_u64(r) == Some(n),
{
    serde_json::Number::from(n)
}

/// `serde_json::Number::clone`: the same number.
#[verifier::external_body]
pub(crate) fn copy_number(n: &serde_json::Number) -> (r: serde_json::Number)
    ensures
        r == *n,
{
    n.clone()
}

/// `serde_json::Number::as_u64`: the result depends on the number alone. Of which
/// numbers it is `Some` is claimed of those of [`number_of_u64`] only.
#[verifier::external_body]
pub(crate) fn u64_of_number(n: &serde_json::Number) -> (r: Option<u64>)
    ensures
        r == number_as_u64(*n),
{
    n.as_u64()
}

/// One level of a value of `serde_json`.
pub enum JsonNode {
    Null,
    Bool(bool),
    Number(serde_json::Number),
    Str(String),
    Array(Vec<serde_json::Value>),
    Object(Vec<(String, serde_json::Value)>),
}

/// What the fields of an object hold, by their names.
pub open spec fn field_contents(fields: Seq<(String, serde_json::Value)>) -> Map<Seq<char>, JsonModel> {
    crate::registry::by_name(fields).map_values(|v: serde_json::Value| value_contents(v))
}

/// What a value holds, seen from its first level.
pub open spec fn node_contents(n: JsonNode) -> JsonModel {
    match n {
        JsonNode::Null => JsonModel::Null,
        JsonNode::Bool(b) => JsonModel::Bool(b),
        JsonNode::Number(m) => JsonModel::Number(m),
        JsonNode::Str(s) => JsonModel::Str(s@),
        JsonNode::Array(items) => JsonModel::Array(items@.map_values(|v: serde_json::Value| value_contents(v))),
        JsonNode::Object(fields) => JsonModel::Object(field_contents(fields@)),
    }
}

/// The variants of `serde_json::Value`, and the iteration over `serde_json::Map`,
/// which yields each field once: the value is taken apart, and its parts hold what
/// it held.
#[verifier::external_body]
fn open_value(v: serde_json::Value) -> (n: JsonNode)
    ensures
        node_contents(n) == value_contents(v),
        n matches JsonNode::Object(fields) ==> crate::registry::distinct(fields@),
{
    match v {
        serde_json::Value::Null => JsonNode::Null,
        serde_json::Value::Bool(b) => JsonNode::Bool(b),
        serde_json::Value::Number(m) => JsonNode::Number(m),
        serde_json::Value::String(s) => JsonNode::Str(s),
        serde_json::Value::Array(items) => JsonNode::Array(items),
        serde_json::Value::Object(fields) => JsonNode::Object(fields.into_iter().collect()),
    }
}

/// The variants of `serde_json::Value`, and the making of a `serde_json::Map` of
/// fields with different names: the value is put together, and it holds what its
/// parts hold.
#[verifier::external_body]
fn close_value(n: JsonNode) -> (v: serde_json::Value)
    requires
        n matches JsonNode::Object(fields) ==> crate::registry::distinct(fields@),
    ensures
        value_contents(v) == node_contents(n),
{
    match n {
        JsonNode::Null => serde_json::Value::Null,
        JsonNode::Bool(b) => serde_json::Value::Bool(b),
        JsonNode::Number(m) => serde_json::Value::Number(m),
        JsonNode::Str(s) => serde_json::Value::String(s),
        JsonNode::Array(items) => serde_json::Value::Array(items),
        JsonNode::Object(fields) => serde_json::Value::Object(fields.into_iter().collect()),
    }
}

/// What was read from a text.
pub open spec fn result_contents(r: Result<serde_json::Value, serde_json::Error>) -> Option<JsonModel> {
    match r {
        Ok(v) => Some(value_contents(v)),
        Err(_) => None,
    }
}

/// `serde_json::from_str` for `serde_json::Value`: whether the text is JSON, and
/// what is read from it, depends on the text alone. What the text must look like
/// is not claimed.
#[verifier::external_body]
fn parse_value(text: &str) -> (r: Result<serde_json::Value, serde_json::Error>)
    ensures
        result_contents(r) == parsed_text(text@),
{
    serde_json::from_str::<serde_json::Value>(text)
}

/// The display of `serde_json::Value`, whose fields are sorted by their names: the
/// text depends on what the value holds alone. What it looks like is not claimed.
#[verifier::external_body]
fn print_value(v: &serde_json::Value) -> (r: String)
    ensures
        r@ == compact_text(value_contents(*v)),
{
    v.to_string()
}

// ---------------------------------------------------------------------------
// JSON values
// ---------------------------------------------------------------------------

/// A JSON value.
#[derive(Debug)]
pub enum Json {
    Null,
    Bool(bool),
    Number(serde_json::Number),
    Str(String),
    Array(Vec<Json>),
    /// The fields, of which the last of a name counts.
    Object(Vec<(String, Json)>),
}

impl JsonModel {
    /// The field `key` of an object.
    pub open spec fn field(self, key: Seq<char>) -> Option<JsonModel> {
        match self {
            JsonModel::Object(fields) => if fields.contains_key(key) {
                Some(fields[key])
            } else {
                None
            },
            _ => None,
        }
    }

    /// The text of a string.
    pub open spec fn text(self) -> Option<Seq<char>> {
        match self {
            JsonModel::Str(s) => Some(s),
            _ => None,
        }
    }

    /// The value of an unsigned integer.
    pub open spec fn unsigned(self) -> Option<u64> {
        match self {
            JsonModel::Number(n) => number_as_u64(n),
            _ => None,
        }
    }
}

impl DeepView for Json {
    type V = JsonModel;

    open spec fn deep_view(&self) -> JsonModel {
        self.model()
    }
}

/// The model of an optional value.
pub open spec fn optional_model(v: Option<&Json>) -> Option<JsonModel> {
    match v {
        Some(j) => Some(j.model()),
        None => None,
    }
}

impl Json {
    /// What the value is.
    pub open spec fn model(self) -> JsonModel
        decreases self,
    {
        match self {
            Json::Null => JsonModel::Null,
            Json::Bool(b) => JsonModel::Bool(b),
            Json::Number(n) => JsonModel::Number(n),
            Json::Str(s) => JsonModel::Str(s@),
            Json::Array(items) => JsonModel::Array(
                Seq::new(
                    items@.len(),
                    |i: int|
                        if 0 <= i < items@.len() {
                            items@[i].model()
                        } else {
                            JsonModel::Null
                        },
                ),
            ),
            Json::Object(fields) => JsonModel::Object(Json::field_models(fields@)),
        }
    }

    /// The fields of an object by their names.
    pub open spec fn field_models(fields: Seq<(String, Json)>) -> Map<Seq<char>, JsonModel>
        decreases fields,
    {
        if fields.len() == 0 {
            Map::empty()
        } else {
            Json::field_models(fields.drop_last()).insert(fields.last().0@, fields.last().1.model())
        }
    }

    /// The field `key` of an object.
    pub fn get(&self, key: &str) -> (r: Option<&Json>)
        ensures
            optional_model(r) == self.model().field(key@),
    {
        match self {
            Json::Object(fields) => {
                let ghost all = Json::field_models(fields@);
                let mut i: usize = fields.len();
                assert(fields@.take(i as int) =~= fields@);
                while i > 0
                    invariant
                        i <= fields.len(),
                        all == Json::field_models(fields@),
                        all.contains_key(key@) == Json::field_models(fields@.take(i as int)).contains_key(key@),
                        all.contains_key(key@) ==> all[key@] == Json::field_models(fields@.take(i as int))[key@],
                        self.model() == JsonModel::Object(all),
                    decreases i,
                {
                    i = i - 1;
                    assert(fields@.take(i + 1).drop_last() =~= fields@.take(i as int));
                    assert(fields@.take(i + 1).last() == fields@[i as int]);
                    let field = &fields[i];
                    if text::same_text(field.0.as_str(), key) {
                        return Some(&field.1);
                    }
                }
                None
            },
            _ => None,
        }
    }

    /// The text of a string.
    pub fn as_str(&self) -> (r: Option<&str>)
        ensures
            r.deep_view() == self.model().text(),
    {
        match self {
            Json::Str(s) => Some(s.as_str()),
            _ => None,
        }
    }

    /// The value of an unsigned integer.
    pub fn as_u64(&self) -> (r: Option<u64>)
        ensures
            r == self.model().unsigned(),
    {
        match self {
            Json::Number(n) => u64_of_number(n),
            _ => None,
        }
    }

    /// The text of a string field.
    pub fn get_str(&self, key: &str) -> (r: Option<&str>)
        ensures
            r.deep_view() == string_field(self.model(), key@),
    {
        match self.get(key) {
            Some(v) => v.as_str(),
            None => None,
        }
    }

    /// An unsigned integer.
    pub fn unsigned(n: u64) -> (r: Json)
        ensures
            r.model() == JsonModel::Number(number_from_u64(n)),
            r.model().unsigned() == Some(n),
    {
        Json::Number(number_of_u64(n))
    }

    /// The value that `v` holds.
    pub fn from_value(v: serde_json::Value) -> (r: Json)
        ensures
            r.model() == value_contents(v),
        decreases value_contents(v),
    {
        let ghost whole = value_contents(v);
        match open_value(v) {
            JsonNode::Null => Json::Null,
            JsonNode::Bool(b) => Json::Bool(b),
            JsonNode::Number(n) => Json::Number(n),
            JsonNode::Str(s) => Json::Str(s),
            JsonNode::Array(items) => {
                let ghost values = items@;
                let mut r: Vec<Json> = Vec::new();
                for x in it: items.into_iter()
                    invariant
                        it.seq() == values,
                        whole == value_contents(v),
                        whole == JsonModel::Array(values.map_values(|v: serde_json::Value| value_contents(v))),
                        r@.len() == it.index(),
                        forall|i: int| 0 <= i < r@.len() ==> (#[trigger] r@[i]).model() == value_contents(values[i]),
                {
                    proof {
                        let parts = values.map_values(|v: serde_json::Value| value_contents(v));
                        assert(parts[it.index() as int] == value_contents(x));
                        assert(decreases_to!(parts => parts[it.index() as int]));
                        assert(decreases_to!(whole => whole->Array_0));
                    }
                    r.push(Json::from_value(x));
                }
                let r = Json::Array(r);
                assert(r.model()->Array_0 =~= whole->Array_0);
                r
            },
            JsonNode::Object(entries) => {
                let ghost pairs = entries@;
                let mut r: Vec<(String, Json)> = Vec::new();
                proof {
                    assert(pairs.take(0) =~= Seq::<(String, serde_json::Value)>::empty());
                    assert(Json::field_models(r@) =~= field_contents(pairs.take(0)));
                }
                for x in it: entries.into_iter()
                    invariant
                        it.seq() == pairs,
                        whole == value_contents(v),
                        whole == JsonModel::Object(field_contents(pairs)),
                        crate::registry::distinct(pairs),
                        r@.len() == it.index(),
                        Json::field_models(r@) == field_contents(pairs.take(it.index() as int)),
                {
                    let ghost before = r@;
                    let ghost k = it.index() as int;
                    proof {
                        let parts = field_contents(pairs);
                        crate::registry::lemma_by_name(pairs);
                        assert(pairs[k] == x);
                        assert(parts.contains_key(x.0@));
                        assert(parts.dom() =~= crate::registry::by_name(pairs).dom());
                        assert(parts[x.0@] == value_contents(x.1));
                        assert(decreases_to!(parts => parts[x.0@]));
                        assert(decreases_to!(whole => whole->Object_0));
                    }
                    r.push((x.0, Json::from_value(x.1)));
                    proof {
                        assert(r@.drop_last() =~= before);
                        assert(pairs.take(k + 1).drop_last() =~= pairs.take(k));
                        assert(pairs.take(k + 1).last() == x);
                        assert(field_contents(pairs.take(k + 1)) =~= field_contents(pairs.take(k)).insert(
                            x.0@,
                            value_contents(x.1),
                        ));
                    }
                }
                assert(pairs.take(pairs.len() as int) =~= pairs);
                Json::Object(r)
            },
        }
    }

    /// A value of `serde_json` that holds the same.
    pub fn to_value(&self) -> (v: serde_json::Value)
        ensures
            value_contents(v) == self.model(),
        decreases self,
    {
        match self {
            Json::Null => close_value(JsonNode::Null),
            Json::Bool(b) => close_value(JsonNode::Bool(*b)),
            Json::Number(n) => close_value(JsonNode::Number(copy_number(n))),
            Json::Str(s) => close_value(JsonNode::Str(s.clone())),
            Json::Array(items) => {
                let mut r: Vec<serde_json::Value> = Vec::new();
                let mut i: usize = 0;
                while i < items.len()
                    invariant
                        i <= items.len(),
                        r@.len() == i,
                        *self == Json::Array(*items),
                        forall|j: int| 0 <= j < i ==> value_contents(#[trigger] r@[j]) == items@[j].model(),
                    decreases items.len() - i,
                {
                    proof {
                        assert(decreases_to!(*self => self->Array_0));
                        assert(decreases_to!(*items => items@));
                        assert(decreases_to!(items@ => items@[i as int]));
                    }
                    r.push(items[i].to_value());
                    i = i + 1;
                }
                let n = JsonNode::Array(r);
                assert(node_contents(n)->Array_0 =~= self.model()->Array_0);
                close_value(n)
            },
            Json::Object(fields) => {
                let mut r: Entries<serde_json::Value> = Entries::new();
                let ghost hold = |v: serde_json::Value| value_contents(v);
                let mut i: usize = 0;
                proof {
                    assert(fields@.take(0) =~= Seq::<(String, Json)>::empty());
                    assert(r@.map_values(hold) =~= Json::field_models(fields@.take(0)));
                }
                while i < fields.len()
                    invariant
                        i <= fields.len(),
                        r.wf(),
                        hold == (|v: serde_json::Value| value_contents(v)),
                        *self == Json::Object(*fields),
                        r@.map_values(hold) == Json::field_models(fields@.take(i as int)),
                    decreases fields.len() - i,
                {
                    let ghost before = r@;
                    proof {
                        assert(decreases_to!(*self => self->Object_0));
                        assert(decreases_to!(*fields => fields@));
                        assert(decreases_to!(fields@ => fields@[i as int]));
                        assert(decreases_to!(fields@[i as int] => fields@[i as int].1));
                    }
                    let value = fields[i].1.to_value();
                    r.insert(fields[i].0.clone(), value);
                    proof {
                        assert(fields@.take(i + 1).drop_last() =~= fields@.take(i as int));
                        assert(r@.map_values(hold) =~= before.map_values(hold).insert(
                            fields@[i as int].0@,
                            hold(value),
                        ));
                    }
                    i = i + 1;
                }
                assert(fields@.take(fields@.len() as int) =~= fields@);
                close_value(JsonNode::Object(r.into_vec()))
            },
        }
    }

    /// The value that the text is in JSON, if it is JSON.
    pub fn parse(text: &str) -> (r: Option<Json>)
        ensures
            r.deep_view() == parsed_text(text@),
    {
        match parse_value(text) {
            Ok(v) => Some(Json::from_value(v)),
            Err(_) => None,
        }
    }

    /// The value in compact JSON.
    pub fn to_text(&self) -> (r: String)
        ensures
            r@ == compact_text(self.model()),
    {
        print_value(&self.to_value())
    }
}

impl Clone for Json {
    fn clone(&self) -> (r: Self)
        ensures
            r.model() == self.model(),
        decreases self,
    {
        match self {
            Json::Null => Json::Null,
            Json::Bool(b) => Json::Bool(*b),
            Json::Number(n) => Json::Number(copy_number(n)),
            Json::Str(s) => Json::Str(s.clone()),
            Json::Array(items) => {
                let mut r: Vec<Json> = Vec::new();
                let mut i: usize = 0;
                while i < items.len()
                    invariant
                        i <= items.len(),
                        r@.len() == i,
                        *self == Json::Array(*items),
                        forall|j: int| 0 <= j < i ==> (#[trigger] r@[j]).model() == items@[j].model(),
                    decreases items.len() - i,
                {
                    proof {
                        assert(decreases_to!(*self => self->Array_0));
                        assert(decreases_to!(*items => items@));
                        assert(decreases_to!(items@ => items@[i as int]));
                    }
                    r.push(items[i].clone());
                    i = i + 1;
                }
                let r = Json::Array(r);
                assert(r.model()->Array_0 =~= self.model()->Array_0);
                r
            },
            Json::Object(fields) => {
                assert(decreases_to!(*self => self->Object_0));
                Json::Object(copy_fields(fields))
            },
        }
    }
}

/// The text of the string field `key`, if there is one.
pub open spec fn string_field(v: JsonModel, key: Seq<char>) -> Option<Seq<char>> {
    match v.field(key) {
        Some(f) => f.text(),
        None => None,
    }
}

/// A copy of the fields of an object.
pub fn copy_fields(fields: &Vec<(String, Json)>) -> (r: Vec<(String, Json)>)
    ensures
        Json::field_models(r@) == Json::field_models(fields@),
    decreases fields,
{
    let mut r: Vec<(String, Json)> = Vec::new();
    let mut i: usize = 0;
    while i < fields.len()
        invariant
            i <= fields.len(),
            r@.len() == i,
            Json::field_models(r@) == Json::field_models(fields@.take(i as int)),
        decreases fields.len() - i,
    {
        let ghost before = r@;
        proof {
            assert(decreases_to!(*fields => fields@));
            assert(decreases_to!(fields@ => fields@[i as int]));
            assert(decreases_to!(fields@[i as int] => fields@[i as int].1));
        }
        r.push((fields[i].0.clone(), fields[i].1.clone()));
        assert(r@.drop_last() =~= before);
        assert(fields@.take(i + 1).drop_last() =~= fields@.take(i as int));
        i = i + 1;
    }
    assert(fields@.take(fields@.len() as int) =~= fields@);
    r
}

/// No fields.
pub fn no_fields() -> (r: Vec<(String, Json)>)
    ensures
        Json::field_models(r@) == Map::<Seq<char>, JsonModel>::empty(),
{
    Vec::new()
}

/// Sets a field.
pub fn set_field(fields: &mut Vec<(String, Json)>, name: &str, value: Json)
    ensures
        Json::field_models(final(fields)@) == Json::field_models(old(fields)@).insert(name@, value.model()),
{
    let ghost before = fields@;
    fields.push((name.to_owned(), value));
    assert(fields@.drop_last() =~= before);
}

/// A field that was set is found with its value, and setting it changes no other.
pub proof fn lemma_fields(fields: Map<Seq<char>, JsonModel>, key: Seq<char>, value: JsonModel, other: Seq<char>)
    ensures
        JsonModel::Object(fields.insert(key, value)).field(key) == Some(value),
        other != key ==> JsonModel::Object(fields.insert(key, value)).field(other) == JsonModel::Object(fields).field(
            other,
        ),
        JsonModel::Object(Map::empty()).field(key) is None,
        value !is Object ==> value.field(key) is None,
{
}

/// A text is read from a string alone and a number from a number alone.
pub proof fn lemma_plain_values(v: JsonModel)
    ensures
        v matches JsonModel::Str(s) ==> v.text() == Some(s) && v.unsigned() is None,
        v matches JsonModel::Number(n) ==> v.unsigned() == number_as_u64(n) && v.text() is None,
        v !is Str && v !is Number ==> v.text() is None && v.unsigned() is None,
{
}

/// A value is what it holds: plain values stand for themselves, an array for what its items
/// are, in their order, and of the fields of an object with the same name the last counts.
pub proof fn lemma_what_values_are(
    b: bool,
    n: serde_json::Number,
    s: String,
    items: Vec<Json>,
    fields: Seq<(String, Json)>,
    name: String,
    value: Json,
)
    ensures
        Json::Null.model() == JsonModel::Null,
        Json::Bool(b).model() == JsonModel::Bool(b),
        Json::Number(n).model() == JsonModel::Number(n),
        Json::Str(s).model() == JsonModel::Str(s@),
        ({
            &&& Json::Array(items).model() matches JsonModel::Array(list)
            &&& list.len() == items@.len()
            &&& forall|i: int| 0 <= i < list.len() ==> #[trigger] list[i] == items@[i].model()
        }),
        ({
            let more = Json::field_models(fields.push((name, value)));
            &&& more.contains_key(name@)
            &&& more[name@] == value.model()
            &&& forall|other: Seq<char>|
                other != name@ ==> (#[trigger] more.contains_key(other) <==> Json::field_models(fields).contains_key(
                    other,
                ))
            &&& forall|other: Seq<char>|
                other != name@ && #[trigger] more.contains_key(other) ==> more[other] == Json::field_models(
                    fields,
                )[other]
        }),
        Json::field_models(Seq::empty()).dom() =~= Set::empty(),
{
    assert(fields.push((name, value)).drop_last() =~= fields);
}

} // verus!
