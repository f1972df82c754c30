//! JSON values as trees.
use crate::sorting::text_le;
use crate::text::same;
use crate::views::views;
use vstd::prelude::*;

verus! {

/// A JSON value.
#[derive(Debug)]
pub enum Json {
    Null,
    Bool(bool),
    /// An integer that is not negative.
    UInt(u64),
    /// A negative integer.
    Int(i64),
    /// Any other number, as it is printed.
    Real(String),
    Text(String),
    Array(Vec<Json>),
    Object(Vec<(String, Json)>),
}

/// What a [`Json`] stands for.
pub enum JsonV {
    Null,
    Bool(bool),
    UInt(u64),
    Int(i64),
    Real(Seq<char>),
    Text(Seq<char>),
    Array(Seq<JsonV>),
    Object(Seq<(Seq<char>, JsonV)>),
}

impl Json {
    /// What the value stands for.
    pub open spec fn model(self) -> JsonV
        decreases self,
    {
        match self {
            Json::Null => JsonV::Null,
            Json::Bool(b) => JsonV::Bool(b),
            Json::UInt(n) => JsonV::UInt(n),
            Json::Int(n) => JsonV::Int(n),
            Json::Real(t) => JsonV::Real(t@),
            Json::Text(t) => JsonV::Text(t@),
            Json::Array(items) => JsonV::Array(models(items@)),
            Json::Object(fields) => JsonV::Object(field_models(fields@)),
        }
    }
}

/// What the values of `s` stand for.
pub open spec fn models(s: Seq<Json>) -> Seq<JsonV>
    decreases s,
{
    if s.len() == 0 {
        Seq::empty()
    } else {
        models(s.drop_last()).push(s.last().model())
    }
}

/// What the fields of an object stand for.
pub open spec fn field_models(s: Seq<(String, Json)>) -> Seq<(Seq<char>, JsonV)>
    decreases s,
{
    if s.len() == 0 {
        Seq::empty()
    } else {
        field_models(s.drop_last()).push((s.last().0@, s.last().1.model()))
    }
}

impl View for Json {
    type V = JsonV;

    open spec fn view(&self) -> JsonV {
        self.model()
    }
}

/// The models of a sequence of values are the models of its items, one by one.
pub proof fn lemma_models(s: Seq<Json>)
    ensures
        models(s) == views(s),
    decreases s.len(),
{
    if s.len() > 0 {
        lemma_models(s.drop_last());
        assert(views(s) =~= views(s.drop_last()).push(s.last()@));
    } else {
        assert(views(s) =~= Seq::empty());
    }
}

/// The models of the fields of an object are the models of its fields, one by one.
pub proof fn lemma_field_models(s: Seq<(String, Json)>)
    ensures
        field_models(s) == s.map_values(|e: (String, Json)| (e.0@, e.1@)),
    decreases s.len(),
{
    if s.len() > 0 {
        lemma_field_models(s.drop_last());
        assert(s.map_values(|e: (String, Json)| (e.0@, e.1@)) =~= s.drop_last().map_values(
            |e: (String, Json)| (e.0@, e.1@),
        ).push((s.last().0@, s.last().1@)));
    } else {
        assert(s.map_values(|e: (String, Json)| (e.0@, e.1@)) =~= Seq::empty());
    }
}

/// The value of the first of the fields, from `i` on, that is called `key`.
pub open spec fn field_from(fields: Seq<(Seq<char>, JsonV)>, key: Seq<char>, i: int) -> Option<
    JsonV,
>
    decreases fields.len() - i,
{
    if i < 0 || i >= fields.len() {
        None
    } else if fields[i].0 == key {
        Some(fields[i].1)
    } else {
        field_from(fields, key, i + 1)
    }
}

impl JsonV {
    /// The value of the field `key`; there is none in what is not an object.
    pub open spec fn field(self, key: Seq<char>) -> Option<JsonV> {
        match self {
            JsonV::Object(fields) => field_from(fields, key, 0),
            _ => None,
        }
    }

    /// The text that a text value is.
    pub open spec fn as_text(self) -> Option<Seq<char>> {
        match self {
            JsonV::Text(t) => Some(t),
            _ => None,
        }
    }

    /// The number that a value is, if it is an integer and not negative.
    pub open spec fn as_uint(self) -> Option<u64> {
        match self {
            JsonV::UInt(n) => Some(n),
            _ => None,
        }
    }

    /// The items of an array.
    pub open spec fn as_items(self) -> Option<Seq<JsonV>> {
        match self {
            JsonV::Array(items) => Some(items),
            _ => None,
        }
    }

    /// The text of the field `key`, if there is such a field and it is text.
    pub open spec fn text_field(self, key: Seq<char>) -> Option<Seq<char>> {
        match self.field(key) {
            Some(v) => v.as_text(),
            None => None,
        }
    }

    /// The number of the field `key`, if there is such a field and it is an integer and not
    /// negative.
    pub open spec fn uint_field(self, key: Seq<char>) -> Option<u64> {
        match self.field(key) {
            Some(v) => v.as_uint(),
            None => None,
        }
    }

    /// The items of the field `key`, if there is such a field and it is an array.
    pub open spec fn items_field(self, key: Seq<char>) -> Option<Seq<JsonV>> {
        match self.field(key) {
            Some(v) => v.as_items(),
            None => None,
        }
    }
}

impl Json {
    /// The value of the field `key`.
    pub fn get(&self, key: &str) -> (r: Option<&Json>)
        ensures
            opt_ref(r) == self@.field(key@),
    {
        match self {
            Json::Object(fields) => {
                let ghost fs = field_models(fields@);
                proof {
                    lemma_field_models(fields@);
                }
                let mut i: usize = 0;
                while i < fields.len()
                    invariant
                        i <= fields@.len(),
                        fs == fields@.map_values(|e: (String, Json)| (e.0@, e.1@)),
                        field_from(fs, key@, i as int) == field_from(fs, key@, 0),
                        self@.field(key@) == field_from(fs, key@, 0),
                    decreases fields@.len() - i,
                {
                    assert(fs[i as int] == (fields@[i as int].0@, fields@[i as int].1@));
                    if same(fields[i].0.as_str(), key) {
                        return Some(&fields[i].1);
                    }
                    i += 1;
                }
                None
            },
            _ => None,
        }
    }

    /// The text of the field `key`.
    pub fn get_text(&self, key: &str) -> (r: Option<&String>)
        ensures
            match r {
                Some(t) => self@.text_field(key@) == Some(t@),
                None => self@.text_field(key@) is None,
            },
    {
        match self.get(key) {
            Some(Json::Text(t)) => Some(t),
            _ => None,
        }
    }

    /// The number of the field `key`.
    pub fn get_uint(&self, key: &str) -> (r: Option<u64>)
        ensures
            r == self@.uint_field(key@),
    {
        match self.get(key) {
            Some(Json::UInt(n)) => Some(*n),
            _ => None,
        }
    }

    /// The items of the field `key`.
    pub fn get_items(&self, key: &str) -> (r: Option<&Vec<Json>>)
        ensures
            match r {
                Some(items) => self@.items_field(key@) == Some(views(items@)),
                None => self@.items_field(key@) is None,
            },
    {
        match self.get(key) {
            Some(Json::Array(items)) => {
                proof {
                    lemma_models(items@);
                }
                Some(items)
            },
            _ => None,
        }
    }
}

/// The view of the value that `o` refers to.
pub open spec fn opt_ref(o: Option<&Json>) -> Option<JsonV> {
    match o {
        Some(j) => Some(j@),
        None => None,
    }
}

impl Clone for Json {
    fn clone(&self) -> (r: Json)
        ensures
            r@ == self@,
        decreases self,
    {
        match self {
            Json::Null => Json::Null,
            Json::Bool(b) => Json::Bool(*b),
            Json::UInt(n) => Json::UInt(*n),
            Json::Int(n) => Json::Int(*n),
            Json::Real(t) => Json::Real(t.clone()),
            Json::Text(t) => Json::Text(t.clone()),
            Json::Array(items) => Json::Array(clone_items(items)),
            Json::Object(fields) => Json::Object(clone_fields(fields)),
        }
    }
}

/// A copy of the items of an array.
fn clone_items(items: &Vec<Json>) -> (r: Vec<Json>)
    ensures
        models(r@) == models(items@),
    decreases items,
{
    let mut r: Vec<Json> = Vec::new();
    let mut i: usize = 0;
    while i < items.len()
        invariant
            i <= items@.len(),
            models(r@) == models(items@.take(i as int)),
        decreases items@.len() - i,
    {
        let ghost before = r@;
        assert(decreases_to!(items => items@[i as int]));
        let c = items[i].clone();
        r.push(c);
        assert(r@.drop_last() =~= before);
        assert(items@.take(i + 1).drop_last() =~= items@.take(i as int));
        i += 1;
    }
    assert(items@.take(i as int) =~= items@);
    r
}

/// A copy of the fields of an object.
fn clone_fields(fields: &Vec<(String, Json)>) -> (r: Vec<(String, Json)>)
    ensures
        field_models(r@) == field_models(fields@),
    decreases fields,
{
    let mut r: Vec<(String, Json)> = Vec::new();
    let mut i: usize = 0;
    while i < fields.len()
        invariant
            i <= fields@.len(),
            field_models(r@) == field_models(fields@.take(i as int)),
        decreases fields@.len() - i,
    {
        let ghost before = r@;
        assert(decreases_to!(fields => fields@[i as int]));
        assert(decreases_to!(fields@[i as int] => fields@[i as int].1));
        let c = fields[i].1.clone();
        r.push((fields[i].0.clone(), c));
        assert(r@.drop_last() =~= before);
        assert(fields@.take(i + 1).drop_last() =~= fields@.take(i as int));
        i += 1;
    }
    assert(fields@.take(i as int) =~= fields@);
    r
}

/// A JSON value as `serde_json` holds it.
#[verifier::external_type_specification]
#[verifier::external_body]
pub struct ExValue(serde_json::Value);

/// The tree that a `serde_json::Value` holds; the fields of an object in the order in which its
/// map hands them out, which is the order of their names.
pub uninterp spec fn value_tree(v: serde_json::Value) -> JsonV;

/// The number that a text is read as by `str::parse` and `serde_json::Number::from_f64`, as it is
/// printed again; null where there is no such number.
pub uninterp spec fn number_read(text: Seq<char>) -> JsonV;

/// Where a name stands, or is to stand, among fields in the order of their names, from `i` on.
pub open spec fn field_place(fields: Seq<(Seq<char>, JsonV)>, name: Seq<char>, i: int) -> int
    decreases fields.len() - i,
{
    if i < 0 || i >= fields.len() {
        fields.len() as int
    } else if text_le(name, fields[i].0) {
        i
    } else {
        field_place(fields, name, i + 1)
    }
}

/// Fields in the order of their names with one set.
pub open spec fn with_field_set(
    fields: Seq<(Seq<char>, JsonV)>,
    name: Seq<char>,
    value: JsonV,
) -> Seq<(Seq<char>, JsonV)> {
    let k = field_place(fields, name, 0);
    if k < fields.len() && fields[k].0 == name {
        fields.update(k, (name, value))
    } else {
        fields.insert(k, (name, value))
    }
}

/// A tree as a `serde_json::Value` can hold it: the fields of an object in the order of their names,
/// the last of two with one name, integers that are not negative as such, and numbers as they are
/// read and printed again.
pub open spec fn normal(j: JsonV) -> JsonV
    decreases j,
{
    match j {
        JsonV::Int(n) => if n >= 0 {
            JsonV::UInt(n as u64)
        } else {
            j
        },
        JsonV::Real(text) => number_read(text),
        JsonV::Array(items) => JsonV::Array(normal_items(items)),
        JsonV::Object(fields) => JsonV::Object(normal_fields(fields)),
        _ => j,
    }
}

/// Items as a `serde_json::Value` can hold them.
pub open spec fn normal_items(s: Seq<JsonV>) -> Seq<JsonV>
    decreases s,
{
    if s.len() == 0 {
        Seq::empty()
    } else {
        normal_items(s.drop_last()).push(normal(s.last()))
    }
}

/// Fields as a `serde_json::Value` can hold them.
pub open spec fn normal_fields(s: Seq<(Seq<char>, JsonV)>) -> Seq<(Seq<char>, JsonV)>
    decreases s,
{
    if s.len() == 0 {
        Seq::empty()
    } else {
        with_field_set(normal_fields(s.drop_last()), s.last().0, normal(s.last().1))
    }
}

/// The text that `serde_json::Value` prints for a tree that it holds.
pub uninterp spec fn printed(j: JsonV) -> Seq<char>;

/// The tree that `serde_json::from_str` reads from a text, or what it says of a text that is not
/// JSON.
pub uninterp spec fn parsed_tree(text: Seq<char>) -> Result<JsonV, Seq<char>>;

/// The compact JSON text of a tree.
pub open spec fn json_text(j: JsonV) -> Seq<char> {
    printed(normal(j))
}

/// Reads a text with `serde_json::from_str` into a `serde_json::Value`: there is one exactly where
/// the text has a tree, and it holds that tree; the error is what its `Display` prints.
#[verifier::external_body]
fn value_from_text(text: &str) -> (r: Result<serde_json::Value, String>)
    ensures
        match r {
            Ok(v) => parsed_tree(text@) == Ok::<JsonV, Seq<char>>(value_tree(v)),
            Err(e) => parsed_tree(text@) == Err::<JsonV, Seq<char>>(e@),
        },
{
    serde_json::from_str::<serde_json::Value>(text).map_err(|e| e.to_string())
}

/// The tree that `serde_json::from_slice` reads from bytes; none where they are not JSON.
pub uninterp spec fn tree_of_bytes(bytes: Seq<u8>) -> Option<JsonV>;

/// Reads bytes with `serde_json::from_slice` into a `serde_json::Value`: there is one exactly where
/// the bytes have a tree, and it holds that tree.
#[verifier::external_body]
fn value_from_bytes(bytes: &Vec<u8>) -> (r: Option<serde_json::Value>)
    ensures
        match r {
            Some(v) => tree_of_bytes(bytes@) == Some(value_tree(v)),
            None => tree_of_bytes(bytes@) is None,
        },
{
    serde_json::from_slice::<serde_json::Value>(bytes).ok()
}

/// The tree of JSON in bytes; none where they are not JSON.
pub fn parse_bytes(bytes: &Vec<u8>) -> (r: Option<Json>)
    ensures
        match r {
            Some(j) => tree_of_bytes(bytes@) == Some(j@),
            None => tree_of_bytes(bytes@) is None,
        },
{
    match value_from_bytes(bytes) {
        Some(v) => Some(tree_of_value(v)),
        None => None,
    }
}

/// Takes a `serde_json::Value` apart into the tree that it holds.
#[verifier::external_body]
fn tree_of_value(v: serde_json::Value) -> (r: Json)
    ensures
        r@ == value_tree(v),
{
    match v {
        serde_json::Value::Null => Json::Null,
        serde_json::Value::Bool(b) => Json::Bool(b),
        serde_json::Value::Number(n) => match (n.as_u64(), n.as_i64()) {
            (Some(u), _) => Json::UInt(u),
            (None, Some(i)) => Json::Int(i),
            (None, None) => Json::Real(n.to_string()),
        },
        serde_json::Value::String(s) => Json::Text(s),
        serde_json::Value::Array(a) => Json::Array(a.into_iter().map(tree_of_value).collect()),
        serde_json::Value::Object(m) => Json::Object(m.into_iter().map(|(k, x)| (k, tree_of_value(x))).collect()),
    }
}

/// Builds the `serde_json::Value` of a tree. Its map is ordered by name, so that it holds the tree as
/// [`normal`] tells.
#[verifier::external_body]
fn value_of_tree(j: &Json) -> (r: serde_json::Value)
    ensures
        value_tree(r) == normal(j@),
{
    match j {
        Json::Null => serde_json::Value::Null,
        Json::Bool(b) => serde_json::Value::Bool(*b),
        Json::UInt(n) => serde_json::Value::from(*n),
        Json::Int(n) => serde_json::Value::from(*n),
        Json::Real(t) => t.parse().ok().and_then(serde_json::Number::from_f64).into(),
        Json::Text(t) => serde_json::Value::String(t.clone()),
        Json::Array(a) => serde_json::Value::Array(a.iter().map(value_of_tree).collect()),
        Json::Object(m) => serde_json::Value::Object(m.iter().map(|(k, x)| (k.clone(), value_of_tree(x))).collect()),
    }
}

/// Prints a `serde_json::Value` with its `Display`, which writes compact JSON.
#[verifier::external_body]
fn value_to_text(v: &serde_json::Value) -> (r: String)
    ensures
        r@ == printed(value_tree(*v)),
{
    v.to_string()
}

/// Reads a text as a number with `str::parse` and `serde_json::Number::from_f64`, and prints it with
/// the `Display` of `serde_json::Number`; null where it is no number or JSON has none such.
#[verifier::external_body]
pub(crate) fn read_number(text: &str) -> (r: Json)
    ensures
        r@ == number_read(text@),
{
    match text.parse().ok().and_then(serde_json::Number::from_f64) {
        Some(n) => Json::Real(n.to_string()),
        None => Json::Null,
    }
}

/// The tree of a JSON text, or what is wrong with the text.
pub fn parse_json(text: &str) -> (r: Result<Json, String>)
    ensures
        match r {
            Ok(j) => parsed_tree(text@) == Ok::<JsonV, Seq<char>>(j@),
            Err(e) => parsed_tree(text@) == Err::<JsonV, Seq<char>>(e@),
        },
{
    match value_from_text(text) {
        Ok(v) => Ok(tree_of_value(v)),
        Err(e) => Err(e),
    }
}

/// The tree of a JSON text; null where the text is not JSON.
pub open spec fn tree_or_null(text: Seq<char>) -> JsonV {
    match parsed_tree(text) {
        Ok(j) => j,
        Err(_) => JsonV::Null,
    }
}

/// The tree of a JSON text; null where the text is not JSON.
pub fn parse_or_null(text: &str) -> (r: Json)
    ensures
        r@ == tree_or_null(text@),
{
    match parse_json(text) {
        Ok(j) => j,
        Err(_) => Json::Null,
    }
}

/// A text value.
pub fn json_str(s: &str) -> (r: Json)
    ensures
        r@ == JsonV::Text(s@),
{
    Json::Text(s.to_owned())
}

/// An object with one field more.
pub fn with_field(fields: Vec<(String, Json)>, name: &str, value: Json) -> (r: Vec<(String, Json)>)
    ensures
        field_models(r@) == field_models(fields@).push((name@, value@)),
{
    let mut r = fields;
    let ghost before = r@;
    r.push((name.to_owned(), value));
    assert(r@.drop_last() =~= before);
    r
}

/// An array with one item more.
pub fn with_item(items: Vec<Json>, value: Json) -> (r: Vec<Json>)
    ensures
        models(r@) == models(items@).push(value@),
{
    let mut r = items;
    let ghost before = r@;
    r.push(value);
    assert(r@.drop_last() =~= before);
    r
}

/// The compact JSON text of a tree.
pub fn json_to_text(j: &Json) -> (r: String)
    ensures
        r@ == json_text(j@),
{
    value_to_text(&value_of_tree(j))
}

/// The value of a field is that behind its name, the first of them where the name stands twice; a
/// name that does not stand there has none.
pub proof fn law_fields_are_found_by_name(fields: Seq<(Seq<char>, JsonV)>, key: Seq<char>, i: int)
    requires
        0 <= i <= fields.len(),
        forall|k: int| 0 <= k < i ==> (#[trigger] fields[k]).0 != key,
    ensures
        i == fields.len() ==> JsonV::Object(fields).field(key) is None,
        i < fields.len() && fields[i].0 == key ==> JsonV::Object(fields).field(key) == Some(
            fields[i].1,
        ),
{
    lemma_field_from(fields, key, 0, i);
}

proof fn lemma_field_from(fields: Seq<(Seq<char>, JsonV)>, key: Seq<char>, from: int, i: int)
    requires
        0 <= from <= i <= fields.len(),
        forall|k: int| from <= k < i ==> (#[trigger] fields[k]).0 != key,
    ensures
        field_from(fields, key, from) == field_from(fields, key, i),
    decreases i - from,
{
    if from < i {
        lemma_field_from(fields, key, from + 1, i);
    }
}

/// What is read of a field is what stands in it, and only where it is of the kind that is asked for.
pub proof fn law_fields_are_read_by_their_kind(j: JsonV, key: Seq<char>)
    ensures
        j.text_field(key) is Some <==> j.field(key) is Some && j.field(key)->0 is Text,
        j.text_field(key) is Some ==> j.field(key) == Some(JsonV::Text(j.text_field(key)->0)),
        j.uint_field(key) is Some <==> j.field(key) is Some && j.field(key)->0 is UInt,
        j.uint_field(key) is Some ==> j.field(key) == Some(JsonV::UInt(j.uint_field(key)->0)),
        j.items_field(key) is Some <==> j.field(key) is Some && j.field(key)->0 is Array,
        j.items_field(key) is Some ==> j.field(key) == Some(JsonV::Array(j.items_field(key)->0)),
        !(j is Object) ==> j.field(key) is None,
{
}

/// Bringing a value into the form in which it is printed changes no text, no truth value and no
/// integer that is not negative, keeps the items of an array one by one, and makes of an object an
/// object.
pub proof fn law_printing_keeps_what_is_said(j: JsonV)
    ensures
        j is Null || j is Bool || j is UInt || j is Text ==> normal(j) == j,
        j is Int && j->Int_0 < 0 ==> normal(j) == j,
        j is Object ==> normal(j) is Object,
        j is Array ==> {
            &&& normal(j) is Array
            &&& normal(j)->Array_0.len() == j->Array_0.len()
            &&& forall|i: int|
                0 <= i < j->Array_0.len() ==> #[trigger] normal(j)->Array_0[i] == normal(
                    j->Array_0[i],
                )
        },
{
    if j is Array {
        lemma_normal_items(j->Array_0);
    }
}

proof fn lemma_normal_items(s: Seq<JsonV>)
    ensures
        normal_items(s).len() == s.len(),
        forall|i: int| 0 <= i < s.len() ==> #[trigger] normal_items(s)[i] == normal(s[i]),
    decreases s.len(),
{
    if s.len() > 0 {
        lemma_normal_items(s.drop_last());
    }
}

/// A field that is set has its value then, and no field of another name is lost, added or changed.
pub proof fn law_setting_a_field(
    fields: Seq<(Seq<char>, JsonV)>,
    name: Seq<char>,
    value: JsonV,
    other: (Seq<char>, JsonV),
)
    ensures
        with_field_set(fields, name, value).contains((name, value)),
        other.0 != name ==> (with_field_set(fields, name, value).contains(other)
            <==> fields.contains(other)),
{
    lemma_field_place(fields, name, 0);
    let k = field_place(fields, name, 0);
    let r = with_field_set(fields, name, value);
    assert(r[k] == (name, value));
    let set = k < fields.len() && fields[k].0 == name;
    if other.0 != name {
        if fields.contains(other) {
            let i = choose|i: int| 0 <= i < fields.len() && fields[i] == other;
            assert(r[if set || i < k {
                i
            } else {
                i + 1
            }] == other);
        }
        if r.contains(other) {
            let i = choose|i: int| 0 <= i < r.len() && r[i] == other;
            assert(fields[if set || i < k {
                i
            } else {
                i - 1
            }] == other);
        }
    }
}

proof fn lemma_field_place(fields: Seq<(Seq<char>, JsonV)>, name: Seq<char>, i: int)
    requires
        0 <= i <= fields.len(),
    ensures
        i <= field_place(fields, name, i) <= fields.len(),
    decreases fields.len() - i,
{
    if i < fields.len() && !text_le(name, fields[i].0) {
        lemma_field_place(fields, name, i + 1);
    }
}

/// The fields of an object are printed under their names, each with its last value.
pub proof fn law_objects_keep_their_last_fields(
    fields: Seq<(Seq<char>, JsonV)>,
    name: Seq<char>,
    value: JsonV,
    other: (Seq<char>, JsonV),
)
    ensures
        ({
            let before = normal(JsonV::Object(fields))->Object_0;
            let after = normal(JsonV::Object(fields.push((name, value))))->Object_0;
            &&& after.contains((name, normal(value)))
            &&& other.0 != name ==> (after.contains(other) <==> before.contains(other))
        }),
        normal(JsonV::Object(Seq::empty()))->Object_0.len() == 0,
{
    assert(fields.push((name, value)).drop_last() =~= fields);
    law_setting_a_field(normal_fields(fields), name, normal(value), other);
}

} // verus!
