//! JSON schemas of tool arguments.
use crate::json::{
    field_models, json_str, law_fields_are_found_by_name, models, with_field, with_item, Json,
    JsonV,
};
use crate::text::texts;
use vstd::prelude::*;

verus! {

/// The schema of a text argument.
pub open spec fn text_arg(description: Seq<char>) -> JsonV {
    JsonV::Object(
        seq![("description"@, JsonV::Text(description)), ("type"@, JsonV::Text("string"@))],
    )
}

/// An array of texts.
pub open spec fn text_array(items: Seq<Seq<char>>) -> JsonV {
    JsonV::Array(items.map_values(|t: Seq<char>| JsonV::Text(t)))
}

/// The schema of an object with these properties, of which some are required.
pub open spec fn object_schema(
    properties: Seq<(Seq<char>, JsonV)>,
    required: Seq<Seq<char>>,
) -> JsonV {
    JsonV::Object(
        seq![
            ("properties"@, JsonV::Object(properties)),
            ("required"@, text_array(required)),
            ("type"@, JsonV::Text("object"@)),
        ],
    )
}

/// The schema of a text argument.
pub fn make_text_arg(description: &str) -> (r: Json)
    ensures
        r@ == text_arg(description@),
{
    let fields: Vec<(String, Json)> = Vec::new();
    let fields = with_field(fields, "description", json_str(description));
    let fields = with_field(fields, "type", json_str("string"));
    assert(field_models(fields@) =~= seq![
        ("description"@, JsonV::Text(description@)),
        ("type"@, JsonV::Text("string"@)),
    ]);
    Json::Object(fields)
}

/// An array of texts.
pub fn make_text_array(items: &Vec<String>) -> (r: Json)
    ensures
        r@ == text_array(texts(items@)),
{
    let ghost all = texts(items@).map_values(|t: Seq<char>| JsonV::Text(t));
    let mut r: Vec<Json> = Vec::new();
    let mut i: usize = 0;
    assert(models(r@) =~= all.take(0));
    while i < items.len()
        invariant
            i <= items@.len(),
            all == texts(items@).map_values(|t: Seq<char>| JsonV::Text(t)),
            models(r@) == all.take(i as int),
        decreases items@.len() - i,
    {
        r = with_item(r, json_str(items[i].as_str()));
        assert(all.take(i + 1) =~= all.take(i as int).push(all[i as int]));
        i += 1;
    }
    assert(all.take(i as int) =~= all);
    Json::Array(r)
}

/// The schema of an object.
pub fn make_object_schema(properties: Vec<(String, Json)>, required: &Vec<String>) -> (r: Json)
    ensures
        r@ == object_schema(field_models(properties@), texts(required@)),
{
    let fields: Vec<(String, Json)> = Vec::new();
    let fields = with_field(fields, "properties", Json::Object(properties));
    let fields = with_field(fields, "required", make_text_array(required));
    let fields = with_field(fields, "type", json_str("object"));
    let r = Json::Object(fields);
    assert(r@->Object_0 =~= object_schema(
        field_models(properties@),
        texts(required@),
    )->Object_0);
    r
}

/// The schema of a text argument that is one of some choices.
pub open spec fn choice_arg(description: Seq<char>, choices: Seq<Seq<char>>) -> JsonV {
    JsonV::Object(
        seq![
            ("description"@, JsonV::Text(description)),
            ("enum"@, text_array(choices)),
            ("type"@, JsonV::Text("string"@)),
        ],
    )
}

/// The schema of a text argument that is one of some choices.
pub fn make_choice_arg(description: &str, choices: &Vec<String>) -> (r: Json)
    ensures
        r@ == choice_arg(description@, texts(choices@)),
{
    let fields: Vec<(String, Json)> = Vec::new();
    let fields = with_field(fields, "description", json_str(description));
    let fields = with_field(fields, "enum", make_text_array(choices));
    let fields = with_field(fields, "type", json_str("string"));
    let r = Json::Object(fields);
    assert(r@->Object_0 =~= choice_arg(description@, texts(choices@))->Object_0);
    r
}

/// The schema of an argument that is a list of texts.
pub open spec fn list_arg(description: Seq<char>) -> JsonV {
    JsonV::Object(
        seq![
            ("description"@, JsonV::Text(description)),
            ("items"@, JsonV::Object(seq![("type"@, JsonV::Text("string"@))])),
            ("type"@, JsonV::Text("array"@)),
        ],
    )
}

/// The schema of an argument that is a list of texts.
pub fn make_list_arg(description: &str) -> (r: Json)
    ensures
        r@ == list_arg(description@),
{
    let item: Vec<(String, Json)> = Vec::new();
    let item = with_field(item, "type", json_str("string"));
    let items = Json::Object(item);
    assert(items@->Object_0 =~= seq![("type"@, JsonV::Text("string"@))]);
    let fields: Vec<(String, Json)> = Vec::new();
    let fields = with_field(fields, "description", json_str(description));
    let fields = with_field(fields, "items", items);
    let fields = with_field(fields, "type", json_str("array"));
    let r = Json::Object(fields);
    assert(r@->Object_0 =~= list_arg(description@)->Object_0);
    r
}

/// The schema of an object with one text argument, which is required.
pub open spec fn one_arg_schema(name: Seq<char>, description: Seq<char>) -> JsonV {
    object_schema(seq![(name, text_arg(description))], seq![name])
}

/// The schema of an object with one text argument, which is required.
pub fn make_one_arg_schema(name: &str, description: &str) -> (r: Json)
    ensures
        r@ == one_arg_schema(name@, description@),
{
    let props: Vec<(String, Json)> = Vec::new();
    let props = with_field(props, name, make_text_arg(description));
    assert(field_models(props@) =~= seq![(name@, text_arg(description@))]);
    let mut required: Vec<String> = Vec::new();
    required.push(name.to_owned());
    assert(texts(required@) =~= seq![name@]);
    make_object_schema(props, &required)
}

/// A schema describes an object with the given arguments and tells which of them are required; an
/// argument carries its description and its kind.
pub proof fn law_schemas_describe_their_arguments(
    properties: Seq<(Seq<char>, JsonV)>,
    names: Seq<Seq<char>>,
    description: Seq<char>,
)
    ensures
        object_schema(properties, names).field("type"@) == Some(JsonV::Text("object"@)),
        object_schema(properties, names).field("properties"@) == Some(JsonV::Object(properties)),
        object_schema(properties, names).field("required"@) is Some,
        lists(object_schema(properties, names).field("required"@)->0, names),
        text_arg(description).field("type"@) == Some(JsonV::Text("string"@)),
        text_arg(description).field("description"@) == Some(JsonV::Text(description)),
        choice_arg(description, names).field("type"@) == Some(JsonV::Text("string"@)),
        choice_arg(description, names).field("description"@) == Some(JsonV::Text(description)),
        choice_arg(description, names).field("enum"@) is Some,
        lists(choice_arg(description, names).field("enum"@)->0, names),
        list_arg(description).field("type"@) == Some(JsonV::Text("array"@)),
        list_arg(description).field("description"@) == Some(JsonV::Text(description)),
        list_arg(description).field("items"@) is Some,
        list_arg(description).field("items"@)->0.field("type"@) == Some(JsonV::Text("string"@)),
{
    reveal_strlit("type");
    reveal_strlit("properties");
    reveal_strlit("required");
    reveal_strlit("description");
    reveal_strlit("enum");
    reveal_strlit("items");
    assert("type"@.len() == 4 && "properties"@.len() == 10 && "required"@.len() == 8);
    assert("description"@.len() == 11 && "enum"@.len() == 4 && "items"@.len() == 5);
    assert("type"@[0] != "enum"@[0]);
    let o = object_schema(properties, names)->Object_0;
    law_fields_are_found_by_name(o, "properties"@, 0);
    law_fields_are_found_by_name(o, "required"@, 1);
    law_fields_are_found_by_name(o, "type"@, 2);
    let t = text_arg(description)->Object_0;
    law_fields_are_found_by_name(t, "description"@, 0);
    law_fields_are_found_by_name(t, "type"@, 1);
    let c = choice_arg(description, names)->Object_0;
    law_fields_are_found_by_name(c, "description"@, 0);
    law_fields_are_found_by_name(c, "enum"@, 1);
    law_fields_are_found_by_name(c, "type"@, 2);
    let l = list_arg(description)->Object_0;
    law_fields_are_found_by_name(l, "description"@, 0);
    law_fields_are_found_by_name(l, "items"@, 1);
    law_fields_are_found_by_name(l, "type"@, 2);
    law_fields_are_found_by_name(l[1].1->Object_0, "type"@, 0);
}

/// Whether a value is the array of the given texts.
pub open spec fn lists(j: JsonV, names: Seq<Seq<char>>) -> bool {
    &&& j is Array
    &&& j->Array_0.len() == names.len()
    &&& forall|i: int| 0 <= i < names.len() ==> #[trigger] j->Array_0[i] == JsonV::Text(names[i])
}

/// A tool with one argument has that argument, and requires it.
pub proof fn law_one_argument_is_required(name: Seq<char>, description: Seq<char>)
    ensures
        one_arg_schema(name, description).field("required"@) is Some,
        lists(one_arg_schema(name, description).field("required"@)->0, seq![name]),
        one_arg_schema(name, description).field("properties"@) is Some,
        one_arg_schema(name, description).field("properties"@)->0.field(name) == Some(
            text_arg(description),
        ),
{
    let p = seq![(name, text_arg(description))];
    law_schemas_describe_their_arguments(p, seq![name], description);
    law_fields_are_found_by_name(p, name, 0);
}

} // verus!
