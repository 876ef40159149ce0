//! The JSON schemas that tools declare for their input.

use vstd::prelude::*;
use crate::json::{
    items_view,
    law_a_member_is_found_by_its_name,
    members_view,
    Json,
    JsonView,
};
use crate::text::texts;

verus! {

/// The schema of a field of a plain type.
pub open spec fn field_schema(kind: Seq<char>, description: Seq<char>) -> JsonView {
    JsonView::Object(
        seq![("description"@, JsonView::Str(description)), ("type"@, JsonView::Str(kind))],
    )
}

/// The names of fields as JSON strings.
pub open spec fn name_list(names: Seq<Seq<char>>) -> Seq<JsonView> {
    names.map_values(|n: Seq<char>| JsonView::Str(n))
}

/// The schema of an object with the given fields, some of them required.
pub open spec fn object_schema(
    properties: Seq<(Seq<char>, JsonView)>,
    required: Seq<Seq<char>>,
) -> JsonView {
    JsonView::Object(
        seq![
            ("properties"@, JsonView::Object(properties)),
            ("required"@, JsonView::Array(name_list(required))),
            ("type"@, JsonView::Str("object"@)),
        ],
    )
}

/// Texts as a JSON array.
pub fn string_array(v: &Vec<String>) -> (r: Json)
    ensures
        r@ == JsonView::Array(name_list(texts(v@))),
{
    let ghost all = name_list(texts(v@));
    let mut items: Vec<Json> = Vec::new();
    assert(items_view(items@) =~= Seq::empty());
    let mut i: usize = 0;
    while i < v.len()
        invariant
            i <= v@.len(),
            all == name_list(texts(v@)),
            items_view(items@) == all.take(i as int),
        decreases v@.len() - i,
    {
        Json::push_item(&mut items, Json::string(v[i].as_str()));
        assert(all.take(i + 1) =~= all.take(i as int).push(all[i as int]));
        i = i + 1;
    }
    assert(all.take(i as int) =~= all);
    Json::Array(items)
}

/// The schema of a field of a plain type.
pub fn field(kind: &str, description: &str) -> (r: Json)
    ensures
        r@ == field_schema(kind@, description@),
{
    let mut m: Vec<(String, Json)> = Json::no_members();
    Json::push_member(&mut m, "description", Json::string(description));
    Json::push_member(&mut m, "type", Json::string(kind));
    assert(members_view(m@) =~= seq![
        ("description"@, JsonView::Str(description@)),
        ("type"@, JsonView::Str(kind@)),
    ]);
    Json::Object(m)
}

/// The schema of an object without fields.
pub open spec fn empty_schema() -> JsonView {
    object_schema(Seq::empty(), Seq::empty())
}

/// The schema of an object without fields.
pub fn empty_object() -> (r: Json)
    ensures
        r@ == empty_schema(),
{
    let none: Vec<Json> = Vec::new();
    assert(items_view(none@) =~= name_list(Seq::empty()));
    object(Json::no_members(), none)
}

/// The schema of an object with the given fields and required names.
pub fn object(properties: Vec<(String, Json)>, required: Vec<Json>) -> (r: Json)
    ensures
        r@ == JsonView::Object(
            seq![
                ("properties"@, JsonView::Object(members_view(properties@))),
                ("required"@, JsonView::Array(items_view(required@))),
                ("type"@, JsonView::Str("object"@)),
            ],
        ),
{
    let props: Json = Json::Object(properties);
    let names: Json = Json::Array(required);
    let ghost p = props@;
    let ghost n = names@;
    let mut m: Vec<(String, Json)> = Json::no_members();
    Json::push_member(&mut m, "properties", props);
    Json::push_member(&mut m, "required", names);
    Json::push_member(&mut m, "type", Json::string("object"));
    assert(members_view(m@) =~= seq![
        ("properties"@, p),
        ("required"@, n),
        ("type"@, JsonView::Str("object"@)),
    ]);
    Json::Object(m)
}

/// A field's schema says of which type it is, and what it is for.
pub proof fn law_a_field_has_its_type(kind: Seq<char>, description: Seq<char>)
    ensures
        field_schema(kind, description).get_str("type"@) == Some(kind),
        field_schema(kind, description).get_str("description"@) == Some(description),
{
    let m = field_schema(kind, description)->Object_0;
    reveal_strlit("description");
    reveal_strlit("type");
    assert("description"@.len() != "type"@.len());
    assert(m[0].0 == "description"@);
    assert(m[1].0 == "type"@);
    law_a_member_is_found_by_its_name(m, 0);
    law_a_member_is_found_by_its_name(m, 1);
}

/// An object's schema says that it is an object, which properties it has, and
/// the names of those that it must have.
pub proof fn law_an_object_has_its_properties(
    properties: Seq<(Seq<char>, JsonView)>,
    required: Seq<Seq<char>>,
)
    ensures
        object_schema(properties, required).get_str("type"@) == Some("object"@),
        object_schema(properties, required).get("properties"@) == Some(
            JsonView::Object(properties),
        ),
        object_schema(properties, required).get_array("required"@) == Some(
            required.map_values(|name: Seq<char>| JsonView::Str(name)),
        ),
{
    let m = object_schema(properties, required)->Object_0;
    reveal_strlit("properties");
    reveal_strlit("required");
    reveal_strlit("type");
    assert("properties"@.len() != "required"@.len());
    assert("properties"@.len() != "type"@.len());
    assert("required"@.len() != "type"@.len());
    assert(m[0].0 == "properties"@);
    assert(m[1].0 == "required"@);
    assert(m[2].0 == "type"@);
    law_a_member_is_found_by_its_name(m, 0);
    law_a_member_is_found_by_its_name(m, 1);
    law_a_member_is_found_by_its_name(m, 2);
    assert(name_list(required) =~= required.map_values(|name: Seq<char>| JsonView::Str(name)));
}

} // verus!
