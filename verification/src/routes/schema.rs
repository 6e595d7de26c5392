//! The schema edits behind the attribute routes: where in the schema
//! document an attribute goes, and what a failed edit is answered with.

use vstd::prelude::*;
use crate::errors::{AgentError, AgentErrorView};
use crate::schemas::json::{
    AttrEdit, AttrEditView, EditFailure, Json, JsonValue, at_path, edit_at, edit_at_spec,
    get_at_path, clone_json, json_view, keys_view, lemma_add_then_remove, lemma_edit_keeps_prefix,
    lemma_edit_keeps_well_formed, lemma_object_view, well_formed,
    members_view, keys_distinct, lemma_add_member_exactly_when_absent,
    lemma_remove_takes_out_exactly_the_member,
};
use crate::schemas::schema::{AttributeSchema, DeleteAttributeSchema, GenericAttributeSchema};
use crate::routes::mutation::{MutationFlow, Step, lemma_replace_course, oks, rolled_back_reason, run, start_replace};
use crate::text::concat3;

verus! {

/// The member names that lead from the schema document to the entity
/// type `entity_type` of namespace `namespace`.
pub open spec fn entity_path(namespace: Seq<char>, entity_type: Seq<char>) -> Seq<Seq<char>> {
    seq![namespace, "entityTypes"@, entity_type]
}

/// The member names that lead from the schema document to the attributes
/// of the entity type `entity_type` of namespace `namespace`.
pub open spec fn attributes_path(namespace: Seq<char>, entity_type: Seq<char>) -> Seq<Seq<char>> {
    seq![namespace, "entityTypes"@, entity_type, "shape"@, "attributes"@]
}

/// The description of an attribute in the schema document.
pub open spec fn attribute_json(attr_type: Seq<char>, required: bool) -> Json {
    Json::Object(seq![("type"@, Json::Str(attr_type)), ("required"@, Json::Bool(required))])
}

/// The identifier of attribute `name` of `entity_type` in error answers.
pub open spec fn attribute_id(entity_type: Seq<char>, name: Seq<char>) -> Seq<char> {
    entity_type + "::"@ + name
}

/// The answer to a failed edit of the `User` or `Table` attributes.
pub open spec fn entity_edit_error(entity_type: Seq<char>, name: Seq<char>, f: EditFailure) -> AgentErrorView {
    match f {
        EditFailure::Duplicate => AgentErrorView::Duplicate {
            object: "Attribute"@,
            id: attribute_id(entity_type, name),
        },
        EditFailure::NotFound => AgentErrorView::NotFound {
            object: "Attribute"@,
            id: attribute_id(entity_type, name),
        },
        _ => AgentErrorView::BadRequest {
            reason: "Entity type '"@ + entity_type + "' not found in schema"@,
        },
    }
}

/// The answer to a failed edit of the attributes of any entity type: a
/// missing step of the path is named.
pub open spec fn generic_edit_error(
    namespace: Seq<char>,
    entity_type: Seq<char>,
    name: Seq<char>,
    f: EditFailure,
) -> AgentErrorView {
    match f {
        EditFailure::Missing(d) => AgentErrorView::BadRequest {
            reason: if d == 0 {
                "Namespace '"@ + namespace + "' not found in schema"@
            } else if d == 1 {
                "entityTypes not found in namespace '"@ + namespace + "'"@
            } else if d == 2 {
                "Entity type '"@ + entity_type + "' not found in schema"@
            } else if d == 3 {
                "Shape not found for entity type '"@ + entity_type + "'"@
            } else {
                "Attributes not found for entity type '"@ + entity_type + "'"@
            },
        },
        EditFailure::NotObject => AgentErrorView::BadRequest {
            reason: "Attributes is not an object for entity type '"@ + entity_type + "'"@,
        },
        _ => entity_edit_error(entity_type, name, f),
    }
}

/// The outcome of an edit, answered with `err` on failure.
pub open spec fn edit_outcome(e: Result<Json, EditFailure>, err: AgentErrorView) -> Result<Json, AgentErrorView> {
    match e {
        Ok(j) => Ok(j),
        Err(_) => Err(err),
    }
}

/// The path `[namespace, "entityTypes", entity_type, "shape", "attributes"]`.
fn make_attributes_path(namespace: &str, entity_type: &str) -> (r: Vec<String>)
    ensures
        keys_view(r@) == attributes_path(namespace@, entity_type@),
{
    let r = vec![
        namespace.to_owned(),
        "entityTypes".to_owned(),
        entity_type.to_owned(),
        "shape".to_owned(),
        "attributes".to_owned(),
    ];
    assert(keys_view(r@) =~= attributes_path(namespace@, entity_type@));
    r
}

/// The path `[namespace, "entityTypes", entity_type]`.
fn make_entity_path(namespace: &str, entity_type: &str) -> (r: Vec<String>)
    ensures
        keys_view(r@) == entity_path(namespace@, entity_type@),
{
    let r = vec![namespace.to_owned(), "entityTypes".to_owned(), entity_type.to_owned()];
    assert(keys_view(r@) =~= entity_path(namespace@, entity_type@));
    r
}

/// The description of an attribute: its type and whether it is required.
fn make_attribute_json(attr_type: &String, required: bool) -> (r: JsonValue)
    ensures
        r@ == attribute_json(attr_type@, required),
{
    let t = "type".to_owned();
    let q = "required".to_owned();
    let mut ms: Vec<(String, JsonValue)> = Vec::new();
    ms.push((t, JsonValue::String(attr_type.clone())));
    ms.push((q, JsonValue::Bool(required)));
    proof {
        lemma_object_view(ms);
        assert(json_view(ms@[0].1) == Json::Str(attr_type@));
        assert(json_view(ms@[1].1) == Json::Bool(required));
        assert(members_view(ms@) =~= seq![("type"@, Json::Str(attr_type@)), ("required"@, Json::Bool(required))]);
    }
    JsonValue::Object(ms)
}

fn entity_error(entity_type: &str, name: &str, f: EditFailure) -> (r: AgentError)
    ensures
        r@ == entity_edit_error(entity_type@, name@, f),
{
    match f {
        EditFailure::Duplicate => AgentError::Duplicate {
            object: "Attribute",
            id: concat3(entity_type, "::", name),
        },
        EditFailure::NotFound => AgentError::NotFound {
            object: "Attribute",
            id: concat3(entity_type, "::", name),
        },
        _ => AgentError::BadRequest {
            reason: concat3("Entity type '", entity_type, "' not found in schema"),
        },
    }
}

fn generic_error(namespace: &str, entity_type: &str, name: &str, f: EditFailure) -> (r: AgentError)
    ensures
        r@ == generic_edit_error(namespace@, entity_type@, name@, f),
{
    match f {
        EditFailure::Missing(d) => AgentError::BadRequest {
            reason: if d == 0 {
                concat3("Namespace '", namespace, "' not found in schema")
            } else if d == 1 {
                concat3("entityTypes not found in namespace '", namespace, "'")
            } else if d == 2 {
                concat3("Entity type '", entity_type, "' not found in schema")
            } else if d == 3 {
                concat3("Shape not found for entity type '", entity_type, "'")
            } else {
                concat3("Attributes not found for entity type '", entity_type, "'")
            },
        },
        EditFailure::NotObject => AgentError::BadRequest {
            reason: concat3("Attributes is not an object for entity type '", entity_type, "'"),
        },
        _ => entity_error(entity_type, name, f),
    }
}

/// Adds attribute `attr` to entity type `entity_type` of the empty
/// namespace. Gives back the changed schema and the changed entity type's
/// description.
pub fn add_entity_attribute(schema: JsonValue, entity_type: &str, attr: &AttributeSchema) -> (r:
    Result<(JsonValue, JsonValue), AgentError>)
    ensures
        ({
            let e = edit_at_spec(
                schema@,
                attributes_path(""@, entity_type@),
                0,
                AttrEditView::Add(attr.name@, attribute_json(attr.attr_type@, attr.required)),
            );
            &&& r is Ok <==> e is Ok
            &&& r matches Ok((s, ent)) ==> s@ == e->Ok_0 && Some(ent@) == at_path(
                s@,
                entity_path(""@, entity_type@),
                0,
            )
            &&& r matches Err(err) ==> err@ == entity_edit_error(entity_type@, attr.name@, e->Err_0)
        }),
{
    let path = make_attributes_path("", entity_type);
    let value = make_attribute_json(attr.get_type(), attr.is_required());
    let edit = AttrEdit::Add { name: attr.get_name().clone(), value };
    let ghost path_v = keys_view(path@);
    match edit_at(schema, &path, 0, &edit) {
        Err(f) => Err(entity_error(entity_type, attr.get_name().as_str(), f)),
        Ok(s) => {
            let epath = make_entity_path("", entity_type);
            proof {
                lemma_edit_keeps_prefix(schema@, path_v, keys_view(epath@), 0, edit@);
            }
            match get_at_path(&s, &epath, 0) {
                Some(ent) => {
                    let ent = clone_json(ent);
                    Ok((s, ent))
                },
                None => Err(entity_error(entity_type, attr.get_name().as_str(), EditFailure::Missing(2))),
            }
        },
    }
}

/// Removes attribute `attr_name` from entity type `entity_type` of the
/// empty namespace. Gives back the changed schema.
pub fn delete_entity_attribute(schema: JsonValue, entity_type: &str, attr_name: &String) -> (r: Result<
    JsonValue,
    AgentError,
>)
    ensures
        ({
            let e = edit_at_spec(
                schema@,
                attributes_path(""@, entity_type@),
                0,
                AttrEditView::Remove(attr_name@),
            );
            &&& r is Ok <==> e is Ok
            &&& r matches Ok(s) ==> s@ == e->Ok_0
            &&& r matches Err(err) ==> err@ == entity_edit_error(entity_type@, attr_name@, e->Err_0)
        }),
{
    let path = make_attributes_path("", entity_type);
    let edit = AttrEdit::Remove { name: attr_name.clone() };
    match edit_at(schema, &path, 0, &edit) {
        Err(f) => Err(entity_error(entity_type, attr_name.as_str(), f)),
        Ok(s) => Ok(s),
    }
}

/// The schema with attribute `attr` added to the `User` entity type, and
/// the changed `User` description. This is the edit alone; the request that
/// stores it runs the course that `start_add_user_attribute` begins.
pub fn add_user_attribute(schema: JsonValue, attr: &AttributeSchema) -> (r: Result<
    (JsonValue, JsonValue),
    AgentError,
>)
    ensures
        ({
            let e = edit_at_spec(
                schema@,
                attributes_path(""@, "User"@),
                0,
                AttrEditView::Add(attr.name@, attribute_json(attr.attr_type@, attr.required)),
            );
            &&& r is Ok <==> e is Ok
            &&& r matches Ok((s, ent)) ==> s@ == e->Ok_0 && Some(ent@) == at_path(
                s@,
                entity_path(""@, "User"@),
                0,
            )
            &&& r matches Err(err) ==> err@ == entity_edit_error("User"@, attr.name@, e->Err_0)
        }),
{
    add_entity_attribute(schema, "User", attr)
}

/// The schema with attribute `attr` added to the `Table` entity type, and
/// the changed `Table` description. This is the edit alone; the request that
/// stores it runs the course that `start_add_table_attribute` begins.
pub fn add_table_attribute(schema: JsonValue, attr: &AttributeSchema) -> (r: Result<
    (JsonValue, JsonValue),
    AgentError,
>)
    ensures
        ({
            let e = edit_at_spec(
                schema@,
                attributes_path(""@, "Table"@),
                0,
                AttrEditView::Add(attr.name@, attribute_json(attr.attr_type@, attr.required)),
            );
            &&& r is Ok <==> e is Ok
            &&& r matches Ok((s, ent)) ==> s@ == e->Ok_0 && Some(ent@) == at_path(
                s@,
                entity_path(""@, "Table"@),
                0,
            )
            &&& r matches Err(err) ==> err@ == entity_edit_error("Table"@, attr.name@, e->Err_0)
        }),
{
    add_entity_attribute(schema, "Table", attr)
}

/// The schema without attribute `attr_name` of the `User` entity type. This
/// is the edit alone; the request that stores it runs the course that
/// `start_delete_user_attribute` begins.
pub fn delete_user_attribute(schema: JsonValue, attr_name: &String) -> (r: Result<JsonValue, AgentError>)
    ensures
        ({
            let e = edit_at_spec(schema@, attributes_path(""@, "User"@), 0, AttrEditView::Remove(attr_name@));
            &&& r is Ok <==> e is Ok
            &&& r matches Ok(s) ==> s@ == e->Ok_0
            &&& r matches Err(err) ==> err@ == entity_edit_error("User"@, attr_name@, e->Err_0)
        }),
{
    delete_entity_attribute(schema, "User", attr_name)
}

/// The schema without attribute `attr_name` of the `Table` entity type. This
/// is the edit alone; the request that stores it runs the course that
/// `start_delete_table_attribute` begins.
pub fn delete_table_attribute(schema: JsonValue, attr_name: &String) -> (r: Result<JsonValue, AgentError>)
    ensures
        ({
            let e = edit_at_spec(schema@, attributes_path(""@, "Table"@), 0, AttrEditView::Remove(attr_name@));
            &&& r is Ok <==> e is Ok
            &&& r matches Ok(s) ==> s@ == e->Ok_0
            &&& r matches Err(err) ==> err@ == entity_edit_error("Table"@, attr_name@, e->Err_0)
        }),
{
    delete_entity_attribute(schema, "Table", attr_name)
}

/// The namespace a request names, the empty one when it names none.
pub open spec fn namespace_of(ns: Option<String>) -> Seq<char> {
    match ns {
        Some(n) => n@,
        None => Seq::empty(),
    }
}

fn namespace_or_default(ns: &Option<String>) -> (r: String)
    ensures
        r@ == namespace_of(*ns),
{
    match ns {
        Some(n) => n.clone(),
        None => String::new(),
    }
}

/// The schema with attribute `attr` added to the entity type it names. This
/// is the edit alone; the request that stores it runs the course that
/// `start_add_generic_attribute` begins.
pub fn add_generic_attribute(schema: JsonValue, attr: &GenericAttributeSchema) -> (r: Result<
    JsonValue,
    AgentError,
>)
    ensures
        ({
            let ns = namespace_of(attr.namespace);
            let e = edit_at_spec(
                schema@,
                attributes_path(ns, attr.entity_type@),
                0,
                AttrEditView::Add(attr.name@, attribute_json(attr.attr_type@, attr.required)),
            );
            &&& r is Ok <==> e is Ok
            &&& r matches Ok(s) ==> s@ == e->Ok_0
            &&& r matches Err(err) ==> err@ == generic_edit_error(ns, attr.entity_type@, attr.name@, e->Err_0)
        }),
{
    let namespace = namespace_or_default(&attr.namespace);
    let path = make_attributes_path(namespace.as_str(), attr.entity_type.as_str());
    let value = make_attribute_json(&attr.attr_type, attr.required);
    let edit = AttrEdit::Add { name: attr.name.clone(), value };
    match edit_at(schema, &path, 0, &edit) {
        Err(f) => Err(generic_error(namespace.as_str(), attr.entity_type.as_str(), attr.name.as_str(), f)),
        Ok(s) => Ok(s),
    }
}

/// The schema without the attribute `attr` names. This is the edit alone;
/// the request that stores it runs the course that
/// `start_delete_generic_attribute` begins.
pub fn delete_generic_attribute(schema: JsonValue, attr: &DeleteAttributeSchema) -> (r: Result<
    JsonValue,
    AgentError,
>)
    ensures
        ({
            let ns = namespace_of(attr.namespace);
            let e = edit_at_spec(schema@, attributes_path(ns, attr.entity_type@), 0, AttrEditView::Remove(attr.name@));
            &&& r is Ok <==> e is Ok
            &&& r matches Ok(s) ==> s@ == e->Ok_0
            &&& r matches Err(err) ==> err@ == generic_edit_error(ns, attr.entity_type@, attr.name@, e->Err_0)
        }),
{
    let namespace = namespace_or_default(&attr.namespace);
    let path = make_attributes_path(namespace.as_str(), attr.entity_type.as_str());
    let edit = AttrEdit::Remove { name: attr.name.clone() };
    match edit_at(schema, &path, 0, &edit) {
        Err(f) => Err(generic_error(namespace.as_str(), attr.entity_type.as_str(), attr.name.as_str(), f)),
        Ok(s) => Ok(s),
    }
}

/// Deleting an attribute right after adding it to the same entity type
/// of the same namespace gives back the schema document as it was.
pub proof fn lemma_add_then_delete_attribute(
    schema: Json,
    namespace: Seq<char>,
    entity_type: Seq<char>,
    name: Seq<char>,
    attr_type: Seq<char>,
    required: bool,
)
    requires
        edit_at_spec(
            schema,
            attributes_path(namespace, entity_type),
            0,
            AttrEditView::Add(name, attribute_json(attr_type, required)),
        ) is Ok,
    ensures
        edit_at_spec(
            edit_at_spec(
                schema,
                attributes_path(namespace, entity_type),
                0,
                AttrEditView::Add(name, attribute_json(attr_type, required)),
            )->Ok_0,
            attributes_path(namespace, entity_type),
            0,
            AttrEditView::Remove(name),
        ) == Ok::<Json, EditFailure>(schema),
{
    lemma_add_then_remove(schema, attributes_path(namespace, entity_type), 0, name, attribute_json(attr_type, required));
}

/// The description of an attribute is itself well formed.
pub proof fn lemma_attribute_json_well_formed(attr_type: Seq<char>, required: bool)
    ensures
        well_formed(attribute_json(attr_type, required)),
{
    reveal_strlit("type");
    reveal_strlit("required");
    let ms = seq![("type"@, Json::Str(attr_type)), ("required"@, Json::Bool(required))];
    assert(ms[0].0 != ms[1].0) by {
        assert(ms[0].0.len() != ms[1].0.len());
    }
    assert(well_formed(ms[0].1));
    assert(well_formed(ms[1].1));
}

/// Adding or removing an attribute keeps a well-formed schema document
/// well formed: no object ends up with two members of one name.
pub proof fn lemma_attribute_edit_keeps_well_formed(
    schema: Json,
    namespace: Seq<char>,
    entity_type: Seq<char>,
    name: Seq<char>,
    attr_type: Seq<char>,
    required: bool,
    add: bool,
)
    requires
        well_formed(schema),
        ({
            let edit = if add {
                AttrEditView::Add(name, attribute_json(attr_type, required))
            } else {
                AttrEditView::Remove(name)
            };
            edit_at_spec(schema, attributes_path(namespace, entity_type), 0, edit) is Ok
        }),
    ensures
        ({
            let edit = if add {
                AttrEditView::Add(name, attribute_json(attr_type, required))
            } else {
                AttrEditView::Remove(name)
            };
            well_formed(edit_at_spec(schema, attributes_path(namespace, entity_type), 0, edit)->Ok_0)
        }),
{
    lemma_attribute_json_well_formed(attr_type, required);
    let edit = if add {
        AttrEditView::Add(name, attribute_json(attr_type, required))
    } else {
        AttrEditView::Remove(name)
    };
    lemma_edit_keeps_well_formed(schema, attributes_path(namespace, entity_type), 0, edit);
}

/// The attribute routes add to the attributes of the entity type they
/// name, in the namespace they name (the empty one for `User` and
/// `Table`): the object at `[namespace, "entityTypes", entity_type,
/// "shape", "attributes"]`, where the entity type is looked up by its own
/// name. Where that object `attrs` exists, adding attribute `name`
/// succeeds exactly when `attrs` has no attribute of that very name, is
/// refused as a duplicate otherwise, and on success that object becomes
/// `attrs` with the attribute's description added under `name`.
pub proof fn lemma_attribute_add_edits_named_entity_type(
    schema: Json,
    namespace: Seq<char>,
    entity_type: Seq<char>,
    attrs: Seq<(Seq<char>, Json)>,
    name: Seq<char>,
    attr_type: Seq<char>,
    required: bool,
)
    requires
        at_path(schema, seq![namespace, "entityTypes"@, entity_type, "shape"@, "attributes"@], 0) == Some(
            Json::Object(attrs),
        ),
    ensures
        ({
            let e = edit_at_spec(
                schema,
                attributes_path(namespace, entity_type),
                0,
                AttrEditView::Add(name, attribute_json(attr_type, required)),
            );
            &&& e is Ok <==> (forall|i: int| 0 <= i < attrs.len() ==> (#[trigger] attrs[i]).0 != name)
            &&& e is Err ==> e == Err::<Json, EditFailure>(EditFailure::Duplicate)
            &&& e matches Ok(s) ==> at_path(
                s,
                seq![namespace, "entityTypes"@, entity_type, "shape"@, "attributes"@],
                0,
            ) == Some(Json::Object(attrs.push((name, attribute_json(attr_type, required)))))
        }),
{
    let path = seq![namespace, "entityTypes"@, entity_type, "shape"@, "attributes"@];
    assert(attributes_path(namespace, entity_type) =~= path);
    lemma_add_member_exactly_when_absent(schema, path, attrs, name, attribute_json(attr_type, required));
}

/// The attribute routes delete from the attributes of the entity type they
/// name, in the namespace they name: the object at `[namespace,
/// "entityTypes", entity_type, "shape", "attributes"]`. Where that object
/// `attrs` exists with distinct names, deleting attribute `name` succeeds
/// exactly when `attrs` has it, is answered "not found" otherwise, and on
/// success that object holds every other attribute of `attrs` with its
/// description, and no attribute `name`.
pub proof fn lemma_attribute_delete_edits_named_entity_type(
    schema: Json,
    namespace: Seq<char>,
    entity_type: Seq<char>,
    attrs: Seq<(Seq<char>, Json)>,
    name: Seq<char>,
)
    requires
        at_path(schema, seq![namespace, "entityTypes"@, entity_type, "shape"@, "attributes"@], 0) == Some(
            Json::Object(attrs),
        ),
        keys_distinct(attrs),
    ensures
        ({
            let e = edit_at_spec(schema, attributes_path(namespace, entity_type), 0, AttrEditView::Remove(name));
            &&& e is Ok <==> (exists|i: int| 0 <= i < attrs.len() && (#[trigger] attrs[i]).0 == name)
            &&& e is Err ==> e == Err::<Json, EditFailure>(EditFailure::NotFound)
            &&& e matches Ok(s) ==> (at_path(
                s,
                seq![namespace, "entityTypes"@, entity_type, "shape"@, "attributes"@],
                0,
            ) matches Some(Json::Object(out)) && out.len() + 1 == attrs.len()
                && (forall|i: int| 0 <= i < out.len() ==> (#[trigger] out[i]).0 != name)
                && (forall|i: int| 0 <= i < attrs.len() && (#[trigger] attrs[i]).0 != name ==> out.contains(attrs[i]))
                && (forall|i: int| 0 <= i < out.len() ==> attrs.contains(#[trigger] out[i])))
        }),
{
    let path = seq![namespace, "entityTypes"@, entity_type, "shape"@, "attributes"@];
    assert(attributes_path(namespace, entity_type) =~= path);
    lemma_remove_takes_out_exactly_the_member(schema, path, attrs, name);
}

/// Starts the request that adds attribute `attr` to the `User` entity
/// type: the edited schema is what the course puts in place, the schema
/// as it was, with `previous_policies` and `previous_entities`, what its
/// rollback puts back. Also gives the answer, the
/// changed `User` description.
pub fn start_add_user_attribute<P, E>(
    schema: JsonValue,
    attr: &AttributeSchema,
    previous_policies: P,
    previous_entities: E,
) -> (r: Result<
    (MutationFlow<P, E>, JsonValue),
    AgentError,
>)
    ensures
        ({
            let e = edit_at_spec(
                schema@,
                attributes_path(""@, "User"@),
                0,
                AttrEditView::Add(attr.name@, attribute_json(attr.attr_type@, attr.required)),
            );
            &&& r is Ok <==> e is Ok
            &&& r matches Ok((f, ent)) ==> f@ == start_replace(e->Ok_0, schema@, previous_policies, previous_entities) && Some(ent@) == at_path(
                e->Ok_0,
                entity_path(""@, "User"@),
                0,
            )
            &&& r matches Err(err) ==> err@ == entity_edit_error("User"@, attr.name@, e->Err_0)
        }),
{
    let previous = clone_json(&schema);
    match add_entity_attribute(schema, "User", attr) {
        Err(e) => Err(e),
        Ok((s, ent)) => Ok((MutationFlow::replace_schema(s, previous, previous_policies, previous_entities), ent)),
    }
}

/// Starts the request that adds attribute `attr` to the `Table` entity
/// type: the edited schema is what the course puts in place, the schema
/// as it was, with `previous_policies` and `previous_entities`, what its
/// rollback puts back. Also gives the answer, the
/// changed `Table` description.
pub fn start_add_table_attribute<P, E>(
    schema: JsonValue,
    attr: &AttributeSchema,
    previous_policies: P,
    previous_entities: E,
) -> (r: Result<
    (MutationFlow<P, E>, JsonValue),
    AgentError,
>)
    ensures
        ({
            let e = edit_at_spec(
                schema@,
                attributes_path(""@, "Table"@),
                0,
                AttrEditView::Add(attr.name@, attribute_json(attr.attr_type@, attr.required)),
            );
            &&& r is Ok <==> e is Ok
            &&& r matches Ok((f, ent)) ==> f@ == start_replace(e->Ok_0, schema@, previous_policies, previous_entities) && Some(ent@) == at_path(
                e->Ok_0,
                entity_path(""@, "Table"@),
                0,
            )
            &&& r matches Err(err) ==> err@ == entity_edit_error("Table"@, attr.name@, e->Err_0)
        }),
{
    let previous = clone_json(&schema);
    match add_entity_attribute(schema, "Table", attr) {
        Err(e) => Err(e),
        Ok((s, ent)) => Ok((MutationFlow::replace_schema(s, previous, previous_policies, previous_entities), ent)),
    }
}

/// Starts the request that removes attribute `attr_name` from the `User`
/// entity type: the edited schema is what the course puts in place, the
/// schema as it was, with `previous_policies` and `previous_entities`, what
/// its rollback puts back.
pub fn start_delete_user_attribute<P, E>(
    schema: JsonValue,
    attr_name: &String,
    previous_policies: P,
    previous_entities: E,
) -> (r: Result<MutationFlow<P, E>, AgentError>)
    ensures
        ({
            let e = edit_at_spec(schema@, attributes_path(""@, "User"@), 0, AttrEditView::Remove(attr_name@));
            &&& r is Ok <==> e is Ok
            &&& r matches Ok(f) ==> f@ == start_replace(e->Ok_0, schema@, previous_policies, previous_entities)
            &&& r matches Err(err) ==> err@ == entity_edit_error("User"@, attr_name@, e->Err_0)
        }),
{
    let previous = clone_json(&schema);
    match delete_entity_attribute(schema, "User", attr_name) {
        Err(e) => Err(e),
        Ok(s) => Ok(MutationFlow::replace_schema(s, previous, previous_policies, previous_entities)),
    }
}

/// Starts the request that removes attribute `attr_name` from the `Table`
/// entity type: the edited schema is what the course puts in place, the
/// schema as it was, with `previous_policies` and `previous_entities`, what
/// its rollback puts back.
pub fn start_delete_table_attribute<P, E>(
    schema: JsonValue,
    attr_name: &String,
    previous_policies: P,
    previous_entities: E,
) -> (r: Result<MutationFlow<P, E>, AgentError>)
    ensures
        ({
            let e = edit_at_spec(schema@, attributes_path(""@, "Table"@), 0, AttrEditView::Remove(attr_name@));
            &&& r is Ok <==> e is Ok
            &&& r matches Ok(f) ==> f@ == start_replace(e->Ok_0, schema@, previous_policies, previous_entities)
            &&& r matches Err(err) ==> err@ == entity_edit_error("Table"@, attr_name@, e->Err_0)
        }),
{
    let previous = clone_json(&schema);
    match delete_entity_attribute(schema, "Table", attr_name) {
        Err(e) => Err(e),
        Ok(s) => Ok(MutationFlow::replace_schema(s, previous, previous_policies, previous_entities)),
    }
}

/// Starts the request that adds attribute `attr` to the entity type it
/// names: the edited schema is what the course puts in place and also the
/// answer; the schema as it was, with `previous_policies` and
/// `previous_entities`, is what its rollback puts back.
pub fn start_add_generic_attribute<P, E>(
    schema: JsonValue,
    attr: &GenericAttributeSchema,
    previous_policies: P,
    previous_entities: E,
) -> (r: Result<
    (MutationFlow<P, E>, JsonValue),
    AgentError,
>)
    ensures
        ({
            let ns = namespace_of(attr.namespace);
            let e = edit_at_spec(
                schema@,
                attributes_path(ns, attr.entity_type@),
                0,
                AttrEditView::Add(attr.name@, attribute_json(attr.attr_type@, attr.required)),
            );
            &&& r is Ok <==> e is Ok
            &&& r matches Ok((f, answer)) ==> f@ == start_replace(e->Ok_0, schema@, previous_policies, previous_entities) && answer@ == e->Ok_0
            &&& r matches Err(err) ==> err@ == generic_edit_error(ns, attr.entity_type@, attr.name@, e->Err_0)
        }),
{
    let previous = clone_json(&schema);
    match add_generic_attribute(schema, attr) {
        Err(e) => Err(e),
        Ok(s) => {
            let answer = clone_json(&s);
            Ok((MutationFlow::replace_schema(s, previous, previous_policies, previous_entities), answer))
        },
    }
}

/// Starts the request that removes the attribute `attr` names: the edited
/// schema is what the course puts in place; the schema as it was, with
/// `previous_policies` and `previous_entities`, is what its rollback puts back.
pub fn start_delete_generic_attribute<P, E>(
    schema: JsonValue,
    attr: &DeleteAttributeSchema,
    previous_policies: P,
    previous_entities: E,
) -> (r: Result<
    MutationFlow<P, E>,
    AgentError,
>)
    ensures
        ({
            let ns = namespace_of(attr.namespace);
            let e = edit_at_spec(schema@, attributes_path(ns, attr.entity_type@), 0, AttrEditView::Remove(attr.name@));
            &&& r is Ok <==> e is Ok
            &&& r matches Ok(f) ==> f@ == start_replace(e->Ok_0, schema@, previous_policies, previous_entities)
            &&& r matches Err(err) ==> err@ == generic_edit_error(ns, attr.entity_type@, attr.name@, e->Err_0)
        }),
{
    let previous = clone_json(&schema);
    match delete_generic_attribute(schema, attr) {
        Err(e) => Err(e),
        Ok(s) => Ok(MutationFlow::replace_schema(s, previous, previous_policies, previous_entities)),
    }
}

/// The course of an attribute route once its edit of schema `schema`
/// succeeded with `edited`, with `policies` and `entities` what the other
/// stores held: the store step is handed `edited`; when the
/// conversion, both checks, the store and the flush succeed the answer is
/// success; when the flush fails with `err` and the rollback succeeds,
/// the rollback is handed `schema`, `policies` and `entities` and the
/// answer says the schema change
/// was rolled back. An edit that fails is answered at once, before any
/// course starts (see the `start_*` functions).
pub proof fn lemma_attribute_route_course<P, E>(
    schema: Json,
    namespace: Seq<char>,
    entity_type: Seq<char>,
    edit: AttrEditView,
    policies: P,
    entities: E,
    err: Seq<char>,
)
    requires
        edit_at_spec(schema, attributes_path(namespace, entity_type), 0, edit) is Ok,
    ensures
        ({
            let edited = edit_at_spec(schema, attributes_path(namespace, entity_type), 0, edit)->Ok_0;
            let w = run(start_replace(edited, schema, policies, entities), oks(5));
            &&& w.step == Step::Finish
            &&& w.outcome == Ok::<(), AgentErrorView>(())
            &&& w.document == Some(edited)
        }),
        ({
            let edited = edit_at_spec(schema, attributes_path(namespace, entity_type), 0, edit)->Ok_0;
            let w = run(start_replace(edited, schema, policies, entities), oks(4).push(Err(err)) + oks(4));
            &&& w.step == Step::Finish
            &&& w.outcome == Err::<(), AgentErrorView>(
                AgentErrorView::BadRequest { reason: rolled_back_reason("schema"@, err) },
            )
            &&& w.previous == Some(schema)
            &&& w.previous_policies == Some(policies)
            &&& w.previous_entities == Some(entities)
        }),
{
    let edited = edit_at_spec(schema, attributes_path(namespace, entity_type), 0, edit)->Ok_0;
    lemma_replace_course(edited, schema, policies, entities, err);
}

} // verus!
