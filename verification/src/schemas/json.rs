//! A JSON document as plain values, and edits of the object found at a
//! path of member names in it.

use vstd::prelude::*;

verus! {

/// A JSON value. A number keeps the text it was written with; an object
/// keeps its members in order.
#[derive(Debug, PartialEq, Eq)]
pub enum JsonValue {
    Null,
    Bool(bool),
    Number(String),
    String(String),
    Array(Vec<JsonValue>),
    Object(Vec<(String, JsonValue)>),
}

/// A JSON value as a mathematical object.
pub enum Json {
    Null,
    Bool(bool),
    Number(Seq<char>),
    Str(Seq<char>),
    Array(Seq<Json>),
    Object(Seq<(Seq<char>, Json)>),
}

/// The mathematical value of a JSON value.
pub open spec fn json_view(v: JsonValue) -> Json
    decreases v,
{
    match v {
        JsonValue::Null => Json::Null,
        JsonValue::Bool(b) => Json::Bool(b),
        JsonValue::Number(n) => Json::Number(n@),
        JsonValue::String(s) => Json::Str(s@),
        JsonValue::Array(items) => Json::Array(
            Seq::new(
                items.len() as nat,
                |i: int|
                    if 0 <= i < items.len() {
                        json_view(items[i])
                    } else {
                        Json::Null
                    },
            ),
        ),
        JsonValue::Object(ms) => Json::Object(
            Seq::new(
                ms.len() as nat,
                |i: int|
                    if 0 <= i < ms.len() {
                        (ms[i].0@, json_view(ms[i].1))
                    } else {
                        (Seq::empty(), Json::Null)
                    },
            ),
        ),
    }
}

impl View for JsonValue {
    type V = Json;

    open spec fn view(&self) -> Json {
        json_view(*self)
    }
}

/// The mathematical members of an object's members.
pub open spec fn members_view(ms: Seq<(String, JsonValue)>) -> Seq<(Seq<char>, Json)> {
    Seq::new(ms.len(), |i: int| (ms[i].0@, json_view(ms[i].1)))
}

/// The characters of each string.
pub open spec fn keys_view(path: Seq<String>) -> Seq<Seq<char>> {
    Seq::new(path.len(), |i: int| path[i]@)
}

/// The index of the first member named `key`, looking from index `i` on.
pub open spec fn find_key_from(ms: Seq<(Seq<char>, Json)>, key: Seq<char>, i: int) -> Option<int>
    decreases ms.len() - i,
{
    if i < 0 || i >= ms.len() {
        None
    } else if ms[i].0 == key {
        Some(i)
    } else {
        find_key_from(ms, key, i + 1)
    }
}

/// The index of the first member named `key`.
pub open spec fn find_key(ms: Seq<(Seq<char>, Json)>, key: Seq<char>) -> Option<int> {
    find_key_from(ms, key, 0)
}

/// The value of the member named `key`, if `j` is an object with one.
pub open spec fn member(j: Json, key: Seq<char>) -> Option<Json> {
    match j {
        Json::Object(ms) => match find_key(ms, key) {
            Some(i) => Some(ms[i].1),
            None => None,
        },
        _ => None,
    }
}

/// The value reached from `j` by following the member names `path[k..]`.
pub open spec fn at_path(j: Json, path: Seq<Seq<char>>, k: int) -> Option<Json>
    decreases path.len() - k,
{
    if k < 0 || k >= path.len() {
        Some(j)
    } else {
        match member(j, path[k]) {
            Some(c) => at_path(c, path, k + 1),
            None => None,
        }
    }
}

/// A change of one member of an object.
pub enum AttrEdit {
    /// Add a member that the object does not have yet.
    Add { name: String, value: JsonValue },
    /// Remove a member that the object has.
    Remove { name: String },
}

/// A change of one member of an object, as mathematical values.
pub enum AttrEditView {
    Add(Seq<char>, Json),
    Remove(Seq<char>),
}

impl View for AttrEdit {
    type V = AttrEditView;

    open spec fn view(&self) -> AttrEditView {
        match self {
            AttrEdit::Add { name, value } => AttrEditView::Add(name@, value@),
            AttrEdit::Remove { name } => AttrEditView::Remove(name@),
        }
    }
}

/// Why an edit at a path could not be made.
#[derive(Debug, Clone, Copy, PartialEq, Eq, Structural)]
pub enum EditFailure {
    /// The member named by the path's element at this index is missing,
    /// or the value it should be looked up in is not an object.
    Missing(usize),
    /// The value at the end of the path is not an object.
    NotObject,
    /// The member to add is already there.
    Duplicate,
    /// The member to remove is not there.
    NotFound,
}

/// The members `ms` without member `i`: the last member takes its place,
/// as removing a key from an insertion-ordered JSON map does.
pub open spec fn swap_remove_spec(ms: Seq<(Seq<char>, Json)>, i: int) -> Seq<(Seq<char>, Json)> {
    ms.update(i, ms.last()).drop_last()
}

/// The object `attrs` after the edit, or why it cannot be made. An added
/// member goes last; a removed member's place is taken by the last member.
pub open spec fn apply_edit(attrs: Json, edit: AttrEditView) -> Result<Json, EditFailure> {
    match attrs {
        Json::Object(ms) => match edit {
            AttrEditView::Add(name, value) => if find_key(ms, name) is Some {
                Err(EditFailure::Duplicate)
            } else {
                Ok(Json::Object(ms.push((name, value))))
            },
            AttrEditView::Remove(name) => match find_key(ms, name) {
                Some(i) => Ok(Json::Object(swap_remove_spec(ms, i))),
                None => Err(EditFailure::NotFound),
            },
        },
        _ => Err(EditFailure::NotObject),
    }
}

/// The value `j` after the edit of the object reached by following
/// `path[k..]`, or why it cannot be made. Along the path each name selects
/// the first member of that name; all else is left as it was.
pub open spec fn edit_at_spec(j: Json, path: Seq<Seq<char>>, k: int, edit: AttrEditView) -> Result<
    Json,
    EditFailure,
>
    decreases path.len() - k,
{
    if k < 0 || k >= path.len() {
        apply_edit(j, edit)
    } else {
        match j {
            Json::Object(ms) => match find_key(ms, path[k]) {
                Some(i) => match edit_at_spec(ms[i].1, path, k + 1, edit) {
                    Ok(c) => Ok(Json::Object(ms.update(i, (ms[i].0, c)))),
                    Err(e) => Err(e),
                },
                None => Err(EditFailure::Missing(k as usize)),
            },
            _ => Err(EditFailure::Missing(k as usize)),
        }
    }
}

/// The mathematical value of an edit's outcome.
pub open spec fn edit_result_view(r: Result<JsonValue, EditFailure>) -> Result<Json, EditFailure> {
    match r {
        Ok(v) => Ok(v@),
        Err(e) => Err(e),
    }
}

/// A copy of a JSON value.
pub fn clone_json(v: &JsonValue) -> (r: JsonValue)
    ensures
        r@ == v@,
    decreases v,
{
    match v {
        JsonValue::Null => JsonValue::Null,
        JsonValue::Bool(b) => JsonValue::Bool(*b),
        JsonValue::Number(n) => JsonValue::Number(n.clone()),
        JsonValue::String(s) => JsonValue::String(s.clone()),
        JsonValue::Array(items) => {
            let mut out: Vec<JsonValue> = Vec::new();
            let n = items.len();
            for i in 0..n
                invariant
                    n == items.len(),
                    *v == JsonValue::Array(*items),
                    out.len() == i,
                    forall|k: int| 0 <= k < i ==> json_view(#[trigger] out@[k]) == json_view(items@[k]),
            {
                proof {
                    vstd::std_specs::vec::axiom_vec_index_decreases(*items, i as int);
                    assert(decreases_to!(*v => v->Array_0));
                    assert(decreases_to!(*v => items[i as int]));
                }
                let c = clone_json(&items[i]);
                out.push(c);
            }
            let r = JsonValue::Array(out);
            assert(r@ =~= v@) by {
                if let Json::Array(a) = r@ {
                    if let Json::Array(b) = v@ {
                        assert(a =~= b);
                    }
                }
            }
            r
        },
        JsonValue::Object(ms) => {
            let mut out: Vec<(String, JsonValue)> = Vec::new();
            let n = ms.len();
            for i in 0..n
                invariant
                    n == ms.len(),
                    *v == JsonValue::Object(*ms),
                    out.len() == i,
                    forall|k: int| 0 <= k < i ==> (#[trigger] out@[k]).0@ == ms@[k].0@
                        && json_view(out@[k].1) == json_view(ms@[k].1),
            {
                proof {
                    vstd::std_specs::vec::axiom_vec_index_decreases(*ms, i as int);
                    assert(decreases_to!(*v => v->Object_0));
                    assert(decreases_to!(ms[i as int] => ms[i as int].1));
                    assert(decreases_to!(*v => ms[i as int].1));
                }
                let c = clone_json(&ms[i].1);
                out.push((ms[i].0.clone(), c));
            }
            let r = JsonValue::Object(out);
            assert(r@ =~= v@) by {
                if let Json::Object(a) = r@ {
                    if let Json::Object(b) = v@ {
                        assert(a =~= b);
                    }
                }
            }
            r
        },
    }
}

/// The value of an object is the sequence of its members' values.
pub proof fn lemma_object_view(ms: Vec<(String, JsonValue)>)
    ensures
        json_view(JsonValue::Object(ms)) == Json::Object(members_view(ms@)),
{
    let jv = json_view(JsonValue::Object(ms));
    if let Json::Object(s) = jv {
        assert(s =~= members_view(ms@));
    }
}

proof fn lemma_find_key_range(ms: Seq<(Seq<char>, Json)>, key: Seq<char>, i: int)
    ensures
        find_key_from(ms, key, i) matches Some(r) ==> i <= r < ms.len() && ms[r].0 == key,
    decreases ms.len() - i,
{
    if 0 <= i < ms.len() {
        lemma_find_key_range(ms, key, i + 1);
    }
}

/// The index of the first member named `key`, if any.
fn find_member(ms: &Vec<(String, JsonValue)>, key: &String) -> (r: Option<usize>)
    ensures
        r matches Some(i) ==> find_key(members_view(ms@), key@) == Some(i as int),
        r is None ==> find_key(members_view(ms@), key@) is None,
{
    let ghost mv = members_view(ms@);
    let n = ms.len();
    for i in 0..n
        invariant
            n == ms.len(),
            mv == members_view(ms@),
            find_key_from(mv, key@, 0) == find_key_from(mv, key@, i as int),
    {
        if ms[i].0 == *key {
            return Some(i);
        }
    }
    None
}

/// Makes `edit` at the object reached from `v` by following `path[k..]`;
/// gives back the whole value so changed, or why the edit cannot be made.
pub fn edit_at(v: JsonValue, path: &Vec<String>, k: usize, edit: &AttrEdit) -> (r: Result<
    JsonValue,
    EditFailure,
>)
    requires
        k <= path.len(),
    ensures
        edit_result_view(r) == edit_at_spec(v@, keys_view(path@), k as int, edit@),
    decreases path.len() - k,
{
    let ghost kv = keys_view(path@);
    match v {
        JsonValue::Object(ms) => {
            let mut ms = ms;
            let ghost old_ms = ms@;
            proof {
                lemma_object_view(ms);
            }
            if k == path.len() {
                match edit {
                    AttrEdit::Add { name, value } => match find_member(&ms, name) {
                        Some(_) => Err(EditFailure::Duplicate),
                        None => {
                            let val = clone_json(value);
                            ms.push((name.clone(), val));
                            proof {
                                lemma_object_view(ms);
                                assert(members_view(ms@) =~= members_view(old_ms).push((name@, value@)));
                            }
                            Ok(JsonValue::Object(ms))
                        },
                    },
                    AttrEdit::Remove { name } => match find_member(&ms, name) {
                        None => Err(EditFailure::NotFound),
                        Some(i) => {
                            proof {
                                lemma_find_key_range(members_view(old_ms), name@, 0);
                            }
                            ms.swap_remove(i);
                            proof {
                                lemma_object_view(ms);
                                assert(members_view(ms@) =~= swap_remove_spec(members_view(old_ms), i as int));
                            }
                            Ok(JsonValue::Object(ms))
                        },
                    },
                }
            } else {
                assert(kv[k as int] == path@[k as int]@);
                match find_member(&ms, &path[k]) {
                    None => Err(EditFailure::Missing(k)),
                    Some(i) => {
                        proof {
                            lemma_find_key_range(members_view(old_ms), kv[k as int], 0);
                        }
                        let (key, child) = ms.remove(i);
                        assert(key@ == members_view(old_ms)[i as int].0);
                        assert(child@ == members_view(old_ms)[i as int].1);
                        match edit_at(child, path, k + 1, edit) {
                            Err(e) => Err(e),
                            Ok(c) => {
                                let ghost cv = c@;
                                ms.insert(i, (key, c));
                                proof {
                                    lemma_object_view(ms);
                                    assert(members_view(ms@) =~= members_view(old_ms).update(
                                        i as int,
                                        (members_view(old_ms)[i as int].0, cv),
                                    ));
                                }
                                Ok(JsonValue::Object(ms))
                            },
                        }
                    },
                }
            }
        },
        _ => {
            if k == path.len() {
                Err(EditFailure::NotObject)
            } else {
                Err(EditFailure::Missing(k))
            }
        },
    }
}

/// The value reached from `v` by following `path[k..]`, if there is one.
pub fn get_at_path<'a>(v: &'a JsonValue, path: &Vec<String>, k: usize) -> (r: Option<&'a JsonValue>)
    requires
        k <= path.len(),
    ensures
        r matches Some(x) ==> at_path(v@, keys_view(path@), k as int) == Some(x@),
        r is None ==> at_path(v@, keys_view(path@), k as int) is None,
    decreases path.len() - k,
{
    if k == path.len() {
        return Some(v);
    }
    let ghost kv = keys_view(path@);
    assert(kv[k as int] == path@[k as int]@);
    match v {
        JsonValue::Object(ms) => {
            proof {
                lemma_object_view(*ms);
            }
            match find_member(ms, &path[k]) {
                None => None,
                Some(i) => {
                    proof {
                        lemma_find_key_range(members_view(ms@), kv[k as int], 0);
                    }
                    get_at_path(&ms[i].1, path, k + 1)
                },
            }
        },
        _ => None,
    }
}

proof fn lemma_find_key_push(ms: Seq<(Seq<char>, Json)>, key: Seq<char>, x: Json, i: int)
    requires
        0 <= i <= ms.len(),
        find_key_from(ms, key, i) is None,
    ensures
        find_key_from(ms.push((key, x)), key, i) == Some(ms.len() as int),
    decreases ms.len() - i,
{
    if i < ms.len() {
        lemma_find_key_push(ms, key, x, i + 1);
    }
}

proof fn lemma_find_key_update(ms: Seq<(Seq<char>, Json)>, key: Seq<char>, idx: int, c: Json, i: int)
    requires
        0 <= idx < ms.len(),
        0 <= i,
    ensures
        find_key_from(ms.update(idx, (ms[idx].0, c)), key, i) == find_key_from(ms, key, i),
    decreases ms.len() - i,
{
    if i < ms.len() {
        lemma_find_key_update(ms, key, idx, c, i + 1);
    }
}

/// Adding a member and then removing it gives back the value as it was.
pub proof fn lemma_add_then_remove(
    j: Json,
    path: Seq<Seq<char>>,
    k: int,
    name: Seq<char>,
    value: Json,
)
    requires
        0 <= k,
        edit_at_spec(j, path, k, AttrEditView::Add(name, value)) is Ok,
    ensures
        edit_at_spec(
            edit_at_spec(j, path, k, AttrEditView::Add(name, value))->Ok_0,
            path,
            k,
            AttrEditView::Remove(name),
        ) == Ok::<Json, EditFailure>(j),
    decreases path.len() - k,
{
    if k >= path.len() {
        if let Json::Object(ms) = j {
            lemma_find_key_push(ms, name, value, 0);
            assert(swap_remove_spec(ms.push((name, value)), ms.len() as int) =~= ms);
        }
    } else {
        if let Json::Object(ms) = j {
            let i = find_key(ms, path[k])->0;
            lemma_find_key_range(ms, path[k], 0);
            lemma_add_then_remove(ms[i].1, path, k + 1, name, value);
            let c1 = edit_at_spec(ms[i].1, path, k + 1, AttrEditView::Add(name, value))->Ok_0;
            let ms1 = ms.update(i, (ms[i].0, c1));
            lemma_find_key_update(ms, path[k], i, c1, 0);
            assert(ms1.update(i, (ms1[i].0, ms[i].1)) =~= ms);
        }
    }
}

/// An edit that succeeds leaves every prefix of its path reachable.
pub proof fn lemma_edit_keeps_prefix(
    j: Json,
    path: Seq<Seq<char>>,
    prefix: Seq<Seq<char>>,
    k: int,
    edit: AttrEditView,
)
    requires
        0 <= k,
        prefix.len() <= path.len(),
        forall|m: int| 0 <= m < prefix.len() ==> prefix[m] == path[m],
        edit_at_spec(j, path, k, edit) is Ok,
    ensures
        at_path(edit_at_spec(j, path, k, edit)->Ok_0, prefix, k) is Some,
    decreases path.len() - k,
{
    if k < prefix.len() {
        if let Json::Object(ms) = j {
            let i = find_key(ms, path[k])->0;
            lemma_find_key_range(ms, path[k], 0);
            let c1 = edit_at_spec(ms[i].1, path, k + 1, edit)->Ok_0;
            lemma_edit_keeps_prefix(ms[i].1, path, prefix, k + 1, edit);
            lemma_find_key_update(ms, path[k], i, c1, 0);
        }
    }
}

/// Whether no two members of `ms` share a name.
pub open spec fn keys_distinct(ms: Seq<(Seq<char>, Json)>) -> bool {
    forall|a: int, b: int| 0 <= a < b < ms.len() ==> (#[trigger] ms[a]).0 != (#[trigger] ms[b]).0
}

/// Whether every object in `j`, at any depth, has members with distinct
/// names, as a JSON object read by a parser has.
pub open spec fn well_formed(j: Json) -> bool
    decreases j,
{
    match j {
        Json::Array(items) => forall|i: int| 0 <= i < items.len() ==> well_formed(#[trigger] items[i]),
        Json::Object(ms) => keys_distinct(ms) && forall|i: int|
            0 <= i < ms.len() ==> well_formed(#[trigger] ms[i].1),
        _ => true,
    }
}

/// An attribute edit that succeeds keeps the document well formed, as
/// long as an added value is well formed itself.
pub proof fn lemma_edit_keeps_well_formed(j: Json, path: Seq<Seq<char>>, k: int, edit: AttrEditView)
    requires
        0 <= k,
        well_formed(j),
        edit matches AttrEditView::Add(_, v) ==> well_formed(v),
        edit_at_spec(j, path, k, edit) is Ok,
    ensures
        well_formed(edit_at_spec(j, path, k, edit)->Ok_0),
    decreases path.len() - k,
{
    if let Json::Object(ms) = j {
        if k >= path.len() {
            match edit {
                AttrEditView::Add(name, value) => {
                    let ms2 = ms.push((name, value));
                    lemma_find_key_absent(ms, name, 0);
                    assert forall|a: int, b: int| 0 <= a < b < ms2.len() implies (#[trigger] ms2[a]).0
                        != (#[trigger] ms2[b]).0 by {
                        if b == ms.len() {
                            assert(ms2[a] == ms[a]);
                        } else {
                            assert(ms2[a] == ms[a] && ms2[b] == ms[b]);
                        }
                    }
                    assert forall|i: int| 0 <= i < ms2.len() implies well_formed(#[trigger] ms2[i].1) by {
                        if i < ms.len() {
                            assert(ms2[i] == ms[i]);
                        }
                    }
                },
                AttrEditView::Remove(name) => {
                    let r = find_key(ms, name)->0;
                    lemma_find_key_range(ms, name, 0);
                    let ms2 = swap_remove_spec(ms, r);
                    let last = ms.len() - 1;
                    assert forall|a: int, b: int| 0 <= a < b < ms2.len() implies (#[trigger] ms2[a]).0
                        != (#[trigger] ms2[b]).0 by {
                        let a0 = if a == r { last } else { a };
                        let b0 = if b == r { last } else { b };
                        assert(ms2[a] == ms[a0] && ms2[b] == ms[b0]);
                        assert(a0 != b0);
                    }
                    assert forall|i: int| 0 <= i < ms2.len() implies well_formed(#[trigger] ms2[i].1) by {
                        let i0 = if i == r { last } else { i };
                        assert(ms2[i] == ms[i0]);
                    }
                },
            }
        } else {
            let i = find_key(ms, path[k])->0;
            lemma_find_key_range(ms, path[k], 0);
            assert(well_formed(ms[i].1));
            lemma_edit_keeps_well_formed(ms[i].1, path, k + 1, edit);
            let c = edit_at_spec(ms[i].1, path, k + 1, edit)->Ok_0;
            let ms2 = ms.update(i, (ms[i].0, c));
            assert forall|a: int, b: int| 0 <= a < b < ms2.len() implies (#[trigger] ms2[a]).0
                != (#[trigger] ms2[b]).0 by {
                assert(ms2[a].0 == ms[a].0 && ms2[b].0 == ms[b].0);
            }
            assert forall|x: int| 0 <= x < ms2.len() implies well_formed(#[trigger] ms2[x].1) by {
                if x != i {
                    assert(ms2[x] == ms[x]);
                }
            }
        }
    }
}

proof fn lemma_find_key_absent(ms: Seq<(Seq<char>, Json)>, key: Seq<char>, i: int)
    requires
        0 <= i,
        find_key_from(ms, key, i) is None,
    ensures
        forall|a: int| i <= a < ms.len() ==> (#[trigger] ms[a]).0 != key,
    decreases ms.len() - i,
{
    if i < ms.len() {
        lemma_find_key_absent(ms, key, i + 1);
    }
}

/// An edit along `path[k..]` of a value in which the path reaches `o` is
/// the edit of `o` itself: it succeeds or fails as that does, and on
/// success the path reaches the edited object.
proof fn lemma_edit_through_path(j: Json, path: Seq<Seq<char>>, k: int, edit: AttrEditView, o: Json)
    requires
        0 <= k,
        at_path(j, path, k) == Some(o),
    ensures
        (edit_at_spec(j, path, k, edit) is Ok) == (apply_edit(o, edit) is Ok),
        edit_at_spec(j, path, k, edit) is Err ==> edit_at_spec(j, path, k, edit) == apply_edit(o, edit),
        edit_at_spec(j, path, k, edit) is Ok ==> at_path(edit_at_spec(j, path, k, edit)->Ok_0, path, k)
            == Some(apply_edit(o, edit)->Ok_0),
    decreases path.len() - k,
{
    if k < path.len() {
        if let Json::Object(ms) = j {
            let i = find_key(ms, path[k])->0;
            lemma_find_key_range(ms, path[k], 0);
            lemma_edit_through_path(ms[i].1, path, k + 1, edit, o);
            if edit_at_spec(ms[i].1, path, k + 1, edit) is Ok {
                let c1 = edit_at_spec(ms[i].1, path, k + 1, edit)->Ok_0;
                lemma_find_key_update(ms, path[k], i, c1, 0);
                let ms1 = ms.update(i, (ms[i].0, c1));
                assert(ms1[i].1 == c1);
            }
        }
    }
}

/// Adding member `name` with `value` to the object `ms` that `path` leads
/// to succeeds exactly when no member of `ms` has that very name; it is
/// refused as a duplicate otherwise. On success the path leads to `ms`
/// with the new member after the others, and nothing else of it changed.
pub proof fn lemma_add_member_exactly_when_absent(
    j: Json,
    path: Seq<Seq<char>>,
    ms: Seq<(Seq<char>, Json)>,
    name: Seq<char>,
    value: Json,
)
    requires
        at_path(j, path, 0) == Some(Json::Object(ms)),
    ensures
        edit_at_spec(j, path, 0, AttrEditView::Add(name, value)) is Ok <==> (forall|i: int|
            0 <= i < ms.len() ==> (#[trigger] ms[i]).0 != name),
        edit_at_spec(j, path, 0, AttrEditView::Add(name, value)) is Err ==> edit_at_spec(
            j,
            path,
            0,
            AttrEditView::Add(name, value),
        ) == Err::<Json, EditFailure>(EditFailure::Duplicate),
        edit_at_spec(j, path, 0, AttrEditView::Add(name, value)) matches Ok(j2) ==> at_path(j2, path, 0)
            == Some(Json::Object(ms.push((name, value)))),
{
    let edit = AttrEditView::Add(name, value);
    lemma_edit_through_path(j, path, 0, edit, Json::Object(ms));
    lemma_find_key_range(ms, name, 0);
    if find_key(ms, name) is None {
        lemma_find_key_absent(ms, name, 0);
    } else {
        let r = find_key(ms, name)->0;
        assert(ms[r].0 == name);
    }
}

/// Removing member `name` from the object `ms` that `path` leads to, whose
/// members have distinct names, succeeds exactly when `ms` has a member of
/// that name, and is answered "not found" otherwise. On success the path
/// leads to `ms` without exactly that member: no member is named `name`,
/// every other member of `ms` is there with its value, nothing else is,
/// and there is one member fewer. The order of the rest may change.
pub proof fn lemma_remove_takes_out_exactly_the_member(
    j: Json,
    path: Seq<Seq<char>>,
    ms: Seq<(Seq<char>, Json)>,
    name: Seq<char>,
)
    requires
        at_path(j, path, 0) == Some(Json::Object(ms)),
        keys_distinct(ms),
    ensures
        edit_at_spec(j, path, 0, AttrEditView::Remove(name)) is Ok <==> (exists|i: int|
            0 <= i < ms.len() && (#[trigger] ms[i]).0 == name),
        edit_at_spec(j, path, 0, AttrEditView::Remove(name)) is Err ==> edit_at_spec(
            j,
            path,
            0,
            AttrEditView::Remove(name),
        ) == Err::<Json, EditFailure>(EditFailure::NotFound),
        edit_at_spec(j, path, 0, AttrEditView::Remove(name)) matches Ok(j2) ==> (at_path(j2, path, 0) matches Some(
            Json::Object(out),
        ) && out.len() + 1 == ms.len() && (forall|i: int| 0 <= i < out.len() ==> (#[trigger] out[i]).0 != name)
            && (forall|i: int| 0 <= i < ms.len() && (#[trigger] ms[i]).0 != name ==> out.contains(ms[i]))
            && (forall|i: int| 0 <= i < out.len() ==> ms.contains(#[trigger] out[i]))),
{
    let edit = AttrEditView::Remove(name);
    lemma_edit_through_path(j, path, 0, edit, Json::Object(ms));
    lemma_find_key_range(ms, name, 0);
    if find_key(ms, name) is None {
        lemma_find_key_absent(ms, name, 0);
    } else {
        let r = find_key(ms, name)->0;
        let out = swap_remove_spec(ms, r);
        let last = ms.len() - 1;
        assert(out.len() + 1 == ms.len());
        assert forall|i: int| 0 <= i < out.len() implies (#[trigger] out[i]).0 != name by {
            let i0 = if i == r { last } else { i };
            assert(out[i] == ms[i0]);
            assert(i0 != r);
            if i0 < r {
                assert(ms[i0].0 != ms[r].0);
            } else {
                assert(ms[r].0 != ms[i0].0);
            }
        }
        assert forall|i: int| 0 <= i < ms.len() && (#[trigger] ms[i]).0 != name implies out.contains(ms[i]) by {
            assert(i != r);
            if i == last {
                assert(out[r] == ms[i]);
            } else {
                assert(out[i] == ms[i]);
            }
        }
        assert forall|i: int| 0 <= i < out.len() implies ms.contains(#[trigger] out[i]) by {
            let i0 = if i == r { last } else { i };
            assert(out[i] == ms[i0]);
        }
    }
}

} // verus!
