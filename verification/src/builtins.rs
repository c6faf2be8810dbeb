//! What a handler's script is given besides the language: the reply to a
//! request for a JSON document, as a script value.

use crate::table::{assign, put};
use crate::text::encode;
use crate::value::{entries_view, ScriptModel, ScriptValue};
use vstd::prelude::*;
use vstd::utf8::encode_utf8;

verus! {

/// A JSON document, held as plain data. A number is held by the IEEE 754 bit
/// pattern of the float that it reads as.
#[derive(Debug, PartialEq, Eq)]
pub enum Json {
    Null,
    Bool(bool),
    Number(u64),
    String(String),
    Array(Vec<Json>),
    Object(Vec<(String, Json)>),
}

/// The mathematical content of a [`Json`] document.
pub enum JsonModel {
    Null,
    Bool(bool),
    Number(u64),
    String(Seq<char>),
    Array(Seq<JsonModel>),
    Object(Seq<(Seq<char>, JsonModel)>),
}

/// The items of an array, each by its content.
pub open spec fn items_view(items: Seq<Json>) -> Seq<JsonModel>
    decreases items,
{
    Seq::new(
        items.len(),
        |i: int|
            if 0 <= i < items.len() {
                items[i]@
            } else {
                JsonModel::Null
            },
    )
}

/// The members of an object, each name and value by its content.
pub open spec fn members_view(members: Seq<(String, Json)>) -> Seq<(Seq<char>, JsonModel)>
    decreases members,
{
    Seq::new(
        members.len(),
        |i: int|
            if 0 <= i < members.len() {
                (members[i].0@, members[i].1@)
            } else {
                (Seq::empty(), JsonModel::Null)
            },
    )
}

impl View for Json {
    type V = JsonModel;

    open spec fn view(&self) -> JsonModel
        decreases self,
    {
        match self {
            Json::Null => JsonModel::Null,
            Json::Bool(b) => JsonModel::Bool(*b),
            Json::Number(bits) => JsonModel::Number(*bits),
            Json::String(text) => JsonModel::String(text@),
            Json::Array(items) => JsonModel::Array(items_view(items@)),
            Json::Object(members) => JsonModel::Object(members_view(members@)),
        }
    }
}

/// The script value of a JSON document: null is nil, a boolean and a number
/// are themselves, a string is its bytes, an array is the table of its items
/// under the indices from 1 on, and an object is the table of its members
/// under their names.
pub open spec fn script_of(json: JsonModel) -> ScriptModel
    decreases json,
{
    match json {
        JsonModel::Null => ScriptModel::Nil,
        JsonModel::Bool(b) => ScriptModel::Boolean(b),
        JsonModel::Number(bits) => ScriptModel::Number(bits),
        JsonModel::String(text) => ScriptModel::String(encode_utf8(text)),
        JsonModel::Array(items) => ScriptModel::Table(sequence_of(items)),
        JsonModel::Object(members) => ScriptModel::Table(fields_of(members)),
    }
}

/// The entries of the table of an array: what assigning each item to its
/// position, counted from 1, leaves. A null item leaves its position empty.
/// A position beyond the largest integer of a script holds nothing.
pub open spec fn sequence_of(items: Seq<JsonModel>) -> Seq<(ScriptModel, ScriptModel)>
    decreases items,
{
    if items.len() == 0 {
        Seq::empty()
    } else if items.len() <= i64::MAX {
        assign(
            sequence_of(items.drop_last()),
            ScriptModel::Integer(items.len() as i64),
            script_of(items.last()),
        )
    } else {
        sequence_of(items.drop_last())
    }
}

/// The entries of the table of an object: what assigning each member to its
/// name, in order, leaves.
pub open spec fn fields_of(members: Seq<(Seq<char>, JsonModel)>) -> Seq<
    (ScriptModel, ScriptModel),
>
    decreases members,
{
    if members.len() == 0 {
        Seq::empty()
    } else {
        assign(
            fields_of(members.drop_last()),
            ScriptModel::String(encode_utf8(members.last().0)),
            script_of(members.last().1),
        )
    }
}

/// The index of the first member called `name`, or the number of members
/// where there is none.
pub open spec fn member_index(members: Seq<(Seq<char>, JsonModel)>, name: Seq<char>) -> int
    decreases members.len(),
{
    if members.len() == 0 {
        0
    } else if members.first().0 == name {
        0
    } else {
        1 + member_index(members.drop_first(), name)
    }
}

/// The part of a reply that a script is given: the member `message` of an
/// object that has one, and the whole document otherwise.
pub open spec fn payload(document: JsonModel) -> JsonModel {
    match document {
        JsonModel::Object(members) => {
            let at = member_index(members, "message"@);
            if at < members.len() {
                members[at].1
            } else {
                document
            }
        },
        _ => document,
    }
}

/// `member_index` is the least index at which `name` stands.
pub proof fn member_index_is_first(
    members: Seq<(Seq<char>, JsonModel)>,
    name: Seq<char>,
    at: int,
)
    requires
        0 <= at <= members.len(),
        forall|j: int| 0 <= j < at ==> (#[trigger] members[j]).0 != name,
        at < members.len() ==> members[at].0 == name,
    ensures
        member_index(members, name) == at,
    decreases members.len(),
{
    if members.len() > 0 && at > 0 {
        let rest = members.drop_first();
        assert(members.first() == members[0]);
        assert forall|j: int| 0 <= j < at - 1 implies (#[trigger] rest[j]).0 != name by {
            assert(rest[j] == members[j + 1]);
        }
        member_index_is_first(rest, name, at - 1);
    }
}

/// Converts a JSON document into a script value.
pub fn to_lua(json: &Json) -> (value: ScriptValue)
    ensures
        value@ == script_of(json@),
    decreases json,
{
    match json {
        Json::Null => ScriptValue::Nil,
        Json::Bool(b) => ScriptValue::Boolean(*b),
        Json::Number(bits) => ScriptValue::Number(*bits),
        Json::String(text) => ScriptValue::String(encode(text)),
        Json::Array(items) => {
            let ghost model = items_view(items@);
            let mut entries: Vec<(ScriptValue, ScriptValue)> = Vec::new();
            let mut i: usize = 0;
            assert(model.take(0) =~= Seq::empty());
            assert(entries_view(entries@) =~= Seq::empty());
            while i < items.len()
                invariant
                    i <= items.len(),
                    json is Array,
                    json->Array_0 == *items,
                    model == items_view(items@),
                    entries_view(entries@) == sequence_of(model.take(i as int)),
                decreases items.len() - i,
            {
                proof {
                    assert(decreases_to!(*items => items[i as int]));
                    assert(model.take(i + 1).drop_last() =~= model.take(i as int));
                    assert(model.take(i + 1).last() == items@[i as int]@);
                }
                if (i as u64) < 0x7fff_ffff_ffff_ffffu64 {
                    let position: i64 = (i as u64 + 1) as i64;
                    let item = to_lua(&items[i]);
                    put(&mut entries, ScriptValue::Integer(position), item);
                }
                i += 1;
            }
            assert(model.take(i as int) =~= model);
            ScriptValue::Table(entries)
        },
        Json::Object(members) => {
            let ghost model = members_view(members@);
            let mut entries: Vec<(ScriptValue, ScriptValue)> = Vec::new();
            let mut i: usize = 0;
            assert(model.take(0) =~= Seq::empty());
            assert(entries_view(entries@) =~= Seq::empty());
            while i < members.len()
                invariant
                    i <= members.len(),
                    json is Object,
                    json->Object_0 == *members,
                    model == members_view(members@),
                    entries_view(entries@) == fields_of(model.take(i as int)),
                decreases members.len() - i,
            {
                proof {
                    assert(decreases_to!(*members => members[i as int]));
                    assert(model.take(i + 1).drop_last() =~= model.take(i as int));
                    assert(model.take(i + 1).last() == (
                        members@[i as int].0@,
                        members@[i as int].1@,
                    ));
                }
                let item = to_lua(&members[i].1);
                put(&mut entries, ScriptValue::String(encode(&members[i].0)), item);
                i += 1;
            }
            assert(model.take(i as int) =~= model);
            ScriptValue::Table(entries)
        },
    }
}

/// The script value that a script is given for the reply `document`: that of
/// its member `message` where it is an object that has one, and that of the
/// whole document otherwise.
pub fn response_value(document: &Json) -> (value: ScriptValue)
    ensures
        value@ == script_of(payload(document@)),
{
    match document {
        Json::Object(members) => {
            let wanted = "message".to_owned();
            let ghost model = members_view(members@);
            let mut at: usize = 0;
            while at < members.len()
                invariant
                    at <= members.len(),
                    document is Object,
                    document->Object_0 == *members,
                    wanted@ == "message"@,
                    model == members_view(members@),
                    forall|j: int| 0 <= j < at ==> (#[trigger] model[j]).0 != "message"@,
                decreases members.len() - at,
            {
                if members[at].0 == wanted {
                    proof {
                        member_index_is_first(model, "message"@, at as int);
                    }
                    return to_lua(&members[at].1);
                }
                at += 1;
            }
            proof {
                member_index_is_first(model, "message"@, at as int);
            }
            to_lua(document)
        },
        _ => to_lua(document),
    }
}

} // verus!
