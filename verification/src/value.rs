//! The two value models that meet at a plugin call: what a script holds, and
//! what a plugin takes and gives.

use vstd::prelude::*;

verus! {

/// The script values that have no counterpart at a plugin call.
#[derive(Debug, Clone, Copy, PartialEq, Eq, Structural)]
pub enum ScriptKind {
    LightUserData,
    Function,
    Thread,
    UserData,
    Other,
}

/// A value of the script world, held as plain data.
///
/// A number is held by its IEEE 754 bit pattern, a string by its bytes (a
/// script string need not be UTF-8), a table by its entries in the order in
/// which the script runtime walks them, and a runtime error by its
/// description.
#[derive(Debug, PartialEq, Eq)]
pub enum ScriptValue {
    Nil,
    Boolean(bool),
    Integer(i64),
    Number(u64),
    String(Vec<u8>),
    Table(Vec<(ScriptValue, ScriptValue)>),
    Error(String),
    Opaque(ScriptKind),
}

/// The mathematical content of a [`ScriptValue`].
pub enum ScriptModel {
    Nil,
    Boolean(bool),
    Integer(i64),
    Number(u64),
    String(Seq<u8>),
    Table(Seq<(ScriptModel, ScriptModel)>),
    Error(Seq<char>),
    Opaque(ScriptKind),
}

/// The entries of a table, each key and value by its content.
pub open spec fn entries_view(entries: Seq<(ScriptValue, ScriptValue)>) -> Seq<
    (ScriptModel, ScriptModel),
>
    decreases entries,
{
    Seq::new(
        entries.len(),
        |i: int|
            if 0 <= i < entries.len() {
                (entries[i].0@, entries[i].1@)
            } else {
                (ScriptModel::Nil, ScriptModel::Nil)
            },
    )
}

impl View for ScriptValue {
    type V = ScriptModel;

    open spec fn view(&self) -> ScriptModel
        decreases self,
    {
        match self {
            ScriptValue::Nil => ScriptModel::Nil,
            ScriptValue::Boolean(b) => ScriptModel::Boolean(*b),
            ScriptValue::Integer(i) => ScriptModel::Integer(*i),
            ScriptValue::Number(bits) => ScriptModel::Number(*bits),
            ScriptValue::String(bytes) => ScriptModel::String(bytes@),
            ScriptValue::Table(entries) => ScriptModel::Table(entries_view(entries@)),
            ScriptValue::Error(description) => ScriptModel::Error(description@),
            ScriptValue::Opaque(kind) => ScriptModel::Opaque(*kind),
        }
    }
}

/// Whether a value is one that a script runtime can hold: in every table,
/// at every depth, no key and no value is nil and no key occurs twice.
pub open spec fn well_formed(value: ScriptModel) -> bool
    decreases value,
{
    match value {
        ScriptModel::Table(entries) => well_formed_entries(entries),
        _ => true,
    }
}

/// [`well_formed`], of the entries of one table.
pub open spec fn well_formed_entries(entries: Seq<(ScriptModel, ScriptModel)>) -> bool
    decreases entries,
{
    &&& forall|i: int|
        0 <= i < entries.len() ==> {
            &&& (#[trigger] entries[i]).0 != ScriptModel::Nil
            &&& entries[i].1 != ScriptModel::Nil
            &&& well_formed(entries[i].0)
            &&& well_formed(entries[i].1)
        }
    &&& forall|i: int, j: int|
        0 <= i < j < entries.len() ==> (#[trigger] entries[i]).0 != (#[trigger] entries[j]).0
}

/// The plugin-call values that have no counterpart in a script.
#[derive(Debug, Clone, Copy, PartialEq, Eq, Structural)]
pub enum ComponentKind {
    S8,
    U8,
    S16,
    U16,
    S32,
    U32,
    Float32,
    Char,
    List,
    Tuple,
    Variant,
    Enum,
    Flags,
    Resource,
    Future,
    Stream,
    ErrorContext,
    Result,
}

/// A value at a plugin call boundary, held as plain data.
///
/// A float is held by its IEEE 754 bit pattern. A record is a sequence of
/// named fields; names need not differ. Every shape that a script cannot
/// receive, but for the result, is held by its kind alone.
#[derive(Debug, PartialEq, Eq)]
pub enum ComponentValue {
    Option(Option<Box<ComponentValue>>),
    Bool(bool),
    S64(i64),
    U64(u64),
    Float64(u64),
    String(String),
    Record(Vec<(String, ComponentValue)>),
    Result(Result<Option<Box<ComponentValue>>, Option<Box<ComponentValue>>>),
    Other(ComponentKind),
}

/// The mathematical content of a [`ComponentValue`].
pub enum ComponentModel {
    Option(Option<Box<ComponentModel>>),
    Bool(bool),
    S64(i64),
    U64(u64),
    Float64(u64),
    String(Seq<char>),
    Record(Seq<(Seq<char>, ComponentModel)>),
    Result(Result<Option<Box<ComponentModel>>, Option<Box<ComponentModel>>>),
    Other(ComponentKind),
}

/// The fields of a record, each name and value by its content.
pub open spec fn fields_view(fields: Seq<(String, ComponentValue)>) -> Seq<
    (Seq<char>, ComponentModel),
>
    decreases fields,
{
    Seq::new(
        fields.len(),
        |i: int|
            if 0 <= i < fields.len() {
                (fields[i].0@, fields[i].1@)
            } else {
                (Seq::empty(), ComponentModel::Bool(false))
            },
    )
}

/// The content of an optional payload.
pub open spec fn payload_view(payload: Option<Box<ComponentValue>>) -> Option<Box<ComponentModel>>
    decreases payload,
{
    match payload {
        Some(inner) => Some(Box::new((*inner)@)),
        None => None,
    }
}

impl View for ComponentValue {
    type V = ComponentModel;

    open spec fn view(&self) -> ComponentModel
        decreases self,
    {
        match self {
            ComponentValue::Option(payload) => ComponentModel::Option(payload_view(*payload)),
            ComponentValue::Bool(b) => ComponentModel::Bool(*b),
            ComponentValue::S64(i) => ComponentModel::S64(*i),
            ComponentValue::U64(u) => ComponentModel::U64(*u),
            ComponentValue::Float64(bits) => ComponentModel::Float64(*bits),
            ComponentValue::String(text) => ComponentModel::String(text@),
            ComponentValue::Record(fields) => ComponentModel::Record(fields_view(fields@)),
            ComponentValue::Result(Ok(payload)) => ComponentModel::Result(
                Ok(payload_view(*payload)),
            ),
            ComponentValue::Result(Err(payload)) => ComponentModel::Result(
                Err(payload_view(*payload)),
            ),
            ComponentValue::Other(kind) => ComponentModel::Other(*kind),
        }
    }
}

} // verus!
