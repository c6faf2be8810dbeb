//! The value bridge: from a script value to a plugin-call value and back.

use crate::table::{assign, put};
use crate::text::{decode, encode};
use crate::value::{
    entries_view, fields_view, payload_view, ComponentKind, ComponentModel, ComponentValue,
    ScriptKind, ScriptModel, ScriptValue,
};
use vstd::prelude::*;
use vstd::utf8::{decode_utf8, encode_utf8, valid_utf8};

verus! {

/// Why a value cannot be encoded for the other side.
#[derive(Debug, Clone, Copy, PartialEq, Eq, Structural)]
pub enum EncodingFault {
    /// A string is not valid UTF-8.
    InvalidUtf8,
    /// A table has a key that is not a string.
    NonStringKey,
}

/// The variant of a value that the other side has no shape for.
#[derive(Debug, Clone, Copy, PartialEq, Eq, Structural)]
pub enum Variant {
    Script(ScriptKind),
    Component(ComponentKind),
}

/// A failed conversion.
#[derive(Debug, Clone, Copy, PartialEq, Eq, Structural)]
pub enum BridgeError {
    EncodingError(EncodingFault),
    UnsupportedValueError(Variant),
}

/// The name of a record field that a table key gives.
pub open spec fn key_text(key: ScriptModel) -> Result<Seq<char>, BridgeError> {
    match key {
        ScriptModel::String(bytes) => if valid_utf8(bytes) {
            Ok(decode_utf8(bytes))
        } else {
            Err(BridgeError::EncodingError(EncodingFault::InvalidUtf8))
        },
        _ => Err(BridgeError::EncodingError(EncodingFault::NonStringKey)),
    }
}

/// The plugin-call value of a script value.
///
/// Nil is the absent option, a boolean, an integer and a number are
/// themselves, a string is its text, a table is the record of its entries and
/// a runtime error is the error result that carries its description. Nothing
/// else has a plugin-call value.
pub open spec fn to_component(value: ScriptModel) -> Result<ComponentModel, BridgeError>
    decreases value,
{
    match value {
        ScriptModel::Nil => Ok(ComponentModel::Option(None)),
        ScriptModel::Boolean(b) => Ok(ComponentModel::Bool(b)),
        ScriptModel::Integer(i) => Ok(ComponentModel::S64(i)),
        ScriptModel::Number(bits) => Ok(ComponentModel::Float64(bits)),
        ScriptModel::String(bytes) => if valid_utf8(bytes) {
            Ok(ComponentModel::String(decode_utf8(bytes)))
        } else {
            Err(BridgeError::EncodingError(EncodingFault::InvalidUtf8))
        },
        ScriptModel::Table(entries) => match to_fields(entries) {
            Ok(fields) => Ok(ComponentModel::Record(fields)),
            Err(error) => Err(error),
        },
        ScriptModel::Error(description) => Ok(
            ComponentModel::Result(Err(Some(Box::new(ComponentModel::String(description))))),
        ),
        ScriptModel::Opaque(kind) => Err(
            BridgeError::UnsupportedValueError(Variant::Script(kind)),
        ),
    }
}

/// The record field of one table entry: the key decides before the value.
pub open spec fn to_field(entry: (ScriptModel, ScriptModel)) -> Result<
    (Seq<char>, ComponentModel),
    BridgeError,
>
    decreases entry, 0nat,
{
    match key_text(entry.0) {
        Err(error) => Err(error),
        Ok(name) => match to_component(entry.1) {
            Err(error) => Err(error),
            Ok(value) => Ok((name, value)),
        },
    }
}

/// The fields of the record of a table: one for each entry, in order, or the
/// failure of the first entry that has none.
pub open spec fn to_fields(entries: Seq<(ScriptModel, ScriptModel)>) -> Result<
    Seq<(Seq<char>, ComponentModel)>,
    BridgeError,
>
    decreases entries, 1nat,
{
    if entries.len() == 0 {
        Ok(Seq::empty())
    } else {
        match to_fields(entries.drop_last()) {
            Err(error) => Err(error),
            Ok(fields) => match to_field(entries.last()) {
                Err(error) => Err(error),
                Ok(field) => Ok(fields.push(field)),
            },
        }
    }
}

/// An unsigned 64-bit integer read as a signed one: the same bits.
pub open spec fn narrowed(u: u64) -> i64 {
    if u <= i64::MAX {
        u as i64
    } else {
        (u - 0x1_0000_0000_0000_0000) as i64
    }
}

/// The kind under which a plugin-call value is refused.
pub open spec fn refused_kind(value: ComponentModel) -> ComponentKind {
    match value {
        ComponentModel::Other(kind) => kind,
        _ => ComponentKind::Result,
    }
}

/// The script value of a plugin-call value.
///
/// The absent option is nil and a present one is what it holds; a boolean, a
/// signed integer, a float and a string are themselves; an unsigned integer
/// is narrowed; a record is the table that assigning its fields in order
/// leaves. A result, and every other shape, has no script value.
pub open spec fn to_script(value: ComponentModel) -> Result<ScriptModel, BridgeError>
    decreases value,
{
    match value {
        ComponentModel::Option(None) => Ok(ScriptModel::Nil),
        ComponentModel::Option(Some(inner)) => to_script(*inner),
        ComponentModel::Bool(b) => Ok(ScriptModel::Boolean(b)),
        ComponentModel::S64(i) => Ok(ScriptModel::Integer(i)),
        ComponentModel::U64(u) => Ok(ScriptModel::Integer(narrowed(u))),
        ComponentModel::Float64(bits) => Ok(ScriptModel::Number(bits)),
        ComponentModel::String(text) => Ok(ScriptModel::String(encode_utf8(text))),
        ComponentModel::Record(fields) => match to_entries(fields) {
            Ok(entries) => Ok(ScriptModel::Table(entries)),
            Err(error) => Err(error),
        },
        _ => Err(BridgeError::UnsupportedValueError(Variant::Component(refused_kind(value)))),
    }
}

/// The entries of the table of a record: what assigning each field in order
/// leaves, or the failure of the first field whose value has no script value.
pub open spec fn to_entries(fields: Seq<(Seq<char>, ComponentModel)>) -> Result<
    Seq<(ScriptModel, ScriptModel)>,
    BridgeError,
>
    decreases fields,
{
    if fields.len() == 0 {
        Ok(Seq::empty())
    } else {
        match to_entries(fields.drop_last()) {
            Err(error) => Err(error),
            Ok(entries) => match to_script(fields.last().1) {
                Err(error) => Err(error),
                Ok(value) => Ok(
                    assign(entries, ScriptModel::String(encode_utf8(fields.last().0)), value),
                ),
            },
        }
    }
}

/// What a conversion to a plugin-call value gave, by content.
pub open spec fn component_outcome(outcome: Result<ComponentValue, BridgeError>) -> Result<
    ComponentModel,
    BridgeError,
> {
    match outcome {
        Ok(value) => Ok(value@),
        Err(error) => Err(error),
    }
}

/// What a conversion to a script value gave, by content.
pub open spec fn script_outcome(outcome: Result<ScriptValue, BridgeError>) -> Result<
    ScriptModel,
    BridgeError,
> {
    match outcome {
        Ok(value) => Ok(value@),
        Err(error) => Err(error),
    }
}

/// A failure among the first entries of a table is the failure of the table.
pub proof fn to_fields_fails_from_prefix(entries: Seq<(ScriptModel, ScriptModel)>, count: int)
    requires
        0 <= count <= entries.len(),
        to_fields(entries.take(count)) is Err,
    ensures
        to_fields(entries) == to_fields(entries.take(count)),
    decreases entries.len() - count,
{
    if count == entries.len() {
        assert(entries.take(count) =~= entries);
    } else {
        assert(entries.take(count + 1).drop_last() =~= entries.take(count));
        to_fields_fails_from_prefix(entries, count + 1);
    }
}

/// The first `count + 1` entries give what the first `count` give, and then
/// the field of the next entry.
pub proof fn to_fields_step(entries: Seq<(ScriptModel, ScriptModel)>, count: int)
    requires
        0 <= count < entries.len(),
    ensures
        to_fields(entries.take(count + 1)) == match to_fields(entries.take(count)) {
            Err(error) => Err(error),
            Ok(fields) => match to_field(entries[count]) {
                Err(error) => Err(error),
                Ok(field) => Ok(fields.push(field)),
            },
        },
{
    assert(entries.take(count + 1).drop_last() =~= entries.take(count));
    assert(entries.take(count + 1).last() == entries[count]);
}

/// A failure among the first fields of a record is the failure of the record.
pub proof fn to_entries_fails_from_prefix(fields: Seq<(Seq<char>, ComponentModel)>, count: int)
    requires
        0 <= count <= fields.len(),
        to_entries(fields.take(count)) is Err,
    ensures
        to_entries(fields) == to_entries(fields.take(count)),
    decreases fields.len() - count,
{
    if count == fields.len() {
        assert(fields.take(count) =~= fields);
    } else {
        assert(fields.take(count + 1).drop_last() =~= fields.take(count));
        to_entries_fails_from_prefix(fields, count + 1);
    }
}

/// The first `count + 1` fields give what the first `count` give, and then
/// the assignment of the next field.
pub proof fn to_entries_step(fields: Seq<(Seq<char>, ComponentModel)>, count: int)
    requires
        0 <= count < fields.len(),
    ensures
        to_entries(fields.take(count + 1)) == match to_entries(fields.take(count)) {
            Err(error) => Err(error),
            Ok(entries) => match to_script(fields[count].1) {
                Err(error) => Err(error),
                Ok(value) => Ok(
                    assign(entries, ScriptModel::String(encode_utf8(fields[count].0)), value),
                ),
            },
        },
{
    assert(fields.take(count + 1).drop_last() =~= fields.take(count));
    assert(fields.take(count + 1).last() == fields[count]);
}

/// Conversion of a script value into a plugin-call value.
pub trait LuaValueExt {
    /// What the conversion gives, by content.
    spec fn wasm_val(&self) -> Result<ComponentModel, BridgeError>;

    /// Converts the value, or says why it has no plugin-call value.
    fn try_to_wasm_val(&self) -> (outcome: Result<ComponentValue, BridgeError>)
        ensures
            component_outcome(outcome) == self.wasm_val(),
    ;
}

impl LuaValueExt for ScriptValue {
    open spec fn wasm_val(&self) -> Result<ComponentModel, BridgeError> {
        to_component(self@)
    }

    fn try_to_wasm_val(&self) -> (outcome: Result<ComponentValue, BridgeError>)
        decreases self,
    {
        match self {
            ScriptValue::Nil => Ok(ComponentValue::Option(None)),
            ScriptValue::Boolean(b) => Ok(ComponentValue::Bool(*b)),
            ScriptValue::Integer(i) => Ok(ComponentValue::S64(*i)),
            ScriptValue::Number(bits) => Ok(ComponentValue::Float64(*bits)),
            ScriptValue::String(bytes) => match decode(bytes) {
                Some(text) => Ok(ComponentValue::String(text)),
                None => Err(BridgeError::EncodingError(EncodingFault::InvalidUtf8)),
            },
            ScriptValue::Table(entries) => {
                let ghost model = entries_view(entries@);
                let mut fields: Vec<(String, ComponentValue)> = Vec::new();
                let mut i: usize = 0;
                assert(model.take(0) =~= Seq::empty());
                assert(fields_view(fields@) =~= Seq::empty());
                while i < entries.len()
                    invariant
                        i <= entries.len(),
                        self is Table,
                        self->Table_0 == *entries,
                        model == entries_view(entries@),
                        to_fields(model.take(i as int)) == Ok::<_, BridgeError>(
                            fields_view(fields@),
                        ),
                    decreases entries.len() - i,
                {
                    proof {
                        assert(decreases_to!(*entries => entries[i as int]));
                        to_fields_step(model, i as int);
                    }
                    let name = match &entries[i].0 {
                        ScriptValue::String(bytes) => decode(bytes),
                        _ => {
                            proof {
                                to_fields_fails_from_prefix(model, i + 1);
                            }
                            return Err(BridgeError::EncodingError(EncodingFault::NonStringKey));
                        },
                    };
                    let name = match name {
                        Some(name) => name,
                        None => {
                            proof {
                                to_fields_fails_from_prefix(model, i + 1);
                            }
                            return Err(BridgeError::EncodingError(EncodingFault::InvalidUtf8));
                        },
                    };
                    let value = match entries[i].1.try_to_wasm_val() {
                        Ok(value) => value,
                        Err(error) => {
                            proof {
                                to_fields_fails_from_prefix(model, i + 1);
                            }
                            return Err(error);
                        },
                    };
                    let ghost before = fields_view(fields@);
                    fields.push((name, value));
                    assert(fields_view(fields@) =~= before.push((name@, value@)));
                    i += 1;
                }
                assert(model.take(i as int) =~= model);
                Ok(ComponentValue::Record(fields))
            },
            ScriptValue::Error(description) => {
                let message = ComponentValue::String(description.clone());
                assert(message@ == ComponentModel::String(description@));
                let payload = Some(Box::new(message));
                assert(payload_view(payload) == Some(Box::new(message@)));
                Ok(ComponentValue::Result(Err(payload)))
            },
            ScriptValue::Opaque(kind) => Err(
                BridgeError::UnsupportedValueError(Variant::Script(*kind)),
            ),
        }
    }
}

/// Reads an unsigned 64-bit integer as a signed one.
fn narrow(u: u64) -> (i: i64)
    ensures
        i == narrowed(u),
{
    if u <= 0x7fff_ffff_ffff_ffff {
        u as i64
    } else {
        let low: u64 = u - 0x8000_0000_0000_0000;
        (low as i64) + i64::MIN
    }
}

/// Conversion of a plugin-call value into a script value.
pub trait ComponentValExt {
    /// What the conversion gives, by content.
    spec fn lua_value(&self) -> Result<ScriptModel, BridgeError>;

    /// Converts the value, or says why it has no script value.
    fn to_lua_value(&self) -> (outcome: Result<ScriptValue, BridgeError>)
        ensures
            script_outcome(outcome) == self.lua_value(),
    ;
}

impl ComponentValExt for ComponentValue {
    open spec fn lua_value(&self) -> Result<ScriptModel, BridgeError> {
        to_script(self@)
    }

    fn to_lua_value(&self) -> (outcome: Result<ScriptValue, BridgeError>)
        decreases self,
    {
        match self {
            ComponentValue::Option(None) => Ok(ScriptValue::Nil),
            ComponentValue::Option(Some(inner)) => (**inner).to_lua_value(),
            ComponentValue::Bool(b) => Ok(ScriptValue::Boolean(*b)),
            ComponentValue::S64(i) => Ok(ScriptValue::Integer(*i)),
            ComponentValue::U64(u) => Ok(ScriptValue::Integer(narrow(*u))),
            ComponentValue::Float64(bits) => Ok(ScriptValue::Number(*bits)),
            ComponentValue::String(text) => Ok(ScriptValue::String(encode(text))),
            ComponentValue::Record(fields) => {
                let ghost model = fields_view(fields@);
                let mut entries: Vec<(ScriptValue, ScriptValue)> = Vec::new();
                let mut i: usize = 0;
                assert(model.take(0) =~= Seq::empty());
                assert(entries_view(entries@) =~= Seq::empty());
                while i < fields.len()
                    invariant
                        i <= fields.len(),
                        self is Record,
                        self->Record_0 == *fields,
                        model == fields_view(fields@),
                        to_entries(model.take(i as int)) == Ok::<_, BridgeError>(
                            entries_view(entries@),
                        ),
                    decreases fields.len() - i,
                {
                    proof {
                        assert(decreases_to!(*fields => fields[i as int]));
                        to_entries_step(model, i as int);
                    }
                    let value = match fields[i].1.to_lua_value() {
                        Ok(value) => value,
                        Err(error) => {
                            proof {
                                to_entries_fails_from_prefix(model, i + 1);
                            }
                            return Err(error);
                        },
                    };
                    put(&mut entries, ScriptValue::String(encode(&fields[i].0)), value);
                    i += 1;
                }
                assert(model.take(i as int) =~= model);
                Ok(ScriptValue::Table(entries))
            },
            ComponentValue::Result(_) => Err(
                BridgeError::UnsupportedValueError(Variant::Component(ComponentKind::Result)),
            ),
            ComponentValue::Other(kind) => Err(
                BridgeError::UnsupportedValueError(Variant::Component(*kind)),
            ),
        }
    }
}

} // verus!
