//! What holds of the value bridge as a whole: which values cross it, and
//! which come back as they went.

use crate::conversion::{
    key_text, to_component, to_entries, to_entries_step, to_field, to_fields,
    to_fields_fails_from_prefix, to_fields_step, to_script, BridgeError,
};
use crate::table::{assign, assign_keeps_well_formed, position_is_first};
use crate::value::{well_formed, well_formed_entries, ComponentModel, ScriptModel};
use vstd::prelude::*;
use vstd::utf8::{decode_utf8, decode_utf8_encode_utf8, encode_utf8, valid_utf8};

verus! {

/// Whether a script value has a plugin-call value: it holds, at any depth, no
/// opaque value, no string that is not UTF-8 and no table key that is not a
/// string.
pub open spec fn supported(value: ScriptModel) -> bool
    decreases value,
{
    match value {
        ScriptModel::String(bytes) => valid_utf8(bytes),
        ScriptModel::Table(entries) => supported_entries(entries),
        ScriptModel::Opaque(_) => false,
        _ => true,
    }
}

/// [`supported`], of the entries of one table.
pub open spec fn supported_entries(entries: Seq<(ScriptModel, ScriptModel)>) -> bool
    decreases entries,
{
    forall|i: int|
        0 <= i < entries.len() ==> key_text((#[trigger] entries[i]).0) is Ok && supported(
            entries[i].1,
        )
}

/// The conversion into a plugin-call value succeeds on the supported values
/// and on no others.
pub proof fn to_component_succeeds_on_supported(value: ScriptModel)
    ensures
        to_component(value) is Ok <==> supported(value),
    decreases value,
{
    match value {
        ScriptModel::Table(entries) => {
            to_fields_succeeds_on_supported(entries, entries.len() as int);
            assert(entries.take(entries.len() as int) =~= entries);
        },
        _ => {},
    }
}

/// The first `count` entries of a table give fields exactly when each of
/// them is supported, and then one field for each entry.
pub proof fn to_fields_succeeds_on_supported(entries: Seq<(ScriptModel, ScriptModel)>, count: int)
    requires
        0 <= count <= entries.len(),
    ensures
        to_fields(entries.take(count)) is Ok <==> supported_entries(entries.take(count)),
        to_fields(entries.take(count)) matches Ok(fields) ==> fields.len() == count,
    decreases entries, count,
{
    let prefix = entries.take(count);
    if count > 0 {
        to_fields_succeeds_on_supported(entries, count - 1);
        to_fields_step(entries, count - 1);
        to_component_succeeds_on_supported(entries[count - 1].1);
        let shorter = entries.take(count - 1);
        assert(prefix[count - 1] == entries[count - 1]);
        if supported_entries(prefix) {
            assert forall|i: int| 0 <= i < shorter.len() implies key_text(
                (#[trigger] shorter[i]).0,
            ) is Ok && supported(shorter[i].1) by {
                assert(shorter[i] == prefix[i]);
            }
        }
        if supported_entries(shorter) && to_field(entries[count - 1]) is Ok {
            assert forall|i: int| 0 <= i < prefix.len() implies key_text(
                (#[trigger] prefix[i]).0,
            ) is Ok && supported(prefix[i].1) by {
                if i < count - 1 {
                    assert(prefix[i] == shorter[i]);
                }
            }
        }
    }
}

/// Whether a script value holds no runtime error, at any depth.
pub open spec fn free_of_errors(value: ScriptModel) -> bool
    decreases value,
{
    match value {
        ScriptModel::Error(_) => false,
        ScriptModel::Table(entries) => free_of_errors_entries(entries),
        _ => true,
    }
}

/// [`free_of_errors`], of the values of one table.
pub open spec fn free_of_errors_entries(entries: Seq<(ScriptModel, ScriptModel)>) -> bool
    decreases entries,
{
    forall|i: int| 0 <= i < entries.len() ==> free_of_errors((#[trigger] entries[i]).1)
}

/// Round trip: a script value that has a plugin-call value and holds no
/// runtime error comes back from it unchanged.
pub proof fn round_trip(value: ScriptModel)
    requires
        well_formed(value),
        free_of_errors(value),
        to_component(value) is Ok,
    ensures
        to_script(to_component(value)->Ok_0) == Ok::<_, BridgeError>(value),
    decreases value,
{
    match value {
        ScriptModel::String(bytes) => {
            decode_utf8_encode_utf8(bytes);
        },
        ScriptModel::Table(entries) => {
            round_trip_entries(entries, entries.len() as int);
            assert(entries.take(entries.len() as int) =~= entries);
        },
        _ => {},
    }
}

/// Round trip, of the first `count` entries of a table.
pub proof fn round_trip_entries(entries: Seq<(ScriptModel, ScriptModel)>, count: int)
    requires
        0 <= count <= entries.len(),
        well_formed_entries(entries),
        free_of_errors_entries(entries),
        to_fields(entries) is Ok,
    ensures
        to_fields(entries.take(count)) is Ok,
        to_entries(to_fields(entries.take(count))->Ok_0) == Ok::<_, BridgeError>(
            entries.take(count),
        ),
    decreases entries, count,
{
    if to_fields(entries.take(count)) is Err {
        to_fields_fails_from_prefix(entries, count);
    }
    if count == 0 {
        assert(entries.take(0) =~= Seq::empty());
    } else {
        let at = count - 1;
        round_trip_entries(entries, at);
        to_fields_step(entries, at);
        let shorter = entries.take(at);
        let fields = to_fields(shorter)->Ok_0;
        let field = to_field(entries[at])->Ok_0;
        let key = entries[at].0;
        let value = entries[at].1;
        assert(key is String);
        let bytes = key->String_0;
        decode_utf8_encode_utf8(bytes);
        round_trip(value);
        let longer = fields.push(field);
        to_fields_succeeds_on_supported(entries, at);
        to_entries_step(longer, at);
        assert(longer.take(at) =~= fields);
        assert(longer.take(at + 1) =~= longer);
        assert forall|j: int| 0 <= j < at implies (#[trigger] shorter[j]).0 != key by {
            assert(shorter[j] == entries[j]);
        }
        position_is_first(shorter, key, at);
        assert(assign(shorter, key, value) =~= entries.take(count));
    }
}

/// Whether a plugin-call value has a script value: it is no result and no
/// other unsupported shape, nor is what a present option or a record field
/// holds.
pub open spec fn representable(value: ComponentModel) -> bool
    decreases value,
{
    match value {
        ComponentModel::Option(Some(inner)) => representable(*inner),
        ComponentModel::Record(fields) => representable_fields(fields),
        ComponentModel::Result(_) => false,
        ComponentModel::Other(_) => false,
        _ => true,
    }
}

/// [`representable`], of the values of one record.
pub open spec fn representable_fields(fields: Seq<(Seq<char>, ComponentModel)>) -> bool
    decreases fields,
{
    forall|i: int| 0 <= i < fields.len() ==> representable((#[trigger] fields[i]).1)
}

/// The conversion into a script value succeeds on the representable values
/// and on no others, and what it gives is a value that a script runtime can
/// hold.
pub proof fn to_script_succeeds_on_representable(value: ComponentModel)
    ensures
        to_script(value) is Ok <==> representable(value),
        to_script(value) matches Ok(script) ==> well_formed(script),
    decreases value,
{
    match value {
        ComponentModel::Option(Some(inner)) => {
            to_script_succeeds_on_representable(*inner);
        },
        ComponentModel::Record(fields) => {
            to_entries_succeeds_on_representable(fields, fields.len() as int);
            assert(fields.take(fields.len() as int) =~= fields);
        },
        _ => {},
    }
}

/// The first `count` fields of a record give a table exactly when the value
/// of each is representable.
pub proof fn to_entries_succeeds_on_representable(
    fields: Seq<(Seq<char>, ComponentModel)>,
    count: int,
)
    requires
        0 <= count <= fields.len(),
    ensures
        to_entries(fields.take(count)) is Ok <==> representable_fields(fields.take(count)),
        to_entries(fields.take(count)) matches Ok(entries) ==> well_formed_entries(entries),
    decreases fields, count,
{
    let prefix = fields.take(count);
    if count > 0 {
        to_entries_succeeds_on_representable(fields, count - 1);
        to_entries_step(fields, count - 1);
        to_script_succeeds_on_representable(fields[count - 1].1);
        let shorter = fields.take(count - 1);
        assert(prefix[count - 1] == fields[count - 1]);
        if representable_fields(prefix) {
            assert forall|i: int| 0 <= i < shorter.len() implies representable(
                (#[trigger] shorter[i]).1,
            ) by {
                assert(shorter[i] == prefix[i]);
            }
        }
        if representable_fields(shorter) && to_script(fields[count - 1].1) is Ok {
            assert forall|i: int| 0 <= i < prefix.len() implies representable(
                (#[trigger] prefix[i]).1,
            ) by {
                if i < count - 1 {
                    assert(prefix[i] == shorter[i]);
                }
            }
        }
        if to_entries(prefix) is Ok {
            assign_keeps_well_formed(
                to_entries(shorter)->Ok_0,
                ScriptModel::String(encode_utf8(fields[count - 1].0)),
                to_script(fields[count - 1].1)->Ok_0,
            );
        }
    } else {
        assert(prefix =~= Seq::empty());
    }
}

} // verus!
