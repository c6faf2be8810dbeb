//! Assignment to a script table, as the script runtime performs it.

use crate::text::same_bytes;
use crate::value::{entries_view, well_formed, well_formed_entries, ScriptModel, ScriptValue};
use vstd::prelude::*;

verus! {

/// The index of the first entry under `key`, or the number of entries where
/// there is none.
pub open spec fn position(entries: Seq<(ScriptModel, ScriptModel)>, key: ScriptModel) -> int
    decreases entries.len(),
{
    if entries.len() == 0 {
        0
    } else if entries.first().0 == key {
        0
    } else {
        1 + position(entries.drop_first(), key)
    }
}

/// The entries of a table after `table[key] = value`.
///
/// Assigning nil removes the entry under `key`; assigning to a key that is
/// present replaces its value in place; any other assignment adds an entry
/// at the end.
pub open spec fn assign(
    entries: Seq<(ScriptModel, ScriptModel)>,
    key: ScriptModel,
    value: ScriptModel,
) -> Seq<(ScriptModel, ScriptModel)> {
    let at = position(entries, key);
    if at < entries.len() {
        if value == ScriptModel::Nil {
            entries.remove(at)
        } else {
            entries.update(at, (key, value))
        }
    } else if value == ScriptModel::Nil {
        entries
    } else {
        entries.push((key, value))
    }
}

/// `position` is the least index under which `key` stands.
pub proof fn position_is_first(entries: Seq<(ScriptModel, ScriptModel)>, key: ScriptModel, at: int)
    requires
        0 <= at <= entries.len(),
        forall|j: int| 0 <= j < at ==> (#[trigger] entries[j]).0 != key,
        at < entries.len() ==> entries[at].0 == key,
    ensures
        position(entries, key) == at,
    decreases entries.len(),
{
    if entries.len() > 0 && at > 0 {
        let rest = entries.drop_first();
        assert(entries.first() == entries[0]);
        assert forall|j: int| 0 <= j < at - 1 implies (#[trigger] rest[j]).0 != key by {
            assert(rest[j] == entries[j + 1]);
        }
        position_is_first(rest, key, at - 1);
    }
}

/// `position` stays within the table and points at `key` when it is inside.
pub proof fn position_in_range(entries: Seq<(ScriptModel, ScriptModel)>, key: ScriptModel)
    ensures
        0 <= position(entries, key) <= entries.len(),
        position(entries, key) < entries.len() ==> entries[position(entries, key)].0 == key,
        forall|j: int| 0 <= j < position(entries, key) ==> (#[trigger] entries[j]).0 != key,
    decreases entries.len(),
{
    if entries.len() > 0 && entries.first().0 != key {
        let rest = entries.drop_first();
        position_in_range(rest, key);
        assert forall|j: int| 0 <= j < position(entries, key) implies (#[trigger] entries[j]).0
            != key by {
            if j > 0 {
                assert(rest[j - 1] == entries[j]);
            }
        }
    }
}

/// Assignment keeps a table one that a script runtime can hold.
pub proof fn assign_keeps_well_formed(
    entries: Seq<(ScriptModel, ScriptModel)>,
    key: ScriptModel,
    value: ScriptModel,
)
    requires
        well_formed_entries(entries),
        key != ScriptModel::Nil,
        well_formed(key),
        well_formed(value),
    ensures
        well_formed_entries(assign(entries, key, value)),
{
    position_in_range(entries, key);
    let at = position(entries, key);
    let after = assign(entries, key, value);
    if at < entries.len() {
        if value == ScriptModel::Nil {
            assert forall|i: int, j: int| 0 <= i < j < after.len() implies (#[trigger] after[i]).0
                != (#[trigger] after[j]).0 by {
                let oi = if i < at { i } else { i + 1 };
                let oj = if j < at { j } else { j + 1 };
                assert(after[i] == entries[oi]);
                assert(after[j] == entries[oj]);
            }
            assert forall|i: int| 0 <= i < after.len() implies {
                &&& (#[trigger] after[i]).0 != ScriptModel::Nil
                &&& after[i].1 != ScriptModel::Nil
                &&& well_formed(after[i].0)
                &&& well_formed(after[i].1)
            } by {
                let oi = if i < at { i } else { i + 1 };
                assert(after[i] == entries[oi]);
            }
        } else {
            assert forall|i: int, j: int| 0 <= i < j < after.len() implies (#[trigger] after[i]).0
                != (#[trigger] after[j]).0 by {
                assert(after[i].0 == entries[i].0);
                assert(after[j].0 == entries[j].0);
            }
            assert forall|i: int| 0 <= i < after.len() implies {
                &&& (#[trigger] after[i]).0 != ScriptModel::Nil
                &&& after[i].1 != ScriptModel::Nil
                &&& well_formed(after[i].0)
                &&& well_formed(after[i].1)
            } by {
                if i != at {
                    assert(after[i] == entries[i]);
                }
            }
        }
    } else if value != ScriptModel::Nil {
        assert forall|i: int, j: int| 0 <= i < j < after.len() implies (#[trigger] after[i]).0
            != (#[trigger] after[j]).0 by {
            assert(after[i] == entries[i]);
            if j < entries.len() {
                assert(after[j] == entries[j]);
            }
        }
        assert forall|i: int| 0 <= i < after.len() implies {
            &&& (#[trigger] after[i]).0 != ScriptModel::Nil
            &&& after[i].1 != ScriptModel::Nil
            &&& well_formed(after[i].0)
            &&& well_formed(after[i].1)
        } by {
            if i < entries.len() {
                assert(after[i] == entries[i]);
            }
        }
    }
}

/// Whether the key of an entry is the given text or index.
fn holds_key(existing: &ScriptValue, key: &ScriptValue) -> (same: bool)
    requires
        key is String || key is Integer,
    ensures
        same == (existing@ == key@),
{
    match (existing, key) {
        (ScriptValue::String(left), ScriptValue::String(right)) => same_bytes(left, right),
        (ScriptValue::Integer(left), ScriptValue::Integer(right)) => *left == *right,
        _ => false,
    }
}

/// Performs `table[key] = value` on the entries of a table, for a key that
/// is a string or an integer.
pub(crate) fn put(entries: &mut Vec<(ScriptValue, ScriptValue)>, key: ScriptValue, value: ScriptValue)
    requires
        key is String || key is Integer,
    ensures
        entries_view(final(entries)@) == assign(entries_view(old(entries)@), key@, value@),
{
    let ghost before = entries_view(entries@);
    let mut at: usize = 0;
    while at < entries.len()
        invariant
            at <= entries.len(),
            key is String || key is Integer,
            before == entries_view(entries@),
            forall|j: int| 0 <= j < at ==> (#[trigger] before[j]).0 != key@,
        ensures
            at <= entries.len(),
            forall|j: int| 0 <= j < at ==> (#[trigger] before[j]).0 != key@,
            at < entries.len() ==> before[at as int].0 == key@,
        decreases entries.len() - at,
    {
        if holds_key(&entries[at].0, &key) {
            break;
        }
        at += 1;
    }
    proof {
        position_is_first(before, key@, at as int);
    }
    let absent = match value {
        ScriptValue::Nil => true,
        _ => false,
    };
    if at < entries.len() {
        if absent {
            entries.remove(at);
            assert(entries_view(entries@) =~= before.remove(at as int));
        } else {
            entries[at] = (key, value);
            assert(entries_view(entries@) =~= before.update(at as int, (key@, value@)));
        }
    } else if !absent {
        entries.push((key, value));
        assert(entries_view(entries@) =~= before.push((key@, value@)));
    }
}

} // verus!
