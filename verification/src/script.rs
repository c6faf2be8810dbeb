//! The script runtime, as far as handlers use it.
//!
//! Every handle into a script environment is held together with that
//! environment, so that the environment outlives the handle.

use vstd::prelude::*;

verus! {

#[verifier::external_type_specification]
#[verifier::external_body]
pub struct ExLua(mlua::Lua);

#[verifier::external_type_specification]
#[verifier::external_body]
pub struct ExTable(mlua::Table);

#[verifier::external_type_specification]
#[verifier::external_body]
pub struct ExFunction(mlua::Function);

#[verifier::external_type_specification]
#[verifier::external_body]
pub struct ExValue(mlua::Value);

#[verifier::external_type_specification]
#[verifier::external_body]
pub struct ExError(mlua::Error);

#[verifier::external_type_specification]
#[verifier::external_body]
pub struct ExJson(serde_json::Value);

#[verifier::external_type_specification]
#[verifier::external_body]
pub struct ExJsonError(serde_json::Error);

/// A table of a script environment.
pub(crate) struct ScriptTable {
    table: mlua::Table,
    lua: mlua::Lua,
}

/// A function of a script environment.
pub(crate) struct ScriptFunction {
    function: mlua::Function,
    lua: mlua::Lua,
}

/// What a function of a script environment returned.
pub(crate) struct ScriptReply {
    value: mlua::Value,
    lua: mlua::Lua,
}

/// Evaluates `source` in `lua` and expects a table.
///
/// Calls `mlua::Lua::load` and `mlua::Chunk::eval`. What comes back depends
/// on the script and on the state of the environment, so nothing is claimed
/// of it. Returns when the script does.
#[verifier::external_body]
pub(crate) fn evaluate(lua: mlua::Lua, source: &str) -> (table: Result<ScriptTable, mlua::Error>) {
    let table = lua.load(source).eval::<mlua::Table>()?;
    Ok(ScriptTable { table, lua })
}

/// The function that `table` holds under `key`.
///
/// Calls `mlua::Table::get`, which may run a metamethod of the script:
/// nothing is claimed of the result.
#[verifier::external_body]
pub(crate) fn function_field(table: &ScriptTable, key: &str) -> (field: Result<
    ScriptFunction,
    mlua::Error,
>) {
    let function = table.table.get::<mlua::Function>(key)?;
    Ok(ScriptFunction { function, lua: table.lua.clone() })
}

/// The table that `table` holds under `key`.
///
/// Calls `mlua::Table::get`, which may run a metamethod of the script:
/// nothing is claimed of the result.
#[verifier::external_body]
pub(crate) fn table_field(table: &ScriptTable, key: &str) -> (field: Result<
    ScriptTable,
    mlua::Error,
>) {
    let inner = table.table.get::<mlua::Table>(key)?;
    Ok(ScriptTable { table: inner, lua: table.lua.clone() })
}

/// The text that `table` holds under `key`, as the runtime converts it.
///
/// Calls `mlua::Table::get`, which may run a metamethod of the script:
/// nothing is claimed of the result.
#[verifier::external_body]
pub(crate) fn text_field(table: &ScriptTable, key: &str) -> (field: Result<String, mlua::Error>) {
    table.table.get::<String>(key)
}

/// The unsigned 8-bit integer that `table` holds under `key`, as the runtime
/// converts it.
///
/// Calls `mlua::Table::get`, which may run a metamethod of the script:
/// nothing is claimed of the result.
#[verifier::external_body]
pub(crate) fn byte_field(table: &ScriptTable, key: &str) -> (field: Result<u8, mlua::Error>) {
    table.table.get::<u8>(key)
}

/// Calls `function` with one string and takes its first result.
///
/// Calls `mlua::Function::call`. The script decides what comes back, and may
/// reach the network on the way: nothing is claimed of the result. Returns
/// when the script does.
#[verifier::external_body]
pub(crate) fn call(function: &ScriptFunction, argument: String) -> (reply: Result<
    ScriptReply,
    mlua::Error,
>) {
    let value = function.function.call::<mlua::Value>(argument)?;
    Ok(ScriptReply { value, lua: function.lua.clone() })
}

/// Whether the reply is nil. Calls `mlua::Value::is_nil`.
#[verifier::external_body]
pub(crate) fn is_nil(reply: &ScriptReply) -> (nil: bool) {
    reply.value.is_nil()
}

/// The boolean that the reply is, if it is one. Calls
/// `mlua::Value::as_boolean`.
#[verifier::external_body]
pub(crate) fn as_boolean(reply: &ScriptReply) -> (boolean: Option<bool>) {
    reply.value.as_boolean()
}

/// The reply as text, as the runtime converts it. Calls `mlua::Lua::unpack`.
#[verifier::external_body]
pub(crate) fn into_text(reply: ScriptReply) -> (text: Result<String, mlua::Error>) {
    reply.lua.unpack::<String>(reply.value)
}

/// The reply as a table, if it is one. Calls `mlua::Lua::unpack`.
#[verifier::external_body]
pub(crate) fn into_table(reply: ScriptReply) -> (table: Result<ScriptTable, mlua::Error>) {
    let table = reply.lua.unpack::<mlua::Table>(reply.value)?;
    Ok(ScriptTable { table, lua: reply.lua })
}

/// The table written as a JSON document.
///
/// Calls `serde_json::to_value` on the table, which walks it through the
/// runtime. The table belongs to the script: nothing is claimed of the
/// result.
#[verifier::external_body]
pub(crate) fn to_json(table: &ScriptTable) -> (document: Result<
    serde_json::Value,
    serde_json::Error,
>) {
    serde_json::to_value(&table.table)
}

} // verus!
