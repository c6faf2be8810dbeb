//! One binary module, callable from a handler's script.

use crate::conversion::{to_component, to_script, ComponentValExt, LuaValueExt};
use crate::error::{CallError, LoadError};
use crate::sandbox::{compile, engine, entry, prepare, run, start, Entry};
use crate::value::{ComponentModel, ComponentValue, ScriptModel, ScriptValue};
use vstd::prelude::*;

verus! {

/// A plugin: a name and a template from which a fresh instance is made for
/// every call, so that no state of one call reaches the next.
pub struct Plugin {
    pub name: String,
    pub template: wasmtime::component::InstancePre<()>,
}

/// The plugin-call values of the script values that have one, in order.
pub open spec fn arguments(params: Seq<ScriptModel>) -> Seq<ComponentModel>
    decreases params.len(),
{
    if params.len() == 0 {
        Seq::empty()
    } else {
        match to_component(params.last()) {
            Ok(value) => arguments(params.drop_last()).push(value),
            Err(_) => arguments(params.drop_last()),
        }
    }
}

/// The script values of the plugin-call values that have one, in order.
pub open spec fn returned(results: Seq<ComponentModel>) -> Seq<ScriptModel>
    decreases results.len(),
{
    if results.len() == 0 {
        Seq::empty()
    } else {
        match to_script(results.last()) {
            Ok(value) => returned(results.drop_last()).push(value),
            Err(_) => returned(results.drop_last()),
        }
    }
}

/// The content of each script value.
pub open spec fn script_views(values: Seq<ScriptValue>) -> Seq<ScriptModel> {
    Seq::new(values.len(), |i: int| values[i]@)
}

/// The content of each plugin-call value.
pub open spec fn component_views(values: Seq<ComponentValue>) -> Seq<ComponentModel> {
    Seq::new(values.len(), |i: int| values[i]@)
}

/// Converts the arguments of a call from a script. An argument that has no
/// plugin-call value is left out, and the ones behind it move up.
pub fn marshal_arguments(params: &Vec<ScriptValue>) -> (converted: Vec<ComponentValue>)
    ensures
        component_views(converted@) == arguments(script_views(params@)),
        converted@.len() <= params@.len(),
{
    let ghost models = script_views(params@);
    let mut converted: Vec<ComponentValue> = Vec::new();
    let mut i: usize = 0;
    assert(models.take(0) =~= Seq::empty());
    assert(component_views(converted@) =~= Seq::empty());
    while i < params.len()
        invariant
            i <= params.len(),
            models == script_views(params@),
            component_views(converted@) == arguments(models.take(i as int)),
            converted@.len() <= i,
        decreases params.len() - i,
    {
        proof {
            assert(models.take(i + 1).drop_last() =~= models.take(i as int));
            assert(models.take(i + 1).last() == params@[i as int]@);
        }
        match params[i].try_to_wasm_val() {
            Ok(value) => {
                let ghost before = component_views(converted@);
                converted.push(value);
                assert(component_views(converted@) =~= before.push(value@));
            },
            Err(_) => {},
        }
        i += 1;
    }
    assert(models.take(i as int) =~= models);
    converted
}

/// Converts the results of a call for a script. A result that has no script
/// value is left out, and the ones behind it move up.
pub fn marshal_results(results: &Vec<ComponentValue>) -> (converted: Vec<ScriptValue>)
    ensures
        script_views(converted@) == returned(component_views(results@)),
        converted@.len() <= results@.len(),
{
    let ghost models = component_views(results@);
    let mut converted: Vec<ScriptValue> = Vec::new();
    let mut i: usize = 0;
    assert(models.take(0) =~= Seq::empty());
    assert(script_views(converted@) =~= Seq::empty());
    while i < results.len()
        invariant
            i <= results.len(),
            models == component_views(results@),
            script_views(converted@) == returned(models.take(i as int)),
            converted@.len() <= i,
        decreases results.len() - i,
    {
        proof {
            assert(models.take(i + 1).drop_last() =~= models.take(i as int));
            assert(models.take(i + 1).last() == results@[i as int]@);
        }
        match results[i].to_lua_value() {
            Ok(value) => {
                let ghost before = script_views(converted@);
                converted.push(value);
                assert(script_views(converted@) =~= before.push(value@));
            },
            Err(_) => {},
        }
        i += 1;
    }
    assert(models.take(i as int) =~= models);
    converted
}

impl Plugin {
    /// Loads a plugin from the bytes of its module, under the name that its
    /// file gave, if it gave one.
    ///
    /// Fails without a name before the module is looked at.
    pub fn load(name: Option<String>, module: &Vec<u8>) -> (loaded: Result<Plugin, LoadError>)
        ensures
            name is None ==> loaded == Err::<Plugin, LoadError>(LoadError::Unnamed),
            loaded matches Ok(plugin) ==> name == Some(plugin.name),
            loaded matches Err(error) ==> (error == LoadError::Unnamed <==> name is None),
    {
        let name = match name {
            Some(name) => name,
            None => return Err(LoadError::Unnamed),
        };
        let engine = match engine() {
            Ok(engine) => engine,
            Err(_) => return Err(LoadError::Engine),
        };
        let component = match compile(&engine, module) {
            Ok(component) => component,
            Err(_) => return Err(LoadError::InvalidModule),
        };
        match prepare(&component) {
            Ok(template) => Ok(Plugin { name, template }),
            Err(_) => Err(LoadError::InterfaceMismatch),
        }
    }

    /// Makes a fresh instance and finds in it the function called `name`.
    ///
    /// The entry that is found is the export of that name. Where none is
    /// found, either no instance could be made or the instance exports no
    /// function of that name; whether one is found is the module's affair.
    /// The plugin itself is left as it was.
    pub fn get_func(&mut self, name: &str) -> (found: Result<Entry, CallError>)
        ensures
            *final(self) == *old(self),
            match found {
                Ok(entry) => entry.export() == name@,
                Err(error) => error == CallError::Instantiation || error
                    == CallError::MissingEntryPoint,
            },
    {
        let sandbox = match start(&self.template) {
            Ok(sandbox) => sandbox,
            Err(_) => return Err(CallError::Instantiation),
        };
        match entry(sandbox, name) {
            Some(found) => Ok(found),
            None => Err(CallError::MissingEntryPoint),
        }
    }

    /// Calls the plugin: makes a fresh instance, finds in it the function
    /// that is named as the plugin is, calls it with `params` and hands back
    /// what it returned. Taking the plugin by `&mut` keeps two calls of one
    /// plugin from running at once.
    ///
    /// No state of the call stays behind: the plugin is left as it was. What
    /// comes back is the module's affair.
    pub fn call(&mut self, params: &Vec<wasmtime::component::Val>) -> (results: Result<
        Vec<wasmtime::component::Val>,
        CallError,
    >)
        ensures
            *final(self) == *old(self),
    {
        let name = self.name.clone();
        let found = match self.get_func(name.as_str()) {
            Ok(found) => found,
            Err(error) => return Err(error),
        };
        assert(found.export() == self.name@);
        concluded(run(found, params))
    }
}

/// What a call gave, once the function was entered: its results, or a trap
/// where the runtime reports a failure.
pub open spec fn conclusion(outcome: Result<Vec<wasmtime::component::Val>, anyhow::Error>) -> Result<
    Vec<wasmtime::component::Val>,
    CallError,
> {
    match outcome {
        Ok(values) => Ok(values),
        Err(_) => Err(CallError::Trap),
    }
}

/// Reads what the runtime reports of a call.
pub fn concluded(outcome: Result<Vec<wasmtime::component::Val>, anyhow::Error>) -> (results: Result<
    Vec<wasmtime::component::Val>,
    CallError,
>)
    ensures
        results == conclusion(outcome),
{
    match outcome {
        Ok(values) => Ok(values),
        Err(_) => Err(CallError::Trap),
    }
}

} // verus!
