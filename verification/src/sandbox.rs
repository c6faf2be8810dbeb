//! The plugin runtime, as far as plugins use it.
//!
//! Every handle into a store is held together with that store, so that no
//! handle meets a store that does not own it.

use vstd::prelude::*;

verus! {

#[verifier::external_type_specification]
#[verifier::external_body]
pub struct ExEngine(wasmtime::Engine);

#[verifier::external_type_specification]
#[verifier::external_body]
pub struct ExComponent(wasmtime::component::Component);

#[verifier::external_type_specification]
#[verifier::external_body]
#[verifier::reject_recursive_types(T)]
pub struct ExInstancePre<T: 'static>(wasmtime::component::InstancePre<T>);

#[verifier::external_type_specification]
#[verifier::external_body]
#[verifier::reject_recursive_types(T)]
pub struct ExStore<T: 'static>(wasmtime::Store<T>);

#[verifier::external_type_specification]
#[verifier::external_body]
pub struct ExInstance(wasmtime::component::Instance);

#[verifier::external_type_specification]
#[verifier::external_body]
pub struct ExFunc(wasmtime::component::Func);

#[verifier::external_type_specification]
#[verifier::external_body]
pub struct ExVal(wasmtime::component::Val);

#[verifier::external_type_specification]
#[verifier::external_body]
pub struct ExFault(anyhow::Error);

/// A fresh instance of a module, in a store of its own.
pub struct Sandbox {
    store: wasmtime::Store<()>,
    instance: wasmtime::component::Instance,
}

/// An exported function of a fresh instance, with the store of that instance
/// and the name under which the function was found.
pub struct Entry {
    store: wasmtime::Store<()>,
    function: wasmtime::component::Func,
    export: String,
}

impl Entry {
    /// The name under which the function was found in its instance.
    pub closed spec fn export(&self) -> Seq<char> {
        self.export@
    }
}

/// An engine that runs components.
///
/// Calls `wasmtime::Engine::new` on the default configuration with the
/// component model switched on. Whether an engine can be had depends on the
/// machine: nothing is claimed of the result.
#[verifier::external_body]
pub(crate) fn engine() -> (engine: Result<wasmtime::Engine, anyhow::Error>) {
    let mut config = wasmtime::Config::default();
    config.wasm_component_model(true);
    wasmtime::Engine::new(&config)
}

/// The component that `module` holds, in binary or in text form.
///
/// Calls `wasmtime::component::Component::new`, which fails on what is no
/// valid component. Validity takes the whole format to state: nothing is
/// claimed of the result.
#[verifier::external_body]
pub(crate) fn compile(engine: &wasmtime::Engine, module: &Vec<u8>) -> (component: Result<
    wasmtime::component::Component,
    anyhow::Error,
>) {
    wasmtime::component::Component::new(engine, module)
}

/// A template from which fresh instances of `component` are made, with
/// nothing offered for the component to import.
///
/// Calls `wasmtime::component::Linker::instantiate_pre` on an empty linker of
/// the component's engine, which fails where the component imports anything.
#[verifier::external_body]
pub(crate) fn prepare(component: &wasmtime::component::Component) -> (template: Result<
    wasmtime::component::InstancePre<()>,
    anyhow::Error,
>) {
    wasmtime::component::Linker::new(component.engine()).instantiate_pre(component)
}

/// A fresh instance of the template, in a new store.
///
/// Calls `wasmtime::component::InstancePre::instantiate` on a new
/// `wasmtime::Store` of the template's engine. The store is synchronous, as
/// the call asks. Instantiation runs code of the module: nothing is claimed
/// of the result.
#[verifier::external_body]
pub(crate) fn start(template: &wasmtime::component::InstancePre<()>) -> (sandbox: Result<
    Sandbox,
    anyhow::Error,
>) {
    let mut store = wasmtime::Store::new(template.engine(), ());
    let instance = template.instantiate(&mut store)?;
    Ok(Sandbox { store, instance })
}

/// The function that the instance exports under `name`, if there is one.
///
/// Calls `wasmtime::component::Instance::get_func` with the store that the
/// instance was made in, which looks the function up by the name given. The
/// entry keeps that name.
#[verifier::external_body]
pub(crate) fn entry(sandbox: Sandbox, name: &str) -> (found: Option<Entry>)
    ensures
        found matches Some(entry) ==> entry.export() == name@,
{
    let Sandbox { mut store, instance } = sandbox;
    let function = instance.get_func(&mut store, name)?;
    Some(Entry { store, function, export: name.to_owned() })
}

/// Calls the function with `params` and hands back its results.
///
/// Calls `wasmtime::component::Func::call` with the store that owns the
/// function and with room for as many results as
/// `wasmtime::component::Func::results` counts. The call fails where the
/// parameters do not fit the function or where the function traps. What the
/// module computes is its own affair: nothing is claimed of the result.
/// The instance is used for this one call and then given up. Returns when
/// the module does.
#[verifier::external_body]
pub(crate) fn run(entry: Entry, params: &Vec<wasmtime::component::Val>) -> (results: Result<
    Vec<wasmtime::component::Val>,
    anyhow::Error,
>) {
    let Entry { mut store, function, .. } = entry;
    let count = function.results(&store).len();
    let mut results = vec![wasmtime::component::Val::Bool(false); count];
    function.call(&mut store, params, &mut results)?;
    Ok(results)
}

} // verus!
