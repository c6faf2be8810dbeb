use bibfetch::error::{CallError, LoadError};
use bibfetch::plugin::{concluded, marshal_arguments, marshal_results, Plugin};
use bibfetch::registry::init_plugins;
use bibfetch::value::{ComponentKind, ComponentValue, ScriptKind, ScriptValue};
use wasmtime::component::Val;

const TWICE: &str = r#"(component
    (core module $m
        (func (export "twice") (param i64) (result i64) local.get 0 local.get 0 i64.add)
        (func (export "trap") (param i64) (result i64) unreachable))
    (core instance $i (instantiate $m))
    (func (export "twice") (param "x" s64) (result s64) (canon lift (core func $i "twice")))
    (func (export "trap") (param "x" s64) (result s64) (canon lift (core func $i "trap"))))"#;

const COUNTER: &str = r#"(component
    (core module $m
        (global $n (mut i64) (i64.const 0))
        (func (export "counter") (result i64)
            global.get $n i64.const 1 i64.add global.set $n global.get $n))
    (core instance $i (instantiate $m))
    (func (export "counter") (result s64) (canon lift (core func $i "counter"))))"#;

const IMPORTING: &str = r#"(component
    (import "host" (func $h))
    (core module $m (func (export "f")))
    (core instance $i (instantiate $m))
    (func (export "f") (canon lift (core func $i "f"))))"#;

fn plugin(name: &str, module: &str) -> Plugin {
    Plugin::load(Some(name.to_string()), &module.as_bytes().to_vec()).unwrap()
}

fn load_error(name: Option<&str>, module: &[u8]) -> LoadError {
    match Plugin::load(name.map(|n| n.to_string()), &module.to_vec()) {
        Ok(_) => panic!("the module loaded"),
        Err(error) => error,
    }
}

#[test]
fn a_plugin_is_called_by_its_name() {
    let mut twice = plugin("twice", TWICE);
    assert_eq!(twice.name, "twice");
    assert_eq!(twice.call(&vec![Val::S64(21)]).unwrap(), vec![Val::S64(42)]);
    assert_eq!(twice.call(&vec![Val::S64(-4)]).unwrap(), vec![Val::S64(-8)]);
}

#[test]
fn every_call_starts_afresh() {
    let mut counter = plugin("counter", COUNTER);
    assert_eq!(counter.call(&Vec::new()).unwrap(), vec![Val::S64(1)]);
    assert_eq!(counter.call(&Vec::new()).unwrap(), vec![Val::S64(1)]);
}

#[test]
fn a_plugin_without_a_name_does_not_load() {
    assert_eq!(load_error(None, TWICE.as_bytes()), LoadError::Unnamed);
    assert_eq!(load_error(None, b"junk"), LoadError::Unnamed);
}

#[test]
fn what_is_no_module_does_not_load() {
    assert_eq!(load_error(Some("p"), b"\0not a module"), LoadError::InvalidModule);
    assert_eq!(load_error(Some("p"), b"(module)"), LoadError::InvalidModule);
    assert_eq!(load_error(Some("p"), b""), LoadError::InvalidModule);
}

#[test]
fn a_module_that_imports_does_not_load() {
    assert_eq!(load_error(Some("f"), IMPORTING.as_bytes()), LoadError::InterfaceMismatch);
}

#[test]
fn a_missing_entry_point_fails_the_call() {
    let mut misnamed = plugin("thrice", TWICE);
    assert_eq!(misnamed.call(&vec![Val::S64(1)]), Err(CallError::MissingEntryPoint));
    assert!(misnamed.get_func("twice").is_ok());
    assert!(matches!(misnamed.get_func("nothing"), Err(CallError::MissingEntryPoint)));
}

#[test]
fn a_trap_and_a_misfit_fail_the_call() {
    let mut trap = plugin("trap", TWICE);
    assert_eq!(trap.call(&vec![Val::S64(1)]), Err(CallError::Trap));
    let mut twice = plugin("twice", TWICE);
    assert_eq!(twice.call(&Vec::new()), Err(CallError::Trap));
    assert_eq!(twice.call(&vec![Val::Bool(true)]), Err(CallError::Trap));
    assert_eq!(twice.call(&vec![Val::S64(2)]).unwrap(), vec![Val::S64(4)]);
}

#[test]
fn discovery_keeps_the_plugins_that_loaded_in_order() {
    let plugins = init_plugins(vec![
        Plugin::load(Some("twice".to_string()), &TWICE.as_bytes().to_vec()),
        Plugin::load(Some("broken".to_string()), &b"junk".to_vec()),
        Plugin::load(None, &COUNTER.as_bytes().to_vec()),
        Plugin::load(Some("counter".to_string()), &COUNTER.as_bytes().to_vec()),
    ]);
    let names: Vec<&str> = plugins.iter().map(|p| p.name.as_str()).collect();
    assert_eq!(names, ["twice", "counter"]);
    assert!(init_plugins(Vec::new()).is_empty());
}

#[test]
fn arguments_that_do_not_convert_are_left_out() {
    let params = vec![
        ScriptValue::Integer(1),
        ScriptValue::Opaque(ScriptKind::Function),
        ScriptValue::String(vec![0xff]),
        ScriptValue::Nil,
        ScriptValue::Table(vec![(ScriptValue::Integer(1), ScriptValue::Integer(2))]),
        ScriptValue::String(b"last".to_vec()),
    ];
    assert_eq!(
        marshal_arguments(&params),
        vec![
            ComponentValue::S64(1),
            ComponentValue::Option(None),
            ComponentValue::String("last".to_string()),
        ]
    );
    assert_eq!(marshal_arguments(&Vec::new()), Vec::new());
}

#[test]
fn results_that_do_not_convert_are_left_out() {
    let results = vec![
        ComponentValue::Result(Ok(None)),
        ComponentValue::U64(u64::MAX),
        ComponentValue::Other(ComponentKind::List),
        ComponentValue::Option(Some(Box::new(ComponentValue::Bool(true)))),
    ];
    assert_eq!(
        marshal_results(&results),
        vec![ScriptValue::Integer(-1), ScriptValue::Boolean(true)]
    );
    assert_eq!(marshal_results(&Vec::new()), Vec::new());
}

#[test]
fn concluded_reads_what_the_runtime_reports() {
    assert_eq!(concluded(Ok(vec![Val::S64(3), Val::Bool(true)])), Ok(vec![Val::S64(3), Val::Bool(true)]));
    assert_eq!(concluded(Ok(Vec::new())), Ok(Vec::new()));
    assert_eq!(concluded(Err(anyhow::Error::msg("trap"))), Err(CallError::Trap));
}

#[test]
fn a_call_leaves_the_plugin_as_it_was() {
    let mut twice = plugin("twice", TWICE);
    assert_eq!(twice.call(&vec![Val::S64(1)]).unwrap(), vec![Val::S64(2)]);
    assert_eq!(twice.call(&vec![Val::Bool(true)]), Err(CallError::Trap));
    assert_eq!(twice.name, "twice");
    assert_eq!(twice.call(&vec![Val::S64(5)]).unwrap(), vec![Val::S64(10)]);
}
