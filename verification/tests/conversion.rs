use bibfetch::conversion::{
    BridgeError, ComponentValExt, EncodingFault, LuaValueExt, Variant,
};
use bibfetch::value::{ComponentKind, ComponentValue, ScriptKind, ScriptValue};

fn text(s: &str) -> ScriptValue {
    ScriptValue::String(s.as_bytes().to_vec())
}

#[test]
fn nil_becomes_the_absent_option() {
    assert_eq!(ScriptValue::Nil.try_to_wasm_val(), Ok(ComponentValue::Option(None)));
}

#[test]
fn scalars_keep_their_value() {
    assert_eq!(ScriptValue::Boolean(true).try_to_wasm_val(), Ok(ComponentValue::Bool(true)));
    assert_eq!(ScriptValue::Integer(-7).try_to_wasm_val(), Ok(ComponentValue::S64(-7)));
    let bits = 1.5f64.to_bits();
    assert_eq!(ScriptValue::Number(bits).try_to_wasm_val(), Ok(ComponentValue::Float64(bits)));
}

#[test]
fn utf8_string_becomes_text() {
    assert_eq!(
        text("häß").try_to_wasm_val(),
        Ok(ComponentValue::String("häß".to_string()))
    );
    assert_eq!(text("").try_to_wasm_val(), Ok(ComponentValue::String(String::new())));
}

#[test]
fn string_that_is_not_utf8_is_an_encoding_error() {
    assert_eq!(
        ScriptValue::String(vec![0x66, 0xff, 0x6f]).try_to_wasm_val(),
        Err(BridgeError::EncodingError(EncodingFault::InvalidUtf8))
    );
    assert_eq!(
        ScriptValue::String(vec![0xc3]).try_to_wasm_val(),
        Err(BridgeError::EncodingError(EncodingFault::InvalidUtf8))
    );
}

#[test]
fn table_with_string_keys_becomes_a_record_in_order() {
    let table = ScriptValue::Table(vec![
        (text("title"), text("On Scripts")),
        (text("year"), ScriptValue::Integer(1999)),
        (
            text("author"),
            ScriptValue::Table(vec![(text("family"), text("Doe"))]),
        ),
    ]);
    assert_eq!(
        table.try_to_wasm_val(),
        Ok(ComponentValue::Record(vec![
            ("title".to_string(), ComponentValue::String("On Scripts".to_string())),
            ("year".to_string(), ComponentValue::S64(1999)),
            (
                "author".to_string(),
                ComponentValue::Record(vec![(
                    "family".to_string(),
                    ComponentValue::String("Doe".to_string())
                )])
            ),
        ]))
    );
}

#[test]
fn empty_table_becomes_the_empty_record() {
    assert_eq!(ScriptValue::Table(vec![]).try_to_wasm_val(), Ok(ComponentValue::Record(vec![])));
}

#[test]
fn table_with_a_key_that_is_no_string_is_an_encoding_error() {
    let table = ScriptValue::Table(vec![
        (text("a"), ScriptValue::Integer(1)),
        (ScriptValue::Integer(1), ScriptValue::Integer(2)),
    ]);
    assert_eq!(
        table.try_to_wasm_val(),
        Err(BridgeError::EncodingError(EncodingFault::NonStringKey))
    );
}

#[test]
fn table_with_a_key_that_is_not_utf8_is_an_encoding_error() {
    let table = ScriptValue::Table(vec![(ScriptValue::String(vec![0x80]), ScriptValue::Nil)]);
    assert_eq!(
        table.try_to_wasm_val(),
        Err(BridgeError::EncodingError(EncodingFault::InvalidUtf8))
    );
}

#[test]
fn the_first_failing_entry_decides_and_its_key_comes_first() {
    let table = ScriptValue::Table(vec![
        (text("ok"), ScriptValue::Boolean(false)),
        (text("f"), ScriptValue::Opaque(ScriptKind::Function)),
        (ScriptValue::Boolean(true), ScriptValue::Integer(2)),
    ]);
    assert_eq!(
        table.try_to_wasm_val(),
        Err(BridgeError::UnsupportedValueError(Variant::Script(ScriptKind::Function)))
    );
    let table = ScriptValue::Table(vec![(
        ScriptValue::Integer(3),
        ScriptValue::Opaque(ScriptKind::Thread),
    )]);
    assert_eq!(
        table.try_to_wasm_val(),
        Err(BridgeError::EncodingError(EncodingFault::NonStringKey))
    );
}

#[test]
fn runtime_error_becomes_an_error_result_with_its_description() {
    assert_eq!(
        ScriptValue::Error("boom".to_string()).try_to_wasm_val(),
        Ok(ComponentValue::Result(Err(Some(Box::new(ComponentValue::String(
            "boom".to_string()
        ))))))
    );
}

#[test]
fn other_script_shapes_are_unsupported_by_name() {
    for kind in [
        ScriptKind::LightUserData,
        ScriptKind::Function,
        ScriptKind::Thread,
        ScriptKind::UserData,
        ScriptKind::Other,
    ] {
        assert_eq!(
            ScriptValue::Opaque(kind).try_to_wasm_val(),
            Err(BridgeError::UnsupportedValueError(Variant::Script(kind)))
        );
    }
}

#[test]
fn absent_option_becomes_nil_and_a_present_one_its_content() {
    assert_eq!(ComponentValue::Option(None).to_lua_value(), Ok(ScriptValue::Nil));
    let nested = ComponentValue::Option(Some(Box::new(ComponentValue::Option(Some(Box::new(
        ComponentValue::S64(4),
    ))))));
    assert_eq!(nested.to_lua_value(), Ok(ScriptValue::Integer(4)));
}

#[test]
fn component_scalars_map_back() {
    assert_eq!(ComponentValue::Bool(false).to_lua_value(), Ok(ScriptValue::Boolean(false)));
    assert_eq!(ComponentValue::S64(i64::MIN).to_lua_value(), Ok(ScriptValue::Integer(i64::MIN)));
    let bits = (-0.25f64).to_bits();
    assert_eq!(ComponentValue::Float64(bits).to_lua_value(), Ok(ScriptValue::Number(bits)));
    assert_eq!(ComponentValue::String("añ".to_string()).to_lua_value(), Ok(text("añ")));
}

#[test]
fn unsigned_integers_are_narrowed_bit_for_bit() {
    assert_eq!(ComponentValue::U64(0).to_lua_value(), Ok(ScriptValue::Integer(0)));
    assert_eq!(ComponentValue::U64(42).to_lua_value(), Ok(ScriptValue::Integer(42)));
    assert_eq!(
        ComponentValue::U64(i64::MAX as u64).to_lua_value(),
        Ok(ScriptValue::Integer(i64::MAX))
    );
    assert_eq!(
        ComponentValue::U64(1u64 << 63).to_lua_value(),
        Ok(ScriptValue::Integer(i64::MIN))
    );
    assert_eq!(ComponentValue::U64(u64::MAX).to_lua_value(), Ok(ScriptValue::Integer(-1)));
    assert_eq!(
        ComponentValue::U64(u64::MAX - 9).to_lua_value(),
        Ok(ScriptValue::Integer(-10))
    );
}

#[test]
fn record_becomes_a_table_keyed_by_its_names() {
    let record = ComponentValue::Record(vec![
        ("a".to_string(), ComponentValue::S64(1)),
        ("b".to_string(), ComponentValue::Record(vec![])),
    ]);
    assert_eq!(
        record.to_lua_value(),
        Ok(ScriptValue::Table(vec![
            (text("a"), ScriptValue::Integer(1)),
            (text("b"), ScriptValue::Table(vec![])),
        ]))
    );
}

#[test]
fn a_repeated_name_keeps_its_place_and_takes_the_later_value() {
    let record = ComponentValue::Record(vec![
        ("a".to_string(), ComponentValue::S64(1)),
        ("b".to_string(), ComponentValue::S64(2)),
        ("a".to_string(), ComponentValue::S64(3)),
    ]);
    assert_eq!(
        record.to_lua_value(),
        Ok(ScriptValue::Table(vec![
            (text("a"), ScriptValue::Integer(3)),
            (text("b"), ScriptValue::Integer(2)),
        ]))
    );
}

#[test]
fn a_field_that_is_nil_leaves_no_entry() {
    let record = ComponentValue::Record(vec![
        ("a".to_string(), ComponentValue::S64(1)),
        ("gone".to_string(), ComponentValue::Option(None)),
        ("a".to_string(), ComponentValue::Option(None)),
        ("c".to_string(), ComponentValue::Bool(true)),
    ]);
    assert_eq!(
        record.to_lua_value(),
        Ok(ScriptValue::Table(vec![(text("c"), ScriptValue::Boolean(true))]))
    );
}

#[test]
fn results_and_other_shapes_have_no_script_value() {
    assert_eq!(
        ComponentValue::Result(Ok(None)).to_lua_value(),
        Err(BridgeError::UnsupportedValueError(Variant::Component(ComponentKind::Result)))
    );
    assert_eq!(
        ComponentValue::Result(Err(Some(Box::new(ComponentValue::S64(1))))).to_lua_value(),
        Err(BridgeError::UnsupportedValueError(Variant::Component(ComponentKind::Result)))
    );
    for kind in [ComponentKind::List, ComponentKind::Variant, ComponentKind::Flags, ComponentKind::U8] {
        assert_eq!(
            ComponentValue::Other(kind).to_lua_value(),
            Err(BridgeError::UnsupportedValueError(Variant::Component(kind)))
        );
    }
}

#[test]
fn the_first_failing_field_decides() {
    let record = ComponentValue::Record(vec![
        ("a".to_string(), ComponentValue::Other(ComponentKind::Tuple)),
        ("b".to_string(), ComponentValue::Result(Ok(None))),
    ]);
    assert_eq!(
        record.to_lua_value(),
        Err(BridgeError::UnsupportedValueError(Variant::Component(ComponentKind::Tuple)))
    );
    let inside = ComponentValue::Option(Some(Box::new(ComponentValue::Other(ComponentKind::Enum))));
    assert_eq!(
        inside.to_lua_value(),
        Err(BridgeError::UnsupportedValueError(Variant::Component(ComponentKind::Enum)))
    );
}

fn round_trips(value: ScriptValue) {
    let there = value.try_to_wasm_val().unwrap();
    assert_eq!(there.to_lua_value(), Ok(value));
}

#[test]
fn supported_values_come_back_unchanged() {
    round_trips(ScriptValue::Nil);
    round_trips(ScriptValue::Boolean(true));
    round_trips(ScriptValue::Boolean(false));
    round_trips(ScriptValue::Integer(0));
    round_trips(ScriptValue::Integer(i64::MAX));
    round_trips(ScriptValue::Integer(i64::MIN));
    round_trips(ScriptValue::Number(3.25f64.to_bits()));
    round_trips(ScriptValue::Number(f64::NAN.to_bits()));
    round_trips(text("plain"));
    round_trips(text("Ünïcödé ✓"));
    round_trips(ScriptValue::Table(vec![]));
    round_trips(ScriptValue::Table(vec![
        (text("z"), ScriptValue::Integer(1)),
        (text("a"), text("two")),
        (
            text("nested"),
            ScriptValue::Table(vec![
                (text("flag"), ScriptValue::Boolean(false)),
                (text("deeper"), ScriptValue::Table(vec![(text("x"), ScriptValue::Number(0))])),
            ]),
        ),
    ]));
}

#[test]
fn a_runtime_error_does_not_come_back() {
    let there = ScriptValue::Error("e".to_string()).try_to_wasm_val().unwrap();
    assert_eq!(
        there.to_lua_value(),
        Err(BridgeError::UnsupportedValueError(Variant::Component(ComponentKind::Result)))
    );
}
