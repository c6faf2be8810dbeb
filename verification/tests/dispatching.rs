use bibfetch::dispatch::{
    dispatch, find_handler, kept, next_step, resolve_guess, resolve_with, DispatchError, Step,
};
use bibfetch::error::HandlerError;
use bibfetch::handler::Handler;
use bibfetch::registry::init_handlers;

fn load(source: &str) -> Handler {
    Handler::load(mlua::Lua::new(), source).unwrap()
}

fn json(text: &str) -> serde_json::Value {
    serde_json::from_str(text).unwrap()
}

/// Recognises identifiers that start with `doi:`.
fn handler_a() -> Handler {
    load("return { info = { name = 'A', priority = 10 }, parse = function(id) if id:sub(1, 4) == 'doi:' then return id end end, fetch = function(id) return { by = 'A', id = id } end }")
}

/// Recognises anything, and counts how often it is asked.
fn handler_b() -> Handler {
    load("local asked = 0\nreturn { info = { name = 'B', priority = 20 }, parse = function(id) asked = asked + 1; return id end, fetch = function(id) return { by = 'B', id = id, asked = asked } end }")
}

/// Recognises anything, and fails to retrieve identifiers that hold `bad`.
fn handler_flaky() -> Handler {
    load("return { info = { name = 'F', priority = 5 }, parse = function(id) return id end, fetch = function(id) if id:find('bad') then error('unreachable') end return { id = id } end }")
}

fn ids(list: &[&str]) -> Vec<String> {
    list.iter().map(|id| id.to_string()).collect()
}

#[test]
fn the_first_handler_that_recognises_wins() {
    let handlers = init_handlers(vec![Ok(handler_b()), Ok(handler_a())]);
    let (result, _) = dispatch(&ids(&["doi:10.1/x", "isbn:123"]), &handlers, None);
    let records = result.unwrap();
    assert_eq!(records.len(), 2);
    assert!(records.contains(&json(r#"{"by":"A","id":"doi:10.1/x"}"#)));
    assert!(records.contains(&json(r#"{"by":"B","id":"isbn:123","asked":1}"#)));
}

#[test]
fn no_handler_is_asked_after_a_match() {
    let handlers = vec![handler_a(), handler_b()];
    let (first, _) = resolve_guess(&"doi:1".to_string(), &handlers);
    assert_eq!(first, Some(json(r#"{"by":"A","id":"doi:1"}"#)));
    let (second, _) = resolve_guess(&"doi:2".to_string(), &handlers);
    assert_eq!(second, Some(json(r#"{"by":"A","id":"doi:2"}"#)));
    let (third, _) = resolve_guess(&"isbn:9".to_string(), &handlers);
    assert_eq!(third, Some(json(r#"{"by":"B","id":"isbn:9","asked":1}"#)));
}

#[test]
fn a_handler_that_fails_to_recognise_is_passed_over() {
    let raising = load("return { info = { name = 'R', priority = 1 }, parse = function(id) error('x') end, fetch = function(id) return {} end }");
    let handlers = vec![raising, handler_a()];
    let (record, _) = resolve_guess(&"doi:7".to_string(), &handlers);
    assert_eq!(record, Some(json(r#"{"by":"A","id":"doi:7"}"#)));
}

#[test]
fn an_identifier_that_nobody_recognises_is_dropped() {
    let handlers = vec![handler_a()];
    let (record, _) = resolve_guess(&"isbn:1".to_string(), &handlers);
    assert_eq!(record, None);
    let (record, _) = resolve_guess(&"doi:1".to_string(), &Vec::new());
    assert_eq!(record, None);
    let (result, _) = dispatch(&ids(&["isbn:1", "doi:5", "x"]), &handlers, None);
    assert_eq!(result, Ok(vec![json(r#"{"by":"A","id":"doi:5"}"#)]));
}

#[test]
fn a_failed_retrieval_drops_only_its_identifier() {
    let handlers = vec![handler_flaky(), handler_b()];
    let (result, _) = dispatch(&ids(&["one", "bad-two", "three"]), &handlers, None);
    assert_eq!(result, Ok(vec![json(r#"{"id":"one"}"#), json(r#"{"id":"three"}"#)]));
}

#[test]
fn a_failed_retrieval_is_not_retried_with_a_later_handler() {
    let handlers = vec![handler_flaky(), handler_b()];
    let (record, _) = resolve_guess(&"bad".to_string(), &handlers);
    assert_eq!(record, None);
    let (record, _) = resolve_guess(&"fine".to_string(), &vec![handler_b()]);
    assert_eq!(record, Some(json(r#"{"by":"B","id":"fine","asked":1}"#)));
}

#[test]
fn resolving_twice_gives_the_same_record() {
    let handlers = vec![handler_a(), handler_flaky()];
    let id = "doi:10.5/same".to_string();
    let (first, _) = resolve_guess(&id, &handlers);
    let (second, _) = resolve_guess(&id, &handlers);
    assert!(first.is_some());
    assert_eq!(first, second);
    let (first, _) = resolve_with(&id, &handlers, 1);
    let (second, _) = resolve_with(&id, &handlers, 1);
    assert_eq!(first, Some(json(r#"{"id":"doi:10.5/same"}"#)));
    assert_eq!(first, second);
}

#[test]
fn a_named_handler_that_is_absent_fails_the_run() {
    let handlers = vec![handler_a(), handler_b()];
    let name = "C".to_string();
    let (result, _) = dispatch(&ids(&["doi:1"]), &handlers, Some(&name));
    assert_eq!(result, Err(DispatchError::HandlerNotFoundError("C".to_string())));
    let (result, _) = dispatch(&Vec::new(), &Vec::new(), Some(&name));
    assert_eq!(result, Err(DispatchError::HandlerNotFoundError("C".to_string())));
}

#[test]
fn a_named_handler_resolves_alone() {
    let handlers = vec![handler_a(), handler_b()];
    let name = "A".to_string();
    let (result, _) = dispatch(&ids(&["isbn:1", "doi:2", "doi:3"]), &handlers, Some(&name));
    assert_eq!(
        result,
        Ok(vec![json(r#"{"by":"A","id":"doi:2"}"#), json(r#"{"by":"A","id":"doi:3"}"#)])
    );
    let (check, _) = resolve_guess(&"isbn:1".to_string(), &handlers);
    assert_eq!(check, Some(json(r#"{"by":"B","id":"isbn:1","asked":1}"#)));
}

#[test]
fn the_first_handler_of_a_name_is_the_one_found() {
    let twin = load("return { info = { name = 'A', priority = 30 }, parse = function(id) return id end, fetch = function(id) return { by = 'twin' } end }");
    let handlers = vec![handler_b(), handler_a(), twin];
    assert_eq!(find_handler(&handlers, &"A".to_string()), Some(1));
    assert_eq!(find_handler(&handlers, &"B".to_string()), Some(0));
    assert_eq!(find_handler(&handlers, &"a".to_string()), None);
    assert_eq!(find_handler(&Vec::new(), &"A".to_string()), None);
}

#[test]
fn no_identifiers_give_no_records() {
    let handlers = vec![handler_a()];
    let (result, _) = dispatch(&Vec::new(), &handlers, None);
    assert_eq!(result, Ok(Vec::new()));
}

#[test]
fn a_match_is_followed_by_its_retrieval() {
    for guessing in [true, false] {
        for (at, count) in [(0, 1), (0, 3), (1, 3), (2, 3)] {
            assert_eq!(
                next_step(Ok(Some("doi:1".to_string())), at, count, guessing),
                Step::Retrieve { handler: at, canonical: "doi:1".to_string() }
            );
        }
    }
}

#[test]
fn a_miss_asks_the_next_handler_only_when_guessing() {
    assert_eq!(next_step(Ok(None), 0, 3, true), Step::Ask { handler: 1 });
    assert_eq!(next_step(Ok(None), 1, 3, true), Step::Ask { handler: 2 });
    assert_eq!(next_step(Err(HandlerError::Script), 0, 2, true), Step::Ask { handler: 1 });
    assert_eq!(next_step(Err(HandlerError::Reply), 1, 3, true), Step::Ask { handler: 2 });
    assert_eq!(next_step(Ok(None), 0, 3, false), Step::Drop);
    assert_eq!(next_step(Err(HandlerError::Script), 1, 3, false), Step::Drop);
}

#[test]
fn a_miss_of_the_last_handler_gives_the_identifier_up() {
    assert_eq!(next_step(Ok(None), 2, 3, true), Step::Drop);
    assert_eq!(next_step(Ok(None), 0, 1, true), Step::Drop);
    assert_eq!(next_step(Err(HandlerError::Script), 0, 1, true), Step::Drop);
    assert_eq!(next_step(Ok(None), 0, 1, false), Step::Drop);
}

#[test]
fn a_record_is_kept_and_a_failure_is_dropped() {
    assert_eq!(kept(Ok(json(r#"{"a":1}"#))), Some(json(r#"{"a":1}"#)));
    assert_eq!(kept(Err(HandlerError::Script)), None);
    assert_eq!(kept(Err(HandlerError::Reply)), None);
    assert_eq!(kept(Err(HandlerError::Record)), None);
}

#[test]
fn the_identifier_is_handed_on_as_it_came() {
    let echo = load("return { info = { name = 'E', priority = 1 }, parse = function(id) return '<' .. id .. '>' end, fetch = function(id) return { got = id } end }");
    let handlers = vec![echo];
    let (record, _) = resolve_guess(&"a b,c".to_string(), &handlers);
    assert_eq!(record, Some(json(r#"{"got":"<a b,c>"}"#)));
    let (record, _) = resolve_with(&"".to_string(), &handlers, 0);
    assert_eq!(record, Some(json(r#"{"got":"<>"}"#)));
}
