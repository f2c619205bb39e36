use greeter::greeting::{first_name, greeting, handle, message};
use greeter::json::Json;

fn text(s: &str) -> Json {
    Json::Str(s.to_string())
}

fn object(entries: Vec<(&str, Json)>) -> Json {
    Json::Object(entries.into_iter().map(|(k, v)| (k.to_string(), v)).collect())
}

/// The message of an answer, checking that it is the only entry.
fn message_of(answer: &Json) -> String {
    match answer {
        Json::Object(entries) => {
            assert_eq!(entries.len(), 1);
            assert_eq!(entries[0].0, "message");
            match &entries[0].1 {
                Json::Str(s) => s.clone(),
                other => panic!("message is not a string: {:?}", other),
            }
        }
        other => panic!("answer is not an object: {:?}", other),
    }
}

#[test]
fn test_func() {
    let payload = object(vec![("firstName", text("James"))]);
    let result = handle(&payload);
    assert_eq!(message_of(&result), "Hello, James!");
}

#[test]
fn test_func_bad_request() {
    let payload = object(vec![("something", text("wrong"))]);
    let result = handle(&payload);
    assert_eq!(message_of(&result), "Hello, world!");
}

#[test]
fn empty_record_greets_the_world() {
    let result = handle(&object(vec![]));
    assert_eq!(message_of(&result), "Hello, world!");
}

#[test]
fn number_first_name_greets_the_world() {
    let payload = object(vec![("firstName", Json::Number("42".to_string()))]);
    assert_eq!(message_of(&handle(&payload)), "Hello, world!");
}

#[test]
fn other_non_string_first_names_greet_the_world() {
    let values = vec![
        Json::Null,
        Json::Bool(true),
        Json::Array(vec![text("James")]),
        object(vec![("firstName", text("James"))]),
    ];
    for v in values {
        let payload = object(vec![("firstName", v)]);
        assert_eq!(message_of(&handle(&payload)), "Hello, world!");
    }
}

#[test]
fn non_object_events_greet_the_world() {
    for event in vec![Json::Null, text("firstName"), Json::Array(vec![])] {
        assert_eq!(message_of(&handle(&event)), "Hello, world!");
    }
}

#[test]
fn first_name_among_other_keys() {
    let payload = object(vec![
        ("lastName", text("Smith")),
        ("firstName", text("Ada")),
        ("age", Json::Number("36".to_string())),
    ]);
    assert_eq!(first_name(&payload), "Ada");
    assert_eq!(message_of(&handle(&payload)), "Hello, Ada!");
}

#[test]
fn first_entry_of_a_repeated_key_wins() {
    let payload = object(vec![("firstName", text("Ada")), ("firstName", text("Bob"))]);
    assert_eq!(message_of(&handle(&payload)), "Hello, Ada!");
}

#[test]
fn key_match_is_exact() {
    let payload = object(vec![("firstname", text("Ada")), ("FirstName", text("Bob"))]);
    assert_eq!(message_of(&handle(&payload)), "Hello, world!");
}

#[test]
fn empty_and_unicode_names() {
    let empty = object(vec![("firstName", text(""))]);
    assert_eq!(message_of(&handle(&empty)), "Hello, !");
    let accented = object(vec![("firstName", text("Zoë"))]);
    assert_eq!(message_of(&handle(&accented)), "Hello, Zoë!");
}

#[test]
fn same_event_twice_gives_same_answer() {
    let payload = object(vec![("firstName", text("James"))]);
    let a = message_of(&handle(&payload));
    let b = message_of(&handle(&payload));
    assert_eq!(a, b);
    assert_eq!(first_name(&payload), "James");
}

#[test]
fn greeting_formats_the_name() {
    assert_eq!(greeting("James"), "Hello, James!");
    assert_eq!(greeting("world"), "Hello, world!");
}

#[test]
fn message_wraps_text() {
    assert_eq!(message_of(&message("hi".to_string())), "hi");
}

#[test]
fn lookups_on_the_model() {
    let payload = object(vec![("a", Json::Bool(false)), ("b", text("x"))]);
    assert!(payload.get("c").is_none());
    assert!(matches!(payload.get("a"), Some(Json::Bool(false))));
    assert_eq!(payload.get("b").and_then(|v| v.as_str()), Some("x"));
    assert!(Json::Null.get("a").is_none());
    assert!(Json::Null.as_str().is_none());
}
