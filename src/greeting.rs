//! The handler: it greets the `firstName` of an event record, or the world.
use crate::json::{entries_view, Json, JsonValue};
use vstd::prelude::*;

verus! {

/// The name that an event asks to greet: its `firstName` when that is a
/// string, else `world`.
pub open spec fn name_for(event: JsonValue) -> Seq<char> {
    match event.get("firstName"@) {
        Some(JsonValue::Str(s)) => s,
        _ => "world"@,
    }
}

/// The greeting for a name.
pub open spec fn greeting_text(name: Seq<char>) -> Seq<char> {
    "Hello, "@ + name + "!"@
}

/// The record `{"message": text}`.
pub open spec fn message_record(text: Seq<char>) -> JsonValue {
    JsonValue::Object(seq![("message"@, JsonValue::Str(text))])
}

/// What the handler answers to an event.
pub open spec fn handle_spec(event: JsonValue) -> JsonValue {
    message_record(greeting_text(name_for(event)))
}

/// The name to greet for `event`.
pub fn first_name(event: &Json) -> (r: &str)
    ensures
        r@ == name_for(event@),
{
    match event.get("firstName") {
        Some(v) => match v.as_str() {
            Some(s) => s,
            None => "world",
        },
        None => "world",
    }
}

/// `Hello, {name}!`
pub fn greeting(name: &str) -> (r: String)
    ensures
        r@ == greeting_text(name@),
{
    let mut r = String::from_str("Hello, ");
    r.append(name);
    r.append("!");
    r
}

/// The record that holds `text` under the single key `message`.
pub fn message(text: String) -> (r: Json)
    ensures
        r@ == message_record(text@),
{
    let entries = vec![(String::from_str("message"), Json::Str(text))];
    let r = Json::Object(entries);
    proof {
        let s = entries@;
        assert(s.subrange(1, 1) =~= Seq::<(String, Json)>::empty());
        assert(r@ == JsonValue::Object(
            seq![(s[0].0@, s[0].1@)] + entries_view(s.subrange(1, 1)),
        ));
        assert(r@ =~~= message_record(text@));
    }
    r
}

/// Answers an event with `{"message": "Hello, {name}!"}`, where the name is
/// the event's `firstName` when that is a string, and `world` otherwise.
pub fn handle(event: &Json) -> (r: Json)
    ensures
        r@ == handle_spec(event@),
{
    let name = first_name(event);
    message(greeting(name))
}

/// An event whose `firstName` is a string `s` is answered with
/// `{"message": "Hello, " + s + "!"}`.
pub proof fn string_first_name_is_greeted(event: JsonValue, s: Seq<char>)
    requires
        event.get("firstName"@) == Some(JsonValue::Str(s)),
    ensures
        handle_spec(event) == message_record("Hello, "@ + s + "!"@),
{
}

/// An event without a `firstName`, or whose `firstName` is not a string, is
/// answered with `{"message": "Hello, world!"}`.
pub proof fn other_events_greet_the_world(event: JsonValue)
    requires
        !(event.get("firstName"@) matches Some(JsonValue::Str(_))),
    ensures
        handle_spec(event) == message_record("Hello, world!"@),
{
    assert("Hello, "@ + "world"@ + "!"@ == "Hello, world!"@) by {
        reveal_strlit("Hello, ");
        reveal_strlit("world");
        reveal_strlit("!");
        reveal_strlit("Hello, world!");
        assert("Hello, "@ + "world"@ + "!"@ =~= "Hello, world!"@);
    }
}

/// Every answer is an object with exactly one entry, `message`, whose value is
/// a string.
pub proof fn answer_is_a_single_message(event: JsonValue)
    ensures
        handle_spec(event) matches JsonValue::Object(entries) && entries.len() == 1
            && entries[0].0 == "message"@ && entries[0].1 is Str,
{
}

/// Equal events are answered alike: the answer depends on the event alone.
pub proof fn equal_events_get_equal_answers(a: JsonValue, b: JsonValue)
    requires
        a == b,
    ensures
        handle_spec(a) == handle_spec(b),
{
}

} // verus!
