//! A plain model of JSON values, and the lookups that the handler needs.
use vstd::prelude::*;

verus! {

/// A JSON value. Numbers are kept as their decimal text; an object keeps its
/// entries in order.
#[derive(Debug)]
pub enum Json {
    Null,
    Bool(bool),
    Number(String),
    Str(String),
    Array(Vec<Json>),
    Object(Vec<(String, Json)>),
}

/// The mathematical value that a `Json` stands for.
pub enum JsonValue {
    Null,
    Bool(bool),
    Number(Seq<char>),
    Str(Seq<char>),
    Array(Seq<JsonValue>),
    Object(Seq<(Seq<char>, JsonValue)>),
}

pub open spec fn items_view(items: Seq<Json>) -> Seq<JsonValue>
    decreases items,
{
    if items.len() == 0 {
        Seq::empty()
    } else {
        seq![items[0].view()] + items_view(items.subrange(1, items.len() as int))
    }
}

pub open spec fn entries_view(entries: Seq<(String, Json)>) -> Seq<(Seq<char>, JsonValue)>
    decreases entries,
{
    if entries.len() == 0 {
        Seq::empty()
    } else {
        seq![(entries[0].0@, entries[0].1.view())] + entries_view(
            entries.subrange(1, entries.len() as int),
        )
    }
}

impl View for Json {
    type V = JsonValue;

    open spec fn view(&self) -> JsonValue
        decreases self,
    {
        match self {
            Json::Null => JsonValue::Null,
            Json::Bool(b) => JsonValue::Bool(*b),
            Json::Number(n) => JsonValue::Number(n@),
            Json::Str(s) => JsonValue::Str(s@),
            Json::Array(items) => JsonValue::Array(items_view(items@)),
            Json::Object(entries) => JsonValue::Object(entries_view(entries@)),
        }
    }
}

impl JsonValue {
    /// The value stored under `key`, when this is an object that has the key.
    /// A key that occurs more than once resolves to its first entry.
    pub open spec fn get(self, key: Seq<char>) -> Option<JsonValue> {
        match self {
            JsonValue::Object(entries) => entry_value(entries, key),
            _ => None,
        }
    }

    /// The text of a string value.
    pub open spec fn as_str(self) -> Option<Seq<char>> {
        match self {
            JsonValue::Str(s) => Some(s),
            _ => None,
        }
    }
}

/// The value of the first entry under `key`.
pub open spec fn entry_value(entries: Seq<(Seq<char>, JsonValue)>, key: Seq<char>) -> Option<
    JsonValue,
>
    decreases entries.len(),
{
    if entries.len() == 0 {
        None
    } else if entries[0].0 == key {
        Some(entries[0].1)
    } else {
        entry_value(entries.drop_first(), key)
    }
}

proof fn lemma_entries_view(entries: Seq<(String, Json)>)
    ensures
        entries_view(entries).len() == entries.len(),
        forall|j: int|
            0 <= j < entries.len() ==> #[trigger] entries_view(entries)[j] == (
            entries[j].0@,
            entries[j].1@,
        ),
    decreases entries.len(),
{
    if entries.len() > 0 {
        let rest = entries.subrange(1, entries.len() as int);
        lemma_entries_view(rest);
        let first = (entries[0].0@, entries[0].1@);
        assert(entries_view(entries) == seq![first] + entries_view(rest));
        assert forall|j: int| 0 <= j < entries.len() implies #[trigger] entries_view(entries)[j]
            == (entries[j].0@, entries[j].1@) by {
            if j > 0 {
                assert(rest[j - 1] == entries[j]);
            }
        }
    }
}

impl Json {
    /// Looks up `key` in an object; any other value has no entries.
    pub fn get(&self, key: &str) -> (r: Option<&Json>)
        ensures
            r matches Some(v) ==> self@.get(key@) == Some(v@),
            r is None ==> self@.get(key@) is None,
    {
        match self {
            Json::Object(entries) => {
                let k = key.to_owned();
                let ghost all = entries_view(entries@);
                proof {
                    lemma_entries_view(entries@);
                    assert(all.subrange(0, all.len() as int) =~= all);
                }
                let mut i: usize = 0;
                while i < entries.len()
                    invariant
                        i <= entries@.len(),
                        all == entries_view(entries@),
                        self@ == JsonValue::Object(all),
                        all.len() == entries@.len(),
                        forall|j: int|
                            0 <= j < entries@.len() ==> #[trigger] all[j] == (
                            entries@[j].0@,
                            entries@[j].1@,
                        ),
                        k@ == key@,
                        entry_value(all, key@) == entry_value(
                            all.subrange(i as int, all.len() as int),
                            key@,
                        ),
                    decreases entries@.len() - i,
                {
                    let ghost rest = all.subrange(i as int, all.len() as int);
                    assert(rest[0] == all[i as int]);
                    if entries[i].0 == k {
                        assert(entry_value(rest, key@) == Some(all[i as int].1));
                        return Some(&entries[i].1);
                    }
                    assert(rest.drop_first() =~= all.subrange(i + 1, all.len() as int));
                    i = i + 1;
                }
                None
            },
            _ => None,
        }
    }

    /// The text of a string value; `None` for any other value.
    pub fn as_str(&self) -> (r: Option<&str>)
        ensures
            r matches Some(s) ==> self@.as_str() == Some(s@),
            r is None ==> self@.as_str() is None,
    {
        match self {
            Json::Str(s) => Some(s.as_str()),
            _ => None,
        }
    }
}

} // verus!
