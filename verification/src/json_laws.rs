//! What JSON values mean, said of their parts.

use vstd::prelude::*;

use crate::ids::id_text;
use crate::json::{
    date_or_null, empty_object, id_or_null, instant_or_null, int_or_null, int_value, text_or_null,
    texts_value, Json, Num, Value,
};
use crate::time::{date_text, json_instant, Date, Instant};

verus! {

/// A value means what its parts mean: texts their characters, lists their
/// items one by one.
pub proof fn values_mean_their_parts(b: bool, n: Num, s: String, items: Vec<Json>)
    ensures
        Json::Null@ == Value::Null,
        Json::Bool(b)@ == Value::Bool(b),
        Json::Number(n)@ == Value::Number(n),
        Json::Text(s)@ == Value::Text(s@),
        Json::Array(items)@ matches Value::Array(list) && list.len() == items@.len() && forall|
            i: int,
        |
            0 <= i < items@.len() ==> #[trigger] list[i] == items@[i]@,
{
}

/// Of two entries under one key the later one counts, and every other key
/// keeps its value.
pub proof fn the_later_entry_counts(
    entries: Seq<(String, Json)>,
    last: (String, Json),
    object: Vec<(String, Json)>,
    earlier: Vec<(String, Json)>,
    key: Seq<char>,
)
    requires
        earlier@ == entries,
        object@ == entries.push(last),
    ensures
        Json::Object(object)@.at(last.0@) == Some(last.1@),
        key != last.0@ ==> Json::Object(object)@.at(key) == Json::Object(earlier)@.at(key),
        entries.len() == 0 ==> Json::Object(earlier)@.at(key) is None,
{
    let all = entries.push(last);
    assert(all.subrange(0, all.len() - 1) =~= entries);
}

/// An object shows what was set under a key, and keeps the rest.
pub proof fn objects_keep_what_is_set(
    m: Map<Seq<char>, Value>,
    key: Seq<char>,
    other: Seq<char>,
    value: Value,
)
    ensures
        Value::Object(m).at(key) is Some <==> m.dom().contains(key),
        m.dom().contains(key) ==> Value::Object(m).at(key) == Some(m[key]),
        Value::Object(m).set(key, value).at(key) == Some(value),
        other != key ==> Value::Object(m).set(key, value).at(other) == Value::Object(m).at(other),
        empty_object().at(key) is None,
        empty_object().set(key, value) is Object,
        Value::Object(m).set(key, value) is Object,
{
}

/// Only objects have entries, and only strings are texts.
pub proof fn other_values_have_neither(v: Value, key: Seq<char>)
    ensures
        v.at(key) is Some ==> v is Object,
        v.text() is Some <==> v is Text,
        v matches Value::Text(s) ==> v.text() == Some(s),
        v.text_at(key) is Some <==> (v.at(key) matches Some(x) && x is Text),
        v.text_at(key) matches Some(s) ==> v.at(key) == Some(Value::Text(s)),
{
}

/// What is missing is null, and what is there is shown as it is.
pub proof fn what_is_missing_is_null(
    s: Seq<char>,
    n: i64,
    id: u128,
    at: Instant,
    date: Date,
)
    ensures
        text_or_null(Some(s)) == Value::Text(s),
        text_or_null(None) == Value::Null,
        int_or_null(Some(n)) == int_value(n),
        int_or_null(None) == Value::Null,
        id_or_null(Some(id)) == Value::Text(id_text(id)),
        id_or_null(None) == Value::Null,
        instant_or_null(Some(at)) == Value::Text(json_instant(at)),
        instant_or_null(None) == Value::Null,
        date_or_null(Some(date)) == Value::Text(date_text(date)),
        date_or_null(None) == Value::Null,
{
}

/// A number shows its own value.
pub proof fn numbers_show_their_value(n: i64)
    ensures
        match int_value(n) {
            Value::Number(Num::Unsigned(u)) => n >= 0 && u == n,
            Value::Number(Num::Negative(i)) => n < 0 && i == n,
            _ => false,
        },
{
}

/// A list of texts shows each text in its place.
pub proof fn lists_show_each_text(list: Seq<Seq<char>>)
    ensures
        texts_value(list) matches Value::Array(items) && items.len() == list.len() && forall|i: int|
            0 <= i < list.len() ==> #[trigger] items[i] == Value::Text(list[i]),
{
}

} // verus!
