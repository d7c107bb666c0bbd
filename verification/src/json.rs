//! JSON values.

use vstd::prelude::*;

use crate::ids::{id_string, id_text};
use crate::text::{opt_view, same, views};
use crate::time::{date_text, date_text_of, json_instant, json_instant_of, Date, Instant};

verus! {

/// A JSON number. A number without a fraction or an exponent that fits 64
/// bits is an integer; any other is kept by the bits of its double, with zero
/// always written as positive zero, so that equal numbers have equal bits.
#[derive(Clone, Copy, Debug, PartialEq, Eq, Structural)]
pub enum Num {
    Unsigned(u64),
    Negative(i64),
    Double(u64),
}

/// A JSON value. Where an object lists a key twice, the later entry counts.
#[derive(Debug)]
pub enum Json {
    Null,
    Bool(bool),
    Number(Num),
    Text(String),
    Array(Vec<Json>),
    Object(Vec<(String, Json)>),
}

/// What a JSON value means: text as characters, objects as maps.
pub enum Value {
    Null,
    Bool(bool),
    Number(Num),
    Text(Seq<char>),
    Array(Seq<Value>),
    Object(Map<Seq<char>, Value>),
}

impl Json {
    /// What the value means.
    pub open spec fn value(self) -> Value
        decreases self,
    {
        match self {
            Json::Null => Value::Null,
            Json::Bool(b) => Value::Bool(b),
            Json::Number(n) => Value::Number(n),
            Json::Text(s) => Value::Text(s@),
            Json::Array(items) => Value::Array(values(items@)),
            Json::Object(entries) => Value::Object(fields(entries@)),
        }
    }
}

impl View for Json {
    type V = Value;

    open spec fn view(&self) -> Value {
        self.value()
    }
}

/// An object without entries.
pub open spec fn empty_object() -> Value {
    Value::Object(Map::empty())
}

/// What the items mean, in order.
pub open spec fn values(items: Seq<Json>) -> Seq<Value>
    decreases items,
{
    Seq::new(
        items.len(),
        |i: int|
            if 0 <= i < items.len() {
                items[i].value()
            } else {
                Value::Null
            },
    )
}

/// The map that a list of entries stands for.
pub open spec fn fields(entries: Seq<(String, Json)>) -> Map<Seq<char>, Value>
    decreases entries,
{
    if entries.len() == 0 {
        Map::empty()
    } else {
        fields(entries.subrange(0, entries.len() - 1)).insert(
            entries[entries.len() - 1].0@,
            entries[entries.len() - 1].1.value(),
        )
    }
}

impl Value {
    /// The value under a key of an object.
    pub open spec fn at(self, key: Seq<char>) -> Option<Value> {
        match self {
            Value::Object(m) => if m.dom().contains(key) {
                Some(m[key])
            } else {
                None
            },
            _ => None,
        }
    }

    /// The text of a string.
    pub open spec fn text(self) -> Option<Seq<char>> {
        match self {
            Value::Text(s) => Some(s),
            _ => None,
        }
    }

    /// The object with this entry set; any other value stays as it is.
    pub open spec fn set(self, key: Seq<char>, value: Value) -> Value {
        match self {
            Value::Object(m) => Value::Object(m.insert(key, value)),
            other => other,
        }
    }

    /// The text under a key of an object.
    pub open spec fn text_at(self, key: Seq<char>) -> Option<Seq<char>> {
        match self.at(key) {
            Some(v) => v.text(),
            None => None,
        }
    }
}

impl Json {
    /// An object without entries.
    pub fn object() -> (r: Json)
        ensures
            r@ == Value::Object(Map::empty()),
    {
        let entries: Vec<(String, Json)> = Vec::new();
        assert(fields(entries@) == Map::<Seq<char>, Value>::empty());
        Json::Object(entries)
    }

    /// A string.
    pub fn string(s: &str) -> (r: Json)
        ensures
            r@ == Value::Text(s@),
    {
        Json::Text(s.to_owned())
    }

    /// The object with this entry set; any other value stays as it is.
    pub fn with(self, key: &str, value: Json) -> (r: Json)
        ensures
            r@ == self@.set(key@, value@),
    {
        match self {
            Json::Object(entries) => {
                let mut entries = entries;
                let ghost before = entries@;
                entries.push((key.to_owned(), value));
                assert(entries@.subrange(0, entries@.len() - 1) =~= before);
                Json::Object(entries)
            },
            other => other,
        }
    }

    /// The text of a string.
    pub fn as_text(&self) -> (r: Option<&String>)
        ensures
            match r {
                Some(s) => self@.text() == Some(s@),
                None => self@.text() is None,
            },
    {
        match self {
            Json::Text(s) => Some(s),
            _ => None,
        }
    }

    /// The value under a key of an object.
    pub fn get(&self, key: &str) -> (r: Option<&Json>)
        ensures
            match r {
                Some(v) => self@.at(key@) == Some(v@),
                None => self@.at(key@) is None,
            },
    {
        match self {
            Json::Object(entries) => match entry_index(entries, key) {
                Some(i) => Some(&entries[i].1),
                None => None,
            },
            _ => None,
        }
    }

    /// The text under a key of an object.
    pub fn get_text(&self, key: &str) -> (r: Option<&String>)
        ensures
            match r {
                Some(s) => self@.text_at(key@) == Some(s@),
                None => self@.text_at(key@) is None,
            },
    {
        match self.get(key) {
            Some(v) => v.as_text(),
            None => None,
        }
    }
}

/// The last entry of a list decides what its key holds.
proof fn fields_last(entries: Seq<(String, Json)>, i: int)
    requires
        0 <= i < entries.len(),
        forall|j: int| i < j < entries.len() ==> entries[j].0@ != entries[i].0@,
    ensures
        fields(entries).dom().contains(entries[i].0@),
        fields(entries)[entries[i].0@] == entries[i].1@,
    decreases entries.len(),
{
    if i < entries.len() - 1 {
        fields_last(entries.subrange(0, entries.len() - 1), i);
    }
}

/// A key that no entry has is not in the map.
proof fn fields_absent(entries: Seq<(String, Json)>, key: Seq<char>)
    requires
        forall|j: int| 0 <= j < entries.len() ==> entries[j].0@ != key,
    ensures
        !fields(entries).dom().contains(key),
    decreases entries.len(),
{
    if entries.len() > 0 {
        fields_absent(entries.subrange(0, entries.len() - 1), key);
    }
}

/// Every key of the map has an entry.
proof fn fields_present(entries: Seq<(String, Json)>, key: Seq<char>)
    requires
        fields(entries).dom().contains(key),
    ensures
        exists|j: int| 0 <= j < entries.len() && entries[j].0@ == key,
{
    if forall|j: int| 0 <= j < entries.len() ==> entries[j].0@ != key {
        fields_absent(entries, key);
    }
}

/// The index of the entry that decides what a key holds.
fn entry_index(entries: &Vec<(String, Json)>, key: &str) -> (r: Option<usize>)
    ensures
        match r {
            Some(i) => i < entries@.len() && entries@[i as int].0@ == key@ && fields(
                entries@,
            ).dom().contains(key@) && fields(entries@)[key@] == entries@[i as int].1@,
            None => !fields(entries@).dom().contains(key@),
        },
{
    let mut i: usize = entries.len();
    while i > 0
        invariant
            i <= entries@.len(),
            forall|j: int| i <= j < entries@.len() ==> entries@[j].0@ != key@,
        decreases i,
    {
        i = i - 1;
        if same(entries[i].0.as_str(), key) {
            proof {
                fields_last(entries@, i as int);
            }
            return Some(i);
        }
    }
    proof {
        fields_absent(entries@, key@);
    }
    None
}

/// Whether two JSON values mean the same.
pub fn same_json(a: &Json, b: &Json) -> (r: bool)
    ensures
        r == (a@ == b@),
    decreases a,
{
    match (a, b) {
        (Json::Null, Json::Null) => true,
        (Json::Bool(x), Json::Bool(y)) => *x == *y,
        (Json::Number(x), Json::Number(y)) => *x == *y,
        (Json::Text(x), Json::Text(y)) => same(x.as_str(), y.as_str()),
        (Json::Array(x), Json::Array(y)) => same_items(x, y),
        (Json::Object(x), Json::Object(y)) => same_fields(x, y),
        _ => false,
    }
}

/// Whether two lists of items mean the same.
fn same_items(x: &Vec<Json>, y: &Vec<Json>) -> (r: bool)
    ensures
        r == (values(x@) == values(y@)),
    decreases x,
{
    if x.len() != y.len() {
        assert(values(x@).len() != values(y@).len());
        return false;
    }
    let mut i: usize = 0;
    while i < x.len()
        invariant
            i <= x@.len(),
            x@.len() == y@.len(),
            forall|j: int| 0 <= j < i ==> values(x@)[j] == values(y@)[j],
        decreases x@.len() - i,
    {
        if !same_json(&x[i], &y[i]) {
            assert(values(x@)[i as int] != values(y@)[i as int]);
            return false;
        }
        i = i + 1;
    }
    assert(values(x@) =~= values(y@));
    true
}

/// Whether two lists of entries stand for the same map.
fn same_fields(x: &Vec<(String, Json)>, y: &Vec<(String, Json)>) -> (r: bool)
    ensures
        r == (fields(x@) == fields(y@)),
    decreases x,
{
    let mut i: usize = 0;
    while i < x.len()
        invariant
            i <= x@.len(),
            forall|j: int|
                0 <= j < i ==> fields(x@).dom().contains(#[trigger] x@[j].0@) && fields(
                    y@,
                ).dom().contains(x@[j].0@) && fields(x@)[x@[j].0@] == fields(y@)[x@[j].0@],
        decreases x@.len() - i,
    {
        let key = x[i].0.as_str();
        match (entry_index(x, key), entry_index(y, key)) {
            (Some(p), Some(q)) => {
                if !same_json(&x[p].1, &y[q].1) {
                    return false;
                }
            },
            (Some(_), None) => {
                return false;
            },
            (None, _) => {
                proof {
                    fields_has_key(x@, i as int);
                }
                return false;
            },
        }
        i = i + 1;
    }
    let mut k: usize = 0;
    while k < y.len()
        invariant
            k <= y@.len(),
            forall|j: int| 0 <= j < k ==> fields(x@).dom().contains(#[trigger] y@[j].0@),
        decreases y@.len() - k,
    {
        let key = y[k].0.as_str();
        if entry_index(x, key).is_none() {
            proof {
                fields_has_key(y@, k as int);
            }
            return false;
        }
        k = k + 1;
    }
    proof {
        assert forall|key: Seq<char>| fields(x@).dom().contains(key) == fields(y@).dom().contains(
            key,
        ) by {
            if fields(x@).dom().contains(key) {
                fields_present(x@, key);
            }
            if fields(y@).dom().contains(key) {
                fields_present(y@, key);
            }
        }
        assert forall|key: Seq<char>| fields(x@).dom().contains(key) implies fields(x@)[key]
            == fields(y@)[key] by {
            fields_present(x@, key);
        }
        assert(fields(x@) =~= fields(y@));
    }
    true
}

/// The key of an entry is in the map.
proof fn fields_has_key(entries: Seq<(String, Json)>, i: int)
    requires
        0 <= i < entries.len(),
    ensures
        fields(entries).dom().contains(entries[i].0@),
    decreases entries.len(),
{
    if i < entries.len() - 1 {
        fields_has_key(entries.subrange(0, entries.len() - 1), i);
    }
}

/// A text or null.
pub open spec fn text_or_null(s: Option<Seq<char>>) -> Value {
    match s {
        Some(t) => Value::Text(t),
        None => Value::Null,
    }
}

/// A text or null.
pub fn json_or_null(s: &Option<String>) -> (r: Json)
    ensures
        r@ == text_or_null(opt_view(*s)),
{
    match s {
        Some(t) => Json::Text(t.clone()),
        None => Json::Null,
    }
}

/// An integer.
pub open spec fn int_value(n: i64) -> Value {
    if n >= 0 {
        Value::Number(Num::Unsigned(n as u64))
    } else {
        Value::Number(Num::Negative(n))
    }
}

/// An integer.
pub fn json_int(n: i64) -> (r: Json)
    ensures
        r@ == int_value(n),
{
    if n >= 0 {
        Json::Number(Num::Unsigned(n as u64))
    } else {
        Json::Number(Num::Negative(n))
    }
}

/// An integer or null.
pub open spec fn int_or_null(n: Option<i64>) -> Value {
    match n {
        Some(n) => int_value(n),
        None => Value::Null,
    }
}

/// An integer or null.
pub fn json_opt_int(n: Option<i64>) -> (r: Json)
    ensures
        r@ == int_or_null(n),
{
    match n {
        Some(n) => json_int(n),
        None => Json::Null,
    }
}

/// An identifier or null.
pub open spec fn id_or_null(id: Option<u128>) -> Value {
    match id {
        Some(id) => Value::Text(id_text(id)),
        None => Value::Null,
    }
}

/// An identifier or null.
pub fn json_opt_id(id: Option<u128>) -> (r: Json)
    ensures
        r@ == id_or_null(id),
{
    match id {
        Some(id) => Json::Text(id_string(id)),
        None => Json::Null,
    }
}

/// An instant or null.
pub open spec fn instant_or_null(at: Option<Instant>) -> Value {
    match at {
        Some(at) => Value::Text(json_instant(at)),
        None => Value::Null,
    }
}

/// An instant or null.
pub fn json_opt_instant(at: Option<Instant>) -> (r: Json)
    requires
        at matches Some(at) ==> at.wf(),
    ensures
        r@ == instant_or_null(at),
{
    match at {
        Some(at) => Json::Text(json_instant_of(at)),
        None => Json::Null,
    }
}

/// A day or null.
pub open spec fn date_or_null(date: Option<Date>) -> Value {
    match date {
        Some(date) => Value::Text(date_text(date)),
        None => Value::Null,
    }
}

/// A day or null.
pub fn json_opt_date(date: Option<Date>) -> (r: Json)
    requires
        date matches Some(date) ==> date.wf(),
    ensures
        r@ == date_or_null(date),
{
    match date {
        Some(date) => Json::Text(date_text_of(date)),
        None => Json::Null,
    }
}

/// A list of texts.
pub open spec fn texts_value(list: Seq<Seq<char>>) -> Value {
    Value::Array(Seq::new(list.len(), |i: int| Value::Text(list[i])))
}

/// A list of texts.
pub fn json_texts(list: &Vec<String>) -> (r: Json)
    ensures
        r@ == texts_value(views(list@)),
{
    let mut items: Vec<Json> = Vec::new();
    let mut i: usize = 0;
    while i < list.len()
        invariant
            i <= list@.len(),
            items@.len() == i,
            forall|j: int| 0 <= j < i ==> (#[trigger] items@[j])@ == Value::Text(list@[j]@),
        decreases list@.len() - i,
    {
        items.push(Json::Text(list[i].clone()));
        i = i + 1;
    }
    assert(values(items@) =~= Seq::new(
        views(list@).len(),
        |i: int| Value::Text(views(list@)[i]),
    ));
    Json::Array(items)
}

impl Json {
    /// A copy that means the same.
    pub fn copy(&self) -> (r: Json)
        ensures
            r@ == self@,
        decreases self,
    {
        match self {
            Json::Null => Json::Null,
            Json::Bool(b) => Json::Bool(*b),
            Json::Number(n) => Json::Number(*n),
            Json::Text(s) => Json::Text(s.clone()),
            Json::Array(items) => Json::Array(copy_items(items)),
            Json::Object(entries) => Json::Object(copy_fields(entries)),
        }
    }
}

fn copy_items(items: &Vec<Json>) -> (r: Vec<Json>)
    ensures
        values(r@) == values(items@),
    decreases items,
{
    let mut out: Vec<Json> = Vec::new();
    let mut i: usize = 0;
    while i < items.len()
        invariant
            i <= items@.len(),
            out@.len() == i,
            forall|j: int| 0 <= j < i ==> (#[trigger] out@[j])@ == items@[j]@,
        decreases items@.len() - i,
    {
        out.push(items[i].copy());
        i = i + 1;
    }
    assert(values(out@) =~= values(items@));
    out
}

fn copy_fields(entries: &Vec<(String, Json)>) -> (r: Vec<(String, Json)>)
    ensures
        fields(r@) == fields(entries@),
    decreases entries,
{
    let mut out: Vec<(String, Json)> = Vec::new();
    let mut i: usize = 0;
    while i < entries.len()
        invariant
            i <= entries@.len(),
            out@.len() == i,
            fields(out@) == fields(entries@.subrange(0, i as int)),
        decreases entries@.len() - i,
    {
        let ghost before = out@;
        out.push((entries[i].0.clone(), entries[i].1.copy()));
        assert(out@.subrange(0, i as int) =~= before);
        assert(entries@.subrange(0, i + 1).subrange(0, i as int) =~= entries@.subrange(
            0,
            i as int,
        ));
        i = i + 1;
    }
    assert(entries@.subrange(0, i as int) =~= entries@);
    out
}

} // verus!
