//! Places: answers of a place search as locations of events.

use vstd::prelude::*;

use crate::error::{AppError, Failure};
use crate::json::{empty_object, json_or_null, text_or_null, values, Json, Value};
use crate::text::{opt_view, same, trim, trimmed};

verus! {

/// The value under a key, null where there is none.
pub open spec fn field(v: Value, key: Seq<char>) -> Value {
    match v.at(key) {
        Some(x) => x,
        None => Value::Null,
    }
}

/// The text under a key of an object under a key.
pub open spec fn nested_text(v: Value, outer: Seq<char>, inner: Seq<char>) -> Option<Seq<char>> {
    field(v, outer).text_at(inner)
}

/// Whether a list of types holds one.
pub open spec fn has_type(types: Seq<Value>, ty: Seq<char>) -> bool {
    types.contains(Value::Text(ty))
}

/// Whether an address component is of a type.
pub open spec fn component_is(c: Value, ty: Seq<char>) -> bool {
    field(c, "types"@) matches Value::Array(types) && has_type(types, ty)
}

/// The first component of a type.
pub open spec fn first_component(list: Seq<Value>, ty: Seq<char>) -> Option<Value>
    decreases list.len(),
{
    if list.len() == 0 {
        None
    } else {
        match first_component(list.drop_last(), ty) {
            Some(c) => Some(c),
            None => if component_is(list.last(), ty) {
                Some(list.last())
            } else {
                None
            },
        }
    }
}

/// The text of the first address component of a type, in its short or its
/// long form.
pub open spec fn component_text(details: Value, ty: Seq<char>, short: bool) -> Option<Seq<char>> {
    match field(details, "addressComponents"@) {
        Value::Array(list) => match first_component(list, ty) {
            Some(c) => c.text_at(
                if short {
                    "shortText"@
                } else {
                    "longText"@
                },
            ),
            None => None,
        },
        _ => None,
    }
}

/// Whether a list of types holds one.
fn types_hold(types: &Vec<Json>, ty: &str) -> (r: bool)
    ensures
        r == has_type(values(types@), ty@),
{
    let ghost all = values(types@);
    let mut i: usize = 0;
    while i < types.len()
        invariant
            i <= types@.len(),
            all == values(types@),
            forall|j: int| 0 <= j < i ==> all[j] != Value::Text(ty@),
        decreases types@.len() - i,
    {
        if let Some(s) = types[i].as_text() {
            if same(s.as_str(), ty) {
                assert(all[i as int] == Value::Text(ty@));
                return true;
            }
        }
        i = i + 1;
    }
    false
}

/// Whether an address component is of a type.
fn is_component(c: &Json, ty: &str) -> (r: bool)
    ensures
        r == component_is(c@, ty@),
{
    match c.get("types") {
        Some(Json::Array(types)) => types_hold(types, ty),
        _ => false,
    }
}

proof fn first_component_stays(list: Seq<Value>, ty: Seq<char>, n: int)
    requires
        0 <= n <= list.len(),
        first_component(list.take(n), ty) is Some,
    ensures
        first_component(list, ty) == first_component(list.take(n), ty),
    decreases list.len(),
{
    if n == list.len() {
        assert(list.take(n) =~= list);
    } else {
        assert(list.drop_last().take(n) =~= list.take(n));
        first_component_stays(list.drop_last(), ty, n);
    }
}

/// A text under a key.
fn text_at(v: &Json, key: &str) -> (r: Option<String>)
    ensures
        opt_view(r) == v@.text_at(key@),
{
    match v.get_text(key) {
        Some(s) => Some(s.clone()),
        None => None,
    }
}

/// The text of the first address component of a type.
pub fn address_component(details: &Json, ty: &str, short: bool) -> (r: Option<String>)
    ensures
        opt_view(r) == component_text(details@, ty@, short),
{
    let list = match details.get("addressComponents") {
        Some(Json::Array(list)) => list,
        _ => {
            return None;
        },
    };
    let ghost all = values(list@);
    let mut i: usize = 0;
    while i < list.len()
        invariant
            i <= list@.len(),
            all == values(list@),
            field(details@, "addressComponents"@) == Value::Array(all),
            first_component(all.take(i as int), ty@) is None,
        decreases list@.len() - i,
    {
        assert(all.take(i + 1).drop_last() =~= all.take(i as int));
        assert(all.take(i + 1).last() == list@[i as int]@);
        if is_component(&list[i], ty) {
            proof {
                first_component_stays(all, ty@, i + 1);
            }
            return if short {
                text_at(&list[i], "shortText")
            } else {
                text_at(&list[i], "longText")
            };
        }
        i = i + 1;
    }
    assert(all.take(all.len() as int) =~= all);
    None
}

/// The street of a place: its number and name, or its name alone.
pub open spec fn street_of(number: Option<Seq<char>>, route: Option<Seq<char>>) -> Option<
    Seq<char>,
> {
    match (number, route) {
        (Some(n), Some(r)) => Some(n + " "@ + r),
        (None, Some(r)) => Some(r),
        _ => None,
    }
}

/// The first text, or else the second.
pub open spec fn first_of(a: Option<Seq<char>>, b: Option<Seq<char>>) -> Option<Seq<char>> {
    match a {
        Some(_) => a,
        None => b,
    }
}

/// A coordinate of a place: a number as it is given, else null. Whole numbers
/// stay whole here; the server, which has floating-point numbers, shows them
/// with a decimal point.
pub open spec fn coordinate_of(details: Value, axis: Seq<char>) -> Value {
    match field(details, "location"@).at(axis) {
        Some(Value::Number(n)) => Value::Number(n),
        _ => Value::Null,
    }
}

/// A place as the location of an event; what the place does not say is null.
pub open spec fn location_of(details: Value) -> Value {
    empty_object()
        .set("provider"@, Value::Text("google_places"@))
        .set("provider_place_id"@, text_or_null(details.text_at("id"@)))
        .set("display_name"@, text_or_null(nested_text(details, "displayName"@, "text"@)))
        .set("formatted_address"@, text_or_null(details.text_at("formattedAddress"@)))
        .set(
            "street_address"@,
            text_or_null(
                street_of(
                    component_text(details, "street_number"@, false),
                    component_text(details, "route"@, false),
                ),
            ),
        )
        .set(
            "locality"@,
            text_or_null(
                first_of(
                    component_text(details, "locality"@, false),
                    component_text(details, "sublocality"@, false),
                ),
            ),
        )
        .set(
            "administrative_area"@,
            text_or_null(component_text(details, "administrative_area_level_1"@, true)),
        )
        .set("postal_code"@, text_or_null(component_text(details, "postal_code"@, false)))
        .set("country"@, text_or_null(component_text(details, "country"@, true)))
        .set("latitude"@, coordinate_of(details, "latitude"@))
        .set("longitude"@, coordinate_of(details, "longitude"@))
        .set("website"@, text_or_null(details.text_at("websiteUri"@)))
        .set("phone"@, text_or_null(details.text_at("nationalPhoneNumber"@)))
}

/// The text under a key of an object under a key.
fn nested_text_of(v: &Json, outer: &str, inner: &str) -> (r: Option<String>)
    ensures
        opt_view(r) == nested_text(v@, outer@, inner@),
{
    match v.get(outer) {
        Some(x) => text_at(x, inner),
        None => None,
    }
}

/// A coordinate of a place.
fn coordinate(details: &Json, axis: &str) -> (r: Json)
    ensures
        r@ == coordinate_of(details@, axis@),
{
    match details.get("location") {
        Some(location) => match location.get(axis) {
            Some(Json::Number(n)) => Json::Number(*n),
            _ => Json::Null,
        },
        None => Json::Null,
    }
}

/// A place as the location of an event.
pub fn place_details_to_location(details: &Json) -> (r: Json)
    ensures
        r@ == location_of(details@),
{
    let street = match (
        address_component(details, "street_number", false),
        address_component(details, "route", false),
    ) {
        (Some(n), Some(r)) => Some(n.concat(" ").concat(r.as_str())),
        (None, Some(r)) => Some(r),
        _ => None,
    };
    let locality = match address_component(details, "locality", false) {
        Some(s) => Some(s),
        None => address_component(details, "sublocality", false),
    };
    Json::object()
        .with("provider", Json::string("google_places"))
        .with("provider_place_id", json_or_null(&text_at(details, "id")))
        .with("display_name", json_or_null(&nested_text_of(details, "displayName", "text")))
        .with("formatted_address", json_or_null(&text_at(details, "formattedAddress")))
        .with("street_address", json_or_null(&street))
        .with("locality", json_or_null(&locality))
        .with(
            "administrative_area",
            json_or_null(&address_component(details, "administrative_area_level_1", true)),
        )
        .with("postal_code", json_or_null(&address_component(details, "postal_code", false)))
        .with("country", json_or_null(&address_component(details, "country", true)))
        .with("latitude", coordinate(details, "latitude"))
        .with("longitude", coordinate(details, "longitude"))
        .with("website", json_or_null(&text_at(details, "websiteUri")))
        .with("phone", json_or_null(&text_at(details, "nationalPhoneNumber")))
}

/// What a suggestion is called: its main and its secondary text.
pub open spec fn suggestion_label(prediction: Value) -> Seq<char> {
    let format = field(prediction, "structuredFormat"@);
    let main = match nested_text(format, "mainText"@, "text"@) {
        Some(s) => s,
        None => Seq::empty(),
    };
    let second = match nested_text(format, "secondaryText"@, "text"@) {
        Some(s) => s,
        None => Seq::empty(),
    };
    trim(main + " "@ + second)
}

/// A suggestion as a choice; one that names no place is none.
pub open spec fn suggestion_of(s: Value) -> Option<Value> {
    let p = field(s, "placePrediction"@);
    match p.text_at("placeId"@) {
        Some(id) => Some(
            empty_object().set("label"@, Value::Text(suggestion_label(p))).set(
                "place_id"@,
                Value::Text(id),
            ),
        ),
        None => None,
    }
}

/// The suggestions that name a place, in order.
pub open spec fn choices(list: Seq<Value>) -> Seq<Value>
    decreases list.len(),
{
    if list.len() == 0 {
        Seq::empty()
    } else {
        let lead = choices(list.drop_last());
        match suggestion_of(list.last()) {
            Some(c) => lead.push(c),
            None => lead,
        }
    }
}

/// The choices in the answer of a place search.
pub open spec fn answer_choices(body: Value) -> Seq<Value> {
    match field(body, "suggestions"@) {
        Value::Array(list) => choices(list),
        _ => Seq::empty(),
    }
}

/// A suggestion as a choice.
fn choice(s: &Json) -> (r: Option<Json>)
    ensures
        match r {
            Some(c) => suggestion_of(s@) == Some(c@),
            None => suggestion_of(s@) is None,
        },
{
    let p = match s.get("placePrediction") {
        Some(p) => p,
        None => {
            return None;
        },
    };
    let none = Json::Null;
    let format = match p.get("structuredFormat") {
        Some(f) => f,
        None => &none,
    };
    let main = match nested_text_of(format, "mainText", "text") {
        Some(s) => s,
        None => String::new(),
    };
    let second = match nested_text_of(format, "secondaryText", "text") {
        Some(s) => s,
        None => String::new(),
    };
    let label = trimmed(main.concat(" ").concat(second.as_str()).as_str());
    match p.get_text("placeId") {
        Some(id) => Some(
            Json::object().with("label", Json::Text(label)).with(
                "place_id",
                Json::Text(id.clone()),
            ),
        ),
        None => None,
    }
}

/// The choices in the answer of a place search.
pub fn places_autocomplete(body: &Json) -> (r: Json)
    ensures
        r@ == Value::Array(answer_choices(body@)),
{
    let mut out: Vec<Json> = Vec::new();
    match body.get("suggestions") {
        Some(Json::Array(list)) => {
            let ghost all = values(list@);
            let mut i: usize = 0;
            assert(values(out@) =~= choices(all.take(0)));
            while i < list.len()
                invariant
                    i <= list@.len(),
                    all == values(list@),
                    values(out@) == choices(all.take(i as int)),
                decreases list@.len() - i,
            {
                assert(all.take(i + 1).drop_last() =~= all.take(i as int));
                assert(all.take(i + 1).last() == list@[i as int]@);
                if let Some(c) = choice(&list[i]) {
                    let ghost lead = out@;
                    out.push(c);
                    assert(values(out@) =~= values(lead).push(c@));
                }
                i = i + 1;
            }
            assert(all.take(all.len() as int) =~= all);
        },
        _ => {
            assert(values(out@) =~= answer_choices(body@));
        },
    }
    Json::Array(out)
}

/// The key for place searches, or a refusal where none is configured.
pub fn places_key(key: &Option<String>) -> (r: Result<String, AppError>)
    ensures
        match r {
            Ok(k) => opt_view(*key) == Some(k@),
            Err(e) => *key is None && e@ == Failure::BadRequest(
                "place autocomplete is not configured"@,
            ),
        },
{
    match key {
        Some(k) => Ok(k.clone()),
        None => Err(AppError::invalid("place autocomplete is not configured")),
    }
}

/// Refuses an answer of a place search that is no success.
pub fn check_lookup(status: u16, status_text: &str) -> (r: Result<(), AppError>)
    ensures
        match r {
            Ok(_) => 200 <= status < 300,
            Err(e) => !(200 <= status < 300) && e@ == Failure::BadRequest(
                "places lookup failed ("@ + status_text@ + ")"@,
            ),
        },
{
    if 200 <= status && status < 300 {
        Ok(())
    } else {
        Err(
            AppError::bad_request(
                "places lookup failed (".to_owned().concat(status_text).concat(")"),
            ),
        )
    }
}

} // verus!
