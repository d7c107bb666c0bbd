//! The description of the API: what is generated, with the gaps filled from
//! an older document.

use vstd::prelude::*;

use crate::json::{fields, Json, Value};

verus! {

/// The entries of an object; none where the value is no object.
pub open spec fn entries_of(v: Option<Value>) -> Map<Seq<char>, Value> {
    match v {
        Some(Value::Object(m)) => m,
        _ => Map::empty(),
    }
}

/// The entries of one object, with the gaps filled from another.
pub open spec fn filled(ours: Map<Seq<char>, Value>, theirs: Map<Seq<char>, Value>) -> Map<
    Seq<char>,
    Value,
> {
    theirs.union_prefer_right(ours)
}

/// The value under a key of an object that may be missing.
pub open spec fn inner(v: Option<Value>, key: Seq<char>) -> Option<Value> {
    match v {
        Some(x) => x.at(key),
        None => None,
    }
}

/// One kind of shared component, with the gaps filled.
pub open spec fn filled_components(doc: Value, old: Value, key: Seq<char>) -> Value {
    Value::Object(
        filled(
            entries_of(inner(doc.at("components"@), key)),
            entries_of(inner(old.at("components"@), key)),
        ),
    )
}

/// What a document says under `security`, or else what the older one says.
pub open spec fn security_of(doc: Value, old: Value) -> Value {
    match doc.at("security"@) {
        Some(v) => v,
        None => match old.at("security"@) {
            Some(v) => v,
            None => Value::Null,
        },
    }
}

/// A document with its gaps filled: paths, schemas and security schemes that
/// only the older one has, and its security where the document says nothing.
pub open spec fn merged(doc: Value, old: Value) -> Value {
    doc.set(
        "paths"@,
        Value::Object(filled(entries_of(doc.at("paths"@)), entries_of(old.at("paths"@)))),
    ).set(
        "components"@,
        Value::Object(
            entries_of(doc.at("components"@)).insert(
                "schemas"@,
                filled_components(doc, old, "schemas"@),
            ).insert("securitySchemes"@, filled_components(doc, old, "securitySchemes"@)),
        ),
    ).set("security"@, security_of(doc, old))
}

/// A list of entries behind another replaces what it names.
proof fn fields_concat(a: Seq<(String, Json)>, b: Seq<(String, Json)>)
    ensures
        fields(a + b) == fields(a).union_prefer_right(fields(b)),
    decreases b.len(),
{
    if b.len() == 0 {
        assert(a + b =~= a);
        assert(fields(a).union_prefer_right(fields(b)) =~= fields(a));
    } else {
        let head = b.subrange(0, b.len() - 1);
        fields_concat(a, head);
        let all = a + b;
        assert(all.subrange(0, all.len() - 1) =~= a + head);
        assert(all[all.len() - 1] == b[b.len() - 1]);
        assert(fields(a + b) =~= fields(a).union_prefer_right(fields(b)));
    }
}

/// The entries of one object, with the gaps filled from another.
fn fill(ours: Option<&Json>, theirs: Option<&Json>) -> (r: Json)
    ensures
        r@ == Value::Object(
            filled(
                entries_of(
                    match ours {
                        Some(v) => Some(v@),
                        None => None,
                    },
                ),
                entries_of(
                    match theirs {
                        Some(v) => Some(v@),
                        None => None,
                    },
                ),
            ),
        ),
{
    let mut out: Vec<(String, Json)> = Vec::new();
    let ghost none: Seq<(String, Json)> = Seq::empty();
    assert(fields(none) == Map::<Seq<char>, Value>::empty());
    let mut first: Vec<(String, Json)> = match theirs {
        Some(v) => match v.copy() {
            Json::Object(entries) => entries,
            _ => Vec::new(),
        },
        None => Vec::new(),
    };
    let mut second: Vec<(String, Json)> = match ours {
        Some(v) => match v.copy() {
            Json::Object(entries) => entries,
            _ => Vec::new(),
        },
        None => Vec::new(),
    };
    let ghost a = first@;
    let ghost b = second@;
    proof {
        assert(a.len() == 0 ==> a =~= none);
        assert(b.len() == 0 ==> b =~= none);
        fields_concat(a, b);
    }
    out.append(&mut first);
    out.append(&mut second);
    assert(out@ =~= a + b);
    Json::Object(out)
}

/// Whether a value is an object.
fn object_or_new(v: Option<&Json>) -> (r: Json)
    ensures
        r@ == Value::Object(
            entries_of(
                match v {
                    Some(x) => Some(x@),
                    None => None,
                },
            ),
        ),
{
    match v {
        Some(x) => match x {
            Json::Object(_) => x.copy(),
            _ => Json::object(),
        },
        None => Json::object(),
    }
}

/// The value under a key of an object that may be missing.
fn inner_of<'a>(v: Option<&'a Json>, key: &str) -> (r: Option<&'a Json>)
    ensures
        match r {
            Some(x) => inner(
                match v {
                    Some(y) => Some(y@),
                    None => None,
                },
                key@,
            ) == Some(x@),
            None => inner(
                match v {
                    Some(y) => Some(y@),
                    None => None,
                },
                key@,
            ) is None,
        },
{
    match v {
        Some(x) => x.get(key),
        None => None,
    }
}

/// A document with its gaps filled from an older one.
pub fn openapi_json(doc: Json, old: &Json) -> (r: Json)
    ensures
        r@ == merged(doc@, old@),
{
    let paths = fill(doc.get("paths"), old.get("paths"));
    let ours = doc.get("components");
    let theirs = old.get("components");
    let schemas = fill(inner_of(ours, "schemas"), inner_of(theirs, "schemas"));
    let schemes = fill(inner_of(ours, "securitySchemes"), inner_of(theirs, "securitySchemes"));
    let components = object_or_new(ours).with("schemas", schemas).with("securitySchemes", schemes);
    let security = match doc.get("security") {
        Some(v) => v.copy(),
        None => match old.get("security") {
            Some(v) => v.copy(),
            None => Json::Null,
        },
    };
    doc.with("paths", paths).with("components", components).with("security", security)
}

/// The merged document covers every path of the older one, and keeps every
/// path of the newer one as it is.
pub proof fn every_path_is_covered(doc: Value, old: Value, route: Seq<char>)
    requires
        doc is Object,
    ensures
        ({
            let paths = entries_of(merged(doc, old).at("paths"@));
            let ours = entries_of(doc.at("paths"@));
            let theirs = entries_of(old.at("paths"@));
            &&& paths.dom().contains(route) <==> ours.dom().contains(route) || theirs.dom().contains(
                route,
            )
            &&& ours.dom().contains(route) ==> paths[route] == ours[route]
            &&& theirs.dom().contains(route) && !ours.dom().contains(route) ==> paths[route]
                == theirs[route]
        }),
{
    reveal_strlit("paths");
    reveal_strlit("components");
    reveal_strlit("security");
    assert("paths"@.len() != "components"@.len());
    assert("paths"@.len() != "security"@.len());
}

} // verus!
