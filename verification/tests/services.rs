//! Places, change streams, webhooks, the API's description and the web
//! interface.

use calstack::audit::audit_limit;
use calstack::changes::{
    change_frame, cursor_frame, done_event, frame_event, next_change_stream_state, open_stream,
    take_changes, ChangeRow, Frame, StreamStep,
};
use calstack::json::{same_json, Json, Num};
use calstack::openapi::openapi_json;
use calstack::places::{
    address_component, check_lookup, place_details_to_location, places_autocomplete, places_key,
};
use calstack::search::check_search;
use calstack::text::{
    decimal_of, integer_of, join, same_ignoring_case, split_on, to_lower, trimmed,
};
use calstack::time::{
    date_text_of, json_instant_of, parse_moment, parse_rfc3339, parse_stamp, rfc3339_of, utc_stamp_of,
    words_in_zone, Date, Instant, MAX_DAY, MAX_SECS, MIN_DAY, MIN_SECS,
};
use calstack::web::asset_type;
use calstack::webhooks::{
    check_subscription, delivery_json, encrypt_sign_key, require_tenant, test_json, validate_triggers,
    validate_url, webhook_json, DeliveryRow, WebhookRow,
};

/// A JSON text as a value of the library.
fn json(s: &str) -> Json {
    fn convert(v: serde_json::Value) -> Json {
        match v {
            serde_json::Value::Null => Json::Null,
            serde_json::Value::Bool(b) => Json::Bool(b),
            serde_json::Value::Number(n) => Json::Number(match (n.as_u64(), n.as_i64()) {
                (Some(u), _) => Num::Unsigned(u),
                (None, Some(i)) => Num::Negative(i),
                _ => Num::Double(n.as_f64().unwrap().to_bits()),
            }),
            serde_json::Value::String(s) => Json::Text(s),
            serde_json::Value::Array(a) => Json::Array(a.into_iter().map(convert).collect()),
            serde_json::Value::Object(m) => {
                Json::Object(m.into_iter().map(|(k, v)| (k, convert(v))).collect())
            }
        }
    }
    convert(serde_json::from_str(s).unwrap())
}

fn text<'a>(v: &'a Json, key: &str) -> &'a str {
    v.get_text(key).unwrap()
}

#[test]
fn maps_place_details_to_location_body() {
    let details = json(
        r#"{
        "id": "ChIJabc",
        "displayName": {"text": "Union Station"},
        "formattedAddress": "1701 Wynkoop St, Denver, CO 80202, USA",
        "addressComponents": [
            {"longText": "1701", "shortText": "1701", "types": ["street_number"]},
            {"longText": "Wynkoop Street", "shortText": "Wynkoop St", "types": ["route"]},
            {"longText": "Denver", "shortText": "Denver", "types": ["locality"]},
            {"longText": "Colorado", "shortText": "CO", "types": ["administrative_area_level_1"]},
            {"longText": "80202", "shortText": "80202", "types": ["postal_code"]},
            {"longText": "United States", "shortText": "US", "types": ["country"]}
        ],
        "location": {"latitude": 39.7534, "longitude": -105.0016},
        "websiteUri": "https://example.com",
        "nationalPhoneNumber": "(303) 555-0100"
    }"#,
    );
    let loc = place_details_to_location(&details);
    assert_eq!(text(&loc, "provider"), "google_places");
    assert_eq!(text(&loc, "provider_place_id"), "ChIJabc");
    assert_eq!(text(&loc, "display_name"), "Union Station");
    assert_eq!(text(&loc, "street_address"), "1701 Wynkoop Street");
    assert_eq!(text(&loc, "locality"), "Denver");
    assert_eq!(text(&loc, "administrative_area"), "CO");
    assert_eq!(text(&loc, "country"), "US");
    assert!(matches!(
        loc.get("latitude"),
        Some(Json::Number(Num::Double(bits))) if f64::from_bits(*bits) == 39.7534
    ));
    assert_eq!(text(&loc, "website"), "https://example.com");
}

#[test]
fn missing_components_stay_null() {
    let loc = place_details_to_location(&json(r#"{"id": "x", "location": {}}"#));
    assert!(matches!(loc.get("street_address"), Some(Json::Null)));
    assert!(matches!(loc.get("country"), Some(Json::Null)));
}

#[test]
fn sublocality_falls_back_for_locality() {
    let details = json(
        r#"{"addressComponents": [
        {"longText": "Brooklyn", "shortText": "Brooklyn", "types": ["sublocality"]}
    ]}"#,
    );
    assert_eq!(address_component(&details, "sublocality", false), Some("Brooklyn".into()));
    assert_eq!(text(&place_details_to_location(&details), "locality"), "Brooklyn");
}

#[test]
fn suggestions_become_choices() {
    let body = json(
        r#"{"suggestions": [
        {"placePrediction": {"placeId": "p1", "structuredFormat": {
            "mainText": {"text": "Cafe"}, "secondaryText": {"text": "Denver"}}}},
        {"placePrediction": {"structuredFormat": {"mainText": {"text": "No id"}}}},
        {"placePrediction": {"placeId": "p2"}},
        {"queryPrediction": {}}
    ]}"#,
    );
    let expected = json(r#"[{"label": "Cafe Denver", "place_id": "p1"}, {"label": "", "place_id": "p2"}]"#);
    assert!(same_json(&places_autocomplete(&body), &expected));
    assert!(same_json(&places_autocomplete(&json("{}")), &json("[]")));
    assert_eq!(places_key(&Some("k".into())).unwrap(), "k");
    assert_eq!(
        places_key(&None).unwrap_err().response_parts().1,
        "place autocomplete is not configured"
    );
    assert!(check_lookup(200, "200 OK").is_ok());
    assert_eq!(
        check_lookup(403, "403 Forbidden").unwrap_err().response_parts().1,
        "places lookup failed (403 Forbidden)"
    );
}

fn sample_change(seq: i64) -> ChangeRow {
    ChangeRow {
        seq,
        calendar_id: 0,
        resource_id: 0,
        operation: "upsert".to_string(),
        changed_at: Instant { secs: 1_790_000_000, nanos: 0 },
    }
}

const NIL: &str = "00000000-0000-0000-0000-000000000000";

#[test]
fn change_frame_matches_the_json_poll_shape() {
    let frame = change_frame(&sample_change(7));
    assert!(matches!(frame.get("seq"), Some(Json::Number(Num::Unsigned(7)))));
    assert_eq!(text(&frame, "calendar_id"), NIL);
    assert_eq!(text(&frame, "resource_id"), NIL);
    assert_eq!(text(&frame, "operation"), "upsert");
    assert!(frame.get_text("changed_at").is_some());
    match frame {
        Json::Object(entries) => assert_eq!(entries.len(), 5),
        _ => panic!("a frame is an object"),
    }
}

#[test]
fn sync_and_done_frames_carry_only_the_cursor() {
    assert!(same_json(&cursor_frame(12), &json(r#"{"seq": 12}"#)));
}

#[test]
fn every_frame_serializes_through_the_sse_wire_path() {
    let sync = frame_event(&Frame::Sync(1));
    assert_eq!(sync.name, "sync");
    assert!(same_json(&sync.data, &json(r#"{"seq": 1}"#)));
    let change = frame_event(&Frame::Change(sample_change(2)));
    assert_eq!(change.name, "change");
    assert!(matches!(change.data.get("seq"), Some(Json::Number(Num::Unsigned(2)))));
    let done = done_event(3);
    assert_eq!(done.name, "done");
    assert!(same_json(&done.data, &json(r#"{"seq": 3}"#)));
}

fn emitted(step: StreamStep) -> (String, u64) {
    match step {
        StreamStep::Emit(e) => match e.data.get("seq") {
            Some(Json::Number(Num::Unsigned(n))) => (e.name.to_string(), *n),
            _ => panic!("events carry a number"),
        },
        other => panic!("expected an event, got {other:?}"),
    }
}

#[test]
fn a_stream_drains_polls_and_ends() {
    let mut st = open_stream(None, 5, 0);
    assert_eq!(emitted(next_change_stream_state(&mut st, 1)), ("sync".to_string(), 5));
    assert!(matches!(next_change_stream_state(&mut st, 2), StreamStep::Poll));
    assert!(take_changes(&mut st, Some(vec![])));
    assert!(take_changes(&mut st, None));
    assert!(!take_changes(&mut st, Some(vec![sample_change(6), sample_change(9)])));
    assert_eq!(emitted(next_change_stream_state(&mut st, 3)), ("change".to_string(), 6));
    assert_eq!(st.since, 6);
    assert_eq!(
        emitted(next_change_stream_state(&mut st, 2_000_000)),
        ("change".to_string(), 9)
    );
    assert_eq!(emitted(next_change_stream_state(&mut st, 2_000_000)), ("done".to_string(), 9));
    assert!(matches!(next_change_stream_state(&mut st, 0), StreamStep::End));
    let mut resumed = open_stream(Some(3), 5, 10);
    assert_eq!(resumed.since, 3);
    assert!(matches!(next_change_stream_state(&mut resumed, 11), StreamStep::Poll));
    assert_eq!(
        emitted(next_change_stream_state(&mut resumed, 10 + 1_800_000)),
        ("done".to_string(), 3)
    );
}

#[test]
fn searches_and_lists_are_bounded() {
    assert!(check_search(&Some("q".into()), &None).is_ok());
    assert!(check_search(&None, &Some("a".into())).is_ok());
    assert_eq!(
        check_search(&None, &None).unwrap_err().response_parts().1,
        "q or attendee is required"
    );
    assert_eq!(audit_limit(None), 100);
    assert_eq!(audit_limit(Some(5000)), 1000);
    assert_eq!(audit_limit(Some(-3)), -3);
}

#[test]
fn webhooks_are_checked() {
    let triggers = vec!["event_created".to_string(), "task_due".to_string()];
    assert!(validate_triggers(&vec![], &triggers).is_ok());
    assert!(validate_triggers(&vec!["task_due".into()], &triggers).is_ok());
    assert_eq!(
        validate_triggers(&vec!["task_due".into(), "x".into()], &triggers)
            .unwrap_err()
            .response_parts()
            .1,
        "events must be a subset of: event_created, task_due"
    );
    assert!(validate_url("https://x").is_ok() && validate_url("http://x").is_ok());
    assert_eq!(validate_url("ftp://x").unwrap_err().response_parts().1, "url must be http(s)");
    assert!(validate_url("HTTP://x").is_err());
    assert!(!encrypt_sign_key(" ", false).unwrap());
    assert!(encrypt_sign_key("k", true).unwrap());
    assert_eq!(
        encrypt_sign_key("k", false).unwrap_err().response_parts(),
        (500, "APP_ENCRYPTION_KEY is not set".to_string())
    );
    assert!(require_tenant(1, 1).is_ok());
    assert_eq!(require_tenant(1, 2).unwrap_err().response_parts().0, 404);
    assert!(check_subscription("e", "k", "a").is_ok());
    assert_eq!(
        check_subscription("e", "", "a").unwrap_err().response_parts().1,
        "endpoint and keys required"
    );
}

#[test]
fn webhooks_are_shown_without_their_secret() {
    let at = Instant { secs: 0, nanos: 0 };
    let mut w = WebhookRow {
        id: 0,
        url: "https://x".into(),
        name: "n".into(),
        enabled: true,
        events: vec!["task_due".into()],
        secret_encrypted: Some(vec![1, 2, 3]),
        created_at: at,
    };
    let shown = json(&format!(
        r#"{{"id": "{NIL}", "url": "https://x", "name": "n", "enabled": true,
            "events": ["task_due"], "has_sign_key": true,
            "created_at": "1970-01-01T00:00:00+00:00"}}"#
    ));
    assert!(same_json(&webhook_json(&w), &shown));
    w.secret_encrypted = None;
    assert!(matches!(webhook_json(&w).get("has_sign_key"), Some(Json::Bool(false))));
    let d = DeliveryRow {
        id: 0,
        status: "pending".into(),
        attempts: 2,
        response_code: Some(500),
        error: Some("12ms: HTTP 500".into()),
        delivered_at: None,
        created_at: at,
    };
    let shown = json(&format!(
        r#"{{"id": "{NIL}", "status": "pending", "attempts": 2, "response_code": 500,
            "error": "12ms: HTTP 500", "delivered_at": null,
            "created_at": "1970-01-01T00:00:00+00:00"}}"#
    ));
    assert!(same_json(&delivery_json(&d), &shown));
    assert!(same_json(
        &test_json(&Ok(()), 0),
        &json(&format!(r#"{{"ok": true, "delivery_id": "{NIL}"}}"#))
    ));
    assert!(same_json(
        &test_json(&Err("no".into()), 0),
        &json(&format!(r#"{{"ok": false, "error": "no", "delivery_id": "{NIL}"}}"#))
    ));
}

#[test]
fn the_description_covers_older_paths() {
    let doc = json(
        r#"{"openapi": "3.1.0", "paths": {"/a": {"get": 1}},
            "components": {"schemas": {"A": 1}, "responses": {}}}"#,
    );
    let old = json(
        r#"{"paths": {"/a": {"get": 2}, "/b": {"post": 3}},
            "components": {"schemas": {"A": 2, "B": 3}, "securitySchemes": {"sessionCookie": {}}},
            "security": []}"#,
    );
    let expected = json(
        r#"{"openapi": "3.1.0", "paths": {"/a": {"get": 1}, "/b": {"post": 3}},
            "components": {"schemas": {"A": 1, "B": 3}, "responses": {},
                "securitySchemes": {"sessionCookie": {}}},
            "security": []}"#,
    );
    assert!(same_json(&openapi_json(doc, &old), &expected));
    let bare = openapi_json(json(r#"{"security": [1], "paths": 4}"#), &json("{}"));
    let expected = json(
        r#"{"security": [1], "paths": {}, "components": {"schemas": {}, "securitySchemes": {}}}"#,
    );
    assert!(same_json(&bare, &expected));
}

#[test]
fn files_of_the_web_interface_have_types() {
    assert_eq!(asset_type("js/app.js"), Some("text/javascript; charset=utf-8"));
    assert_eq!(asset_type("css/font/summernote.ttf"), Some("font/ttf"));
    assert_eq!(asset_type("img/logo.png"), Some("image/png"));
    assert_eq!(asset_type("../secret"), None);
}

#[test]
fn texts_are_taken_apart_and_put_together() {
    assert_eq!(trimmed(" \t a b\u{a0}\n"), "a b");
    assert_eq!(trimmed(" \u{3000} "), "");
    assert_eq!(split_on("a,,b,", ','), vec!["a", "", "b", ""]);
    assert_eq!(split_on("", ','), vec![""]);
    assert_eq!(join(&vec!["a".into(), "b".into()], ", "), "a, b");
    assert_eq!(join(&vec![], ", "), "");
    assert_eq!(to_lower("ÀBC"), "Àbc");
    assert!(same_ignoring_case("ABC", "abc") && !same_ignoring_case("é", "É"));
    assert_eq!(decimal_of(u64::MAX), "18446744073709551615");
    assert_eq!(decimal_of(0), "0");
    assert_eq!(integer_of(i64::MIN), "-9223372036854775808");
    assert_eq!(integer_of(-7), "-7");
}

#[test]
fn the_ends_of_the_calendar_have_texts() {
    assert_eq!(date_text_of(Date { day: MIN_DAY }), "-262143-01-01");
    assert_eq!(date_text_of(Date { day: MAX_DAY }), "+262142-12-31");
    let first = Instant { secs: MIN_SECS, nanos: 0 };
    let last = Instant { secs: MAX_SECS, nanos: 999_999_999 };
    assert_eq!(rfc3339_of(first), "-262143-01-01T00:00:00+00:00");
    assert_eq!(utc_stamp_of(last), "+2621421231T235959Z");
    assert_eq!(json_instant_of(first), "-262143-01-01T00:00:00Z");
    for zone in [Some("Pacific/Kiritimati"), Some("America/New_York"), None] {
        let zone = zone.map(str::to_string);
        assert!(!words_in_zone(first, &zone).is_empty());
        assert!(!words_in_zone(last, &zone).is_empty());
    }
}

#[test]
fn leap_seconds_are_kept() {
    let leap = parse_rfc3339("2016-12-31T23:59:60.5Z").unwrap();
    assert_eq!(leap.nanos, 1_500_000_000);
    assert_eq!(rfc3339_of(leap), "2016-12-31T23:59:60.500+00:00");
    assert_eq!(json_instant_of(leap), "2016-12-31T23:59:60.500Z");
    assert_eq!(utc_stamp_of(parse_stamp("20161231T235960").unwrap()), "20161231T235960Z");
    assert!(parse_moment("2016-12-31T23:59:60Z").is_some());
    let before = parse_rfc3339("2016-12-31T23:59:59.9Z").unwrap();
    let after = parse_rfc3339("2017-01-01T00:00:00Z").unwrap();
    assert!(before.before(leap) && leap.before(after) && !after.before(leap));
    assert_eq!(leap.earlier(after), leap);
    assert_eq!(leap.later(before), leap);
    // A shift counts as `chrono` counts it.
    for secs in [-86_400, -1, 0, 1, 3_600] {
        let at = chrono::DateTime::from_timestamp(leap.secs, leap.nanos).unwrap();
        let shifted = at + chrono::Duration::seconds(secs);
        let ours = leap.shift(secs);
        assert_eq!(ours.secs, shifted.timestamp());
        assert_eq!(ours.nanos, shifted.timestamp_subsec_nanos());
    }
    assert_eq!(words_in_zone(after, &Some("Europe/Paris".to_string())), "Sun Jan 01 01:00 (CET)");
    assert_eq!(words_in_zone(after, &Some("Nowhere".to_string())), "Sun Jan 01 00:00 UTC");
}

#[test]
fn white_space_is_what_unicode_says() {
    for n in 0..=0x10_ffff_u32 {
        if let Some(c) = char::from_u32(n) {
            assert_eq!(calstack::text::is_white_space(c), c.is_whitespace(), "{n:#x}");
        }
    }
    assert_eq!(trimmed("\u{3000}\r\n a b\u{85}\u{2028}"), "a b");
    assert_eq!(trimmed("\u{200b}a"), "\u{200b}a");
}
