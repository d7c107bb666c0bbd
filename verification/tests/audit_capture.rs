//! What is written to the audit log and to capture files.

use calstack::audit::{actor_type, is_audited, object_id, object_type};
use calstack::capture::{file_name, is_dav, render, Header, MAX_BODY};

#[test]
fn object_type_trims_plural() {
    assert_eq!(object_type("/api/events/123"), "event");
    assert_eq!(object_type("/api/notification-providers"), "notification-provider");
    assert_eq!(object_type("/api/auth/tokens"), "auth");
}

#[test]
fn short_and_foreign_paths_keep_their_names() {
    assert_eq!(object_type("/api/sms/1"), "sms");
    assert_eq!(object_type("/api/"), "");
    assert_eq!(object_type("/other"), "api");
}

#[test]
fn object_id_takes_last_uuid_segment() {
    let id = uuid::Uuid::from_u128(0x1234_5678_9abc_def0_1234_5678_9abc_def0);
    assert_eq!(object_id(&format!("/api/calendars/{id}/events")), Some(id.as_u128()));
    assert_eq!(object_id("/api/auth/password"), None);
    let later = uuid::Uuid::from_u128(7);
    assert_eq!(object_id(&format!("/api/calendars/{id}/events/{later}")), Some(7));
}

#[test]
fn only_changes_through_the_api_are_audited() {
    assert!(is_audited("POST", "/api/events"));
    assert!(is_audited("DELETE", "/api/events/1"));
    assert!(!is_audited("GET", "/api/events"));
    assert!(!is_audited("HEAD", "/api/events"));
    assert!(!is_audited("OPTIONS", "/api/events"));
    assert!(!is_audited("PUT", "/calendars/a/b"));
    assert_eq!(actor_type(true), "session");
    assert_eq!(actor_type(false), "token");
}

#[test]
fn only_dav_traffic_is_captured() {
    assert!(is_dav("PUT", "/calendars/alice/work/a.ics"));
    assert!(is_dav("PROPFIND", "/"));
    assert!(is_dav("GET", "/.well-known/caldav"));
    assert!(!is_dav("GET", "/"));
    assert!(!is_dav("POST", "/api/auth/login"));
    assert!(!is_dav("GET", "/contacts/x"));
}

fn header(name: &str, value: Option<&str>) -> Header {
    Header { name: name.to_string(), value: value.map(str::to_string) }
}

#[test]
fn credentials_are_redacted() {
    let headers = vec![
        header("authorization", Some("Basic c2VjcmV0")),
        header("cookie", Some("session=abc")),
        header("content-type", Some("text/calendar")),
    ];
    let out = render("PUT", "/calendars/a/b/c.ics", &headers, &b"BEGIN:VCALENDAR".to_vec());
    assert!(!out.contains("c2VjcmV0") && !out.contains("session=abc"));
    assert!(out.contains("authorization: <redacted>"));
    assert!(out.contains("content-type: text/calendar"));
    assert!(out.ends_with("BEGIN:VCALENDAR"));
}

#[test]
fn captures_mark_what_they_cut() {
    let out = render("PUT", "/x", &vec![header("x-bin", None)], &vec![b'a'; MAX_BODY + 1]);
    assert!(out.starts_with("PUT /x\nx-bin: <binary>\n\naaa"));
    assert!(out.ends_with("a\n<truncated>"));
    let lossy = render("PUT", "/x", &vec![], &vec![0xff, b'b']);
    assert_eq!(lossy, "PUT /x\n\n\u{fffd}b");
}

#[test]
fn file_names_sort_by_arrival_and_are_path_safe() {
    assert_eq!(
        file_name(7, "PUT", "/calendars/a b/c.ics"),
        "000007-PUT-_calendars_a_b_c_ics.txt"
    );
}

#[test]
fn long_paths_and_numbers_keep_their_names_bounded() {
    let name = file_name(12_345_678, "GET", &"/é9".repeat(40));
    assert_eq!(name, format!("12345678-GET-{}.txt", "__9".repeat(20)));
}
