//! Calendar clients: paths, component sets and reports.

use calstack::dav::{
    apply_mkcalendar, body_components, calendar_at, collection_of, collection_slug, entry,
    rewrite_component_set_xml, sync_changes, sync_since, ChangeRow, DavStep,
};
use calstack::xml::{
    find, is_shallow, parse, text, xml_attr, xml_element_text, MAX_BODY, MAX_DEPTH,
};

const PROPFIND: &str = r#"<?xml version="1.0" encoding="utf-8"?><D:multistatus xmlns:C="urn:ietf:params:xml:ns:caldav" xmlns:D="DAV:"><D:response><D:href>/calendars/alice/tasks/</D:href><D:propstat><D:prop><C:supported-calendar-component-set><C:comp name="VEVENT"/><C:comp name="VTODO"/><C:comp name="VJOURNAL"/><C:comp name="VFREEBUSY"/></C:supported-calendar-component-set><D:displayname>My Tasks</D:displayname></D:prop></D:propstat></D:response><D:response><D:href>/calendars/alice/tasks/x.ics</D:href><D:propstat><D:prop><C:supported-calendar-component-set><C:comp name="VEVENT"/></C:supported-calendar-component-set></D:prop></D:propstat></D:response></D:multistatus>"#;

#[test]
fn propfind_component_set_is_replaced_per_collection_only() {
    let sets = vec![("tasks".to_string(), vec!["VTODO".to_string()])];
    let out = rewrite_component_set_xml(PROPFIND, &sets);
    assert!(out.contains(
        r#"<C:supported-calendar-component-set><C:comp name="VTODO"/></C:supported-calendar-component-set><D:displayname>My Tasks"#
    ));
    assert!(!out.contains("VFREEBUSY"));
    assert!(out.contains(r#"/x.ics</D:href><D:propstat><D:prop><C:supported-calendar-component-set><C:comp name="VEVENT"/>"#));
    assert_eq!(rewrite_component_set_xml(PROPFIND, &vec![]), PROPFIND);
}

#[test]
fn put_gate_helpers() {
    assert_eq!(collection_of("/calendars/alice/work/a.ics"), "/calendars/alice/work");
    let ics = "BEGIN:VCALENDAR\r\nBEGIN:VTODO\r\nBEGIN:VALARM\r\nEND:VALARM\r\nEND:VTODO\r\nEND:VCALENDAR\r\n";
    assert_eq!(body_components(ics), vec!["VTODO"]);
}

#[test]
fn collections_of_short_paths() {
    assert_eq!(collection_of("/calendars/alice/"), "/calendars");
    assert_eq!(collection_of("/calendars"), "");
    assert_eq!(collection_of("calendars"), "");
    assert_eq!(collection_of(""), "");
}

#[test]
fn several_components_keep_their_order() {
    let ics = "BEGIN:VTODO\n  BEGIN: VEVENT \nbegin:VJOURNAL\nBEGIN:VJOURNAL";
    assert_eq!(body_components(ics), vec!["VTODO", "VEVENT", "VJOURNAL"]);
}

#[test]
fn an_unclosed_answer_is_rewritten_to_its_end() {
    let sets = vec![
        ("work".to_string(), vec!["VTODO".to_string()]),
        ("work".to_string(), vec!["VEVENT".to_string(), "VJOURNAL".to_string()]),
    ];
    let xml = "<D:response><D:href>/calendars/a/work</D:href><C:supported-calendar-component-set x=\"1\"></C:supported-calendar-component-set>é";
    assert_eq!(
        rewrite_component_set_xml(xml, &sets),
        "<D:response><D:href>/calendars/a/work</D:href><C:supported-calendar-component-set><C:comp name=\"VEVENT\"/><C:comp name=\"VJOURNAL\"/></C:supported-calendar-component-set>é"
    );
}

#[test]
fn matches_any_prefix() {
    for body in [
        r#"<D:sync-collection xmlns:D="DAV:"><D:sync-token>42</D:sync-token></D:sync-collection>"#,
        r#"<sync-collection xmlns="DAV:"><sync-token>42</sync-token></sync-collection>"#,
        r#"<A:sync-collection xmlns:A="DAV:"><A:sync-token> 42 </A:sync-token></A:sync-collection>"#,
    ] {
        let root = parse(body).unwrap();
        assert_eq!(text(find(&root, "sync-token").unwrap()), "42");
    }
}

#[test]
fn rejects_oversized_and_garbage() {
    assert!(parse("<a><b></a>").is_none());
    assert!(parse(&format!("<a>{}</a>", "x".repeat(MAX_BODY))).is_none());
}

#[test]
fn elements_are_found_depth_first() {
    let body = "<r><a><x k=\"1\">one</x></a><x k=\"2\">two</x></r>";
    assert_eq!(xml_element_text(body, "x").unwrap(), "one");
    assert_eq!(xml_attr(body, "x", "k").unwrap(), "1");
    assert_eq!(xml_attr(body, "x", "j"), None);
    assert_eq!(xml_element_text(body, "y"), None);
    assert_eq!(xml_element_text(body, "a").unwrap(), "");
    assert_eq!(xml_element_text("<r>", "r"), None);
}

#[test]
fn sync_tokens_end_with_a_number() {
    let body = |t: &str| format!("<s><sync-token>{t}</sync-token></s>");
    assert_eq!(sync_since(&body("http://x/sync/42")), 42);
    assert_eq!(sync_since(&body(" 7 ")), 7);
    assert_eq!(sync_since(&body("http://x/sync/")), 0);
    assert_eq!(sync_since(&body("99999999999999999999")), 0);
    assert_eq!(sync_since("<s/>"), 0);
    assert_eq!(sync_since("not xml"), 0);
}

fn change(id: u128, op: &str, class: Option<&str>, href: &str) -> ChangeRow {
    ChangeRow {
        resource_id: id,
        operation: op.to_string(),
        etag: Some(format!("e{id}")),
        deleted: false,
        class: class.map(str::to_string),
        href: href.to_string(),
    }
}

#[test]
fn a_sync_report_shows_the_newest_change_of_each_resource() {
    let rows = || {
        vec![
            change(1, "created", Some("PUBLIC"), "a.ics"),
            change(2, "created", Some("PRIVATE"), "b.ics"),
            change(1, "deleted", Some("PUBLIC"), "a.ics"),
            change(3, "updated", None, "c.ics"),
        ]
    };
    let all = sync_changes(&rows(), false);
    let shown: Vec<(&str, bool, bool)> =
        all.iter().map(|c| (c.href_suffix.as_str(), c.etag.is_some(), c.deleted)).collect();
    assert_eq!(
        shown,
        vec![("b.ics", true, false), ("a.ics", false, true), ("c.ics", true, false)]
    );
    let shared = sync_changes(&rows(), true);
    assert_eq!(shared.len(), 1);
    assert_eq!(shared[0].href_suffix, "a.ics");
}

#[test]
fn paths_name_calendars_by_slug() {
    assert_eq!(collection_slug("/calendars/alice/work/", "calendars").unwrap(), "work");
    assert_eq!(collection_slug("//calendars//alice/work", "calendars").unwrap(), "work");
    assert_eq!(collection_slug("/calendars/alice", "calendars"), None);
    assert_eq!(collection_slug("/calendars/alice/work/x.ics", "calendars"), None);
    assert_eq!(collection_slug("/contacts/alice/main", "calendars"), None);
    let slugs = vec!["home".to_string(), "work".to_string(), "work".to_string()];
    assert_eq!(calendar_at("/calendars/alice/work", &slugs), Some(1));
    assert_eq!(calendar_at("/calendars/alice/play", &slugs), None);
}

#[test]
fn a_new_calendar_takes_what_its_request_names() {
    let body = r#"<C:mkcalendar xmlns:C="urn:ietf:params:xml:ns:caldav" xmlns:D="DAV:"><D:set><D:prop>
        <D:displayname> Chores </D:displayname>
        <C:supported-calendar-component-set><C:comp name="VTODO"/><C:comp name="VFREEBUSY"/><C:comp name="VTODO"/><C:comp name="VEVENT"/></C:supported-calendar-component-set>
        </D:prop></D:set></C:mkcalendar>"#;
    let props = apply_mkcalendar(body);
    assert_eq!(props.name.unwrap(), "Chores");
    assert_eq!(props.description, "");
    assert_eq!(props.components.unwrap(), vec!["VTODO", "VEVENT"]);
    let none = apply_mkcalendar("");
    assert!(none.name.is_none() && none.components.is_none());
    assert_eq!(none.description, "");
}

#[test]
fn requests_of_clients_are_sorted_out() {
    let todo = "BEGIN:VCALENDAR\nBEGIN:VTODO\nEND:VTODO\nEND:VCALENDAR";
    let events = Some(vec!["VEVENT".to_string()]);
    let tasks = Some(vec!["VTODO".to_string()]);
    assert_eq!(entry("PUT", todo, &events, false), DavStep::RefuseComponent);
    assert_eq!(
        entry("PUT", todo, &tasks, false),
        DavStep::Handle { rewrite: false, make_calendar: false }
    );
    assert_eq!(entry("PUT", todo, &None, true), DavStep::RefuseComponent);
    assert_eq!(entry("REPORT", "<sync-collection/>", &None, false), DavStep::Sync);
    assert_eq!(entry("REPORT", "<free-busy-query/>", &None, false), DavStep::FreeBusy);
    assert_eq!(
        entry("REPORT", "<calendar-query/>", &None, false),
        DavStep::Handle { rewrite: false, make_calendar: false }
    );
    assert_eq!(
        entry("PROPFIND", "", &None, false),
        DavStep::Handle { rewrite: true, make_calendar: false }
    );
    assert_eq!(
        entry("MKCALENDAR", "", &None, true),
        DavStep::Handle { rewrite: false, make_calendar: true }
    );
}

#[test]
fn rewriting_component_sets_settles() {
    let sets = vec![
        ("tasks".to_string(), vec!["VTODO".to_string(), "VJOURNAL".to_string()]),
        ("empty".to_string(), vec![]),
    ];
    let once = rewrite_component_set_xml(PROPFIND, &sets);
    assert_ne!(once, PROPFIND);
    assert_eq!(rewrite_component_set_xml(&once, &sets), once);
    let bare = PROPFIND.replace("/alice/tasks/<", "/alice/empty/<");
    let once = rewrite_component_set_xml(&bare, &sets);
    assert!(once.contains(
        "<C:supported-calendar-component-set></C:supported-calendar-component-set>"
    ));
    assert_eq!(rewrite_component_set_xml(&once, &sets), once);
}

#[test]
fn unknown_slugs_leave_everything_as_it_is() {
    let sets = vec![("work".to_string(), vec!["VTODO".to_string()])];
    assert_eq!(rewrite_component_set_xml(PROPFIND, &sets), PROPFIND);
}

fn nested(depth: usize, inner: &str) -> String {
    format!("{}{inner}{}", "<a>".repeat(depth), "</a>".repeat(depth))
}

#[test]
fn bodies_nest_only_so_deep() {
    assert_eq!(xml_element_text(&nested(MAX_DEPTH, "x"), "a").unwrap(), "");
    assert!(parse(&nested(MAX_DEPTH, "x")).is_some());
    assert!(parse(&nested(MAX_DEPTH - 1, "<b/>")).is_some());
    assert!(parse(&nested(MAX_DEPTH + 1, "x")).is_none());
    assert!(parse(&nested(MAX_DEPTH, "<b/>")).is_none());
    assert!(parse(&"<a>".repeat(300_000)).is_none());
    assert!(parse(&nested(100_000, "")).is_none());
    // Many elements side by side are no depth.
    assert!(parse(&format!("<r>{}</r>", "<a>x</a><b/>".repeat(5_000))).is_some());
}

#[test]
fn only_elements_count_as_depth() {
    let deep = "<a>".repeat(MAX_DEPTH + 5);
    for body in [
        format!("<r><!-- {deep} --><t>1</t></r>"),
        format!("<r><![CDATA[{deep}]]><t>1</t></r>"),
        format!("<?xml version=\"1.0\"?><?note {deep}?><r><t>1</t></r>"),
        "<!DOCTYPE r SYSTEM \"r.dtd\"><r><t>1</t></r>".to_string(),
        "<r x=\"a>b\" y='</c>'><t>1</t></r>".to_string(),
    ] {
        assert_eq!(xml_element_text(&body, "t").unwrap(), "1", "{body}");
    }
    // Declarations inside a body could bring in more elements.
    let grows = "<!DOCTYPE r [<!ENTITY e \"<a>\">]><r>&e;</r>";
    assert!(!is_shallow(grows) && parse(grows).is_none());
    assert!(!is_shallow("<r><!-- never closed"));
    assert!(!is_shallow("<r a=\"<b>\"/>"));
}
