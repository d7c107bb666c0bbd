//! Calendars, subscriptions and imports.

use calstack::calendars::{
    calendar_view, check_components, check_import, check_import_file, create_calendar,
    export_disposition, import_ics, import_outcome, import_step, normalize_source, parse_acl,
    patch_components, require_calendar_change, require_capability, AclEntryBody,
    CalendarRow, Capability, Held, ImportStep, KindCount, SeriesOutcome,
};
use calstack::error::AppError;
use calstack::json::Json;
use calstack::series::{group_series, Member};
use calstack::subscriptions::{
    fallback_organizer, ip_allowed, sync_calendar, validator, Address, Resolved, SyncAction,
    SyncEvent,
};
use calstack::time::Instant;

fn texts(list: &[&str]) -> Vec<String> {
    list.iter().map(|s| s.to_string()).collect()
}

fn some(s: &str) -> Option<String> {
    Some(s.to_string())
}

fn message(e: AppError) -> String {
    e.response_parts().1
}

/// Reads an address as it is usually written.
fn address(s: &str) -> Address {
    if !s.contains(':') {
        let o: Vec<u8> = s.split('.').map(|n| n.parse().unwrap()).collect();
        return Address::V4(o[0], o[1], o[2], o[3]);
    }
    let groups = |part: &str| -> Vec<u16> {
        part.split(':')
            .filter(|g| !g.is_empty())
            .map(|g| u16::from_str_radix(g, 16).unwrap())
            .collect()
    };
    let (head, tail) = match s.split_once("::") {
        Some((head, tail)) => (groups(head), groups(tail)),
        None => (groups(s), vec![]),
    };
    let mut g = head.clone();
    g.resize(8 - tail.len(), 0);
    g.extend(tail);
    Address::V6(g[0], g[1], g[2], g[3], g[4], g[5], g[6], g[7])
}

#[test]
fn subscription_fetch_blocks_private_targets() {
    let p = |s: &str| ip_allowed(address(s));
    assert!(p("93.184.216.34"));
    assert!(p("2606:2800:220:1:248:1893:25c8:1946"));
    assert!(!p("127.0.0.1"));
    assert!(!p("10.1.2.3"));
    assert!(!p("172.16.0.9"));
    assert!(!p("192.168.1.1"));
    assert!(!p("169.254.1.1"));
    assert!(!p("0.0.0.0"));
    assert!(!p("::1"));
    assert!(!p("fe80::1"));
    assert!(!p("fd00::1"));
    assert!(!p("::"));
}

#[test]
fn borders_of_the_blocked_ranges() {
    let p = |s: &str| ip_allowed(address(s));
    assert!(p("172.15.255.255") && !p("172.31.255.255") && p("172.32.0.0"));
    assert!(p("9.255.255.255") && p("11.0.0.0"));
    assert!(!p("255.255.255.255") && p("255.255.255.254") && p("0.0.0.1"));
    assert!(p("fbff::1") && !p("fc00::1") && !p("fdff::1") && p("fe00::1"));
    assert!(p("fe7f::1") && !p("febf::1") && p("fec0::1") && p("::2"));
}

fn failed(action: SyncAction) -> String {
    match action {
        SyncAction::Fail(e) => e,
        other => panic!("expected a failure, got {other:?}"),
    }
}

#[test]
fn sources_are_vetted_before_they_are_asked() {
    let start = |s: Option<&str>| sync_calendar(SyncEvent::Start(s.map(str::to_string)), 100);
    assert!(matches!(
        start(Some("https://cal.example/feed.ics")),
        SyncAction::Resolve(t) if t.host == "cal.example" && t.port == 443
    ));
    assert!(matches!(
        start(Some("http://cal.example:8080/")),
        SyncAction::Resolve(t) if t.port == 8080
    ));
    assert_eq!(failed(start(Some("not a\"url"))), "invalid source URL \"not a\\\"url\"");
    assert_eq!(failed(start(None)), "invalid source URL \"\"");
    assert_eq!(failed(start(Some("ftp://x/"))), "source URL must be http or https");
    let resolved = |addrs: Vec<&str>| {
        let addrs = addrs
            .into_iter()
            .map(|a| Resolved { address: address(a), text: a.to_string() })
            .collect();
        sync_calendar(SyncEvent::Resolved { host: "h".into(), addrs }, 100)
    };
    assert!(matches!(resolved(vec!["93.184.216.34"]), SyncAction::Fetch));
    assert_eq!(failed(resolved(vec![])), "remote host h did not resolve");
    assert_eq!(
        failed(resolved(vec!["93.184.216.34", "10.0.0.1", "127.0.0.1"])),
        "remote host resolves to a blocked address (10.0.0.1)"
    );
}

#[test]
fn answers_are_judged() {
    let answered = |status: u16, announced: Option<u64>| {
        sync_calendar(
            SyncEvent::Answered { status, status_text: "404 Not Found".into(), announced },
            100,
        )
    };
    assert!(matches!(answered(304, Some(1000)), SyncAction::NotePass));
    assert_eq!(failed(answered(404, None)), "remote returned 404 Not Found");
    assert_eq!(failed(answered(200, Some(101))), "remote body over the size cap");
    assert!(matches!(answered(200, Some(100)), SyncAction::ReadBody));
    assert!(matches!(answered(200, None), SyncAction::ReadBody));
    assert!(matches!(sync_calendar(SyncEvent::Received(100), 100), SyncAction::Parse));
    assert_eq!(
        failed(sync_calendar(SyncEvent::Received(101), 100)),
        "remote body over the size cap"
    );
    assert_eq!(
        failed(sync_calendar(SyncEvent::Received(0), -1)),
        "remote body over the size cap"
    );
    assert_eq!(
        failed(sync_calendar(SyncEvent::Parsed(Err("line 1".into())), 100)),
        "remote body is not valid iCalendar: line 1"
    );
    assert_eq!(validator(Some(some("e")), Some(some("m"))), some("e"));
    assert_eq!(validator(Some(None), Some(some("m"))), None);
    assert_eq!(validator(None, Some(some("m"))), some("m"));
    assert_eq!(validator(None, None), None);
    assert_eq!(fallback_organizer(some("o@x")), "o@x");
    assert_eq!(fallback_organizer(None), "sync-unknown@calstack.invalid");
}

fn member(uid: &str, is_override: bool) -> Member {
    Member { uid: uid.to_string(), is_override }
}

#[test]
fn components_group_by_uid() {
    let list = vec![
        member("b", true),
        member("a", false),
        member("b", false),
        member("a", true),
        member("a", true),
        member("b", false),
        member("c", true),
    ];
    let groups = group_series(&list);
    let shown: Vec<(&str, Option<usize>, &[usize])> = groups
        .iter()
        .map(|g| (g.uid.as_str(), g.master, g.overrides.as_slice()))
        .collect();
    assert_eq!(
        shown,
        vec![("b", Some(5), &[0][..]), ("a", Some(1), &[3, 4][..]), ("c", None, &[6][..])]
    );
    match sync_calendar(SyncEvent::Parsed(Ok(list)), 0) {
        SyncAction::Store { series, fetched } => {
            let kept: Vec<&str> = series.iter().map(|s| s.uid.as_str()).collect();
            assert_eq!(kept, vec!["b", "a"]);
            assert!(series.iter().all(|s| s.master.is_some()));
            assert_eq!(fetched, vec!["b", "a", "c"]);
        }
        other => panic!("expected series, got {other:?}"),
    }
    assert!(group_series(&vec![]).is_empty());
}

#[test]
fn imports_account_for_every_series() {
    let result = import_ics(&vec![
        ("a".to_string(), SeriesOutcome::Stored),
        ("b".to_string(), SeriesOutcome::NoMaster),
        ("c".to_string(), SeriesOutcome::Exists),
        ("d".to_string(), SeriesOutcome::Failed("full".to_string())),
        ("e".to_string(), SeriesOutcome::Stored),
    ]);
    assert_eq!((result.imported, result.skipped), (2, 1));
    let rejected: Vec<(&str, &str)> =
        result.rejected.iter().map(|r| (r.uid.as_str(), r.reason.as_str())).collect();
    assert_eq!(
        rejected,
        vec![("b", "override without its master; import whole series"), ("d", "full")]
    );
}

#[test]
fn imports_are_checked() {
    assert!(check_import(&texts(&["VTODO", "VEVENT"]), 10, 10).is_ok());
    assert_eq!(
        message(check_import(&texts(&["VTODO"]), 10, 10).unwrap_err()),
        "calendar does not include VEVENT components"
    );
    assert_eq!(
        check_import(&texts(&["VEVENT"]), 11, 10).unwrap_err().response_parts(),
        (413, "import body over the 10 byte limit".to_string())
    );
    assert!(check_import_file("BEGIN:VTODO", Ok(1)).is_ok());
    assert!(check_import_file("BEGIN:VCALENDAR", Ok(0)).is_ok());
    assert_eq!(
        message(check_import_file("x BEGIN:VJOURNAL", Ok(0)).unwrap_err()),
        "import supports VEVENT only; tasks and journals go through CalDAV"
    );
    assert_eq!(
        message(check_import_file("", Err("eof".into())).unwrap_err()),
        "not valid iCalendar: eof"
    );
    assert_eq!(export_disposition("work"), "attachment; filename=\"work.ics\"");
}

#[test]
fn capabilities_open_calendars() {
    assert!(require_capability(Some(true), Capability::ReadWrite, false).is_ok());
    assert!(require_capability(Some(true), Capability::ReadOnly, true).is_ok());
    assert!(require_capability(Some(true), Capability::Owner, true).is_ok());
    assert!(matches!(
        require_capability(Some(true), Capability::ReadWrite, true),
        Err(AppError::Forbidden)
    ));
    assert!(matches!(
        require_capability(Some(false), Capability::FreeBusy, false),
        Err(AppError::Forbidden)
    ));
    assert!(matches!(
        require_capability(None, Capability::ReadOnly, false),
        Err(AppError::NotFound)
    ));
}

#[test]
fn sources_are_normalized() {
    assert_eq!(normalize_source(&None).unwrap(), None);
    assert_eq!(normalize_source(&some("")).unwrap(), None);
    assert_eq!(normalize_source(&some("HTTP://X/a")).unwrap(), some("HTTP://X/a"));
    assert_eq!(message(normalize_source(&some("x")).unwrap_err()), "invalid source URL");
    assert_eq!(
        message(normalize_source(&some("file:///etc")).unwrap_err()),
        "source URL must be http or https"
    );
}

#[test]
fn access_lists_name_known_capabilities() {
    let entry = |name: &str, known: Option<Capability>| AclEntryBody {
        user_id: 4,
        capability: name.to_string(),
        known,
        can_manage_acl: true,
    };
    let list = parse_acl(&vec![entry("owner", Some(Capability::Owner))]).unwrap();
    assert_eq!(list[0].capability, Capability::Owner);
    assert!(list[0].can_manage_acl);
    let bad = parse_acl(&vec![
        entry("owner", Some(Capability::Owner)),
        entry("king", None),
        entry("queen", None),
    ]);
    assert_eq!(message(bad.unwrap_err()), "unknown capability: king");
}

#[test]
fn component_sets_are_checked() {
    assert!(check_components(&texts(&["VTODO"])).is_ok());
    assert!(check_components(&texts(&["VTODO", "VEVENT", "VJOURNAL"])).is_ok());
    for bad in [&[][..], &["VTODO", "VTODO"][..], &["VALARM"][..], &["VEVENT", "VTODO", "VJOURNAL", "VEVENT"][..]] {
        assert_eq!(
            message(check_components(&texts(bad)).unwrap_err()),
            "components must be 1-3 distinct values from VEVENT, VTODO, VJOURNAL"
        );
    }
    let counts = vec![
        KindCount { kind: "VEVENT".into(), live: 0 },
        KindCount { kind: "VTODO".into(), live: 12 },
        KindCount { kind: "VJOURNAL".into(), live: 3 },
    ];
    let all = texts(&["VEVENT", "VTODO", "VJOURNAL"]);
    assert!(patch_components(&all, &texts(&["VTODO", "VJOURNAL"]), &counts).is_ok());
    let blocked = patch_components(&all, &texts(&["VEVENT"]), &counts).unwrap_err();
    assert_eq!(
        blocked.response_parts(),
        (409, "cannot remove components with live items: VTODO=12, VJOURNAL=3".to_string())
    );
    assert!(patch_components(&all, &texts(&[]), &counts).is_err());
}

#[test]
fn subscribed_calendars_show_as_read_only() {
    let at = Instant { secs: 0, nanos: 0 };
    let mut c = CalendarRow {
        id: 1,
        slug: "work".into(),
        name: "Work".into(),
        description: None,
        color: None,
        timezone: None,
        order_index: -1,
        components: texts(&["VEVENT"]),
        created_at: at,
        updated_at: at,
        source_url: None,
        source_synced_at: None,
    };
    assert!(matches!(calendar_view(&c, "owner").get("read_only"), Some(Json::Bool(false))));
    c.source_url = some("https://x");
    let v = calendar_view(&c, "read_only");
    assert!(matches!(v.get("read_only"), Some(Json::Bool(true))));
    assert_eq!(v.get_text("my_capability").unwrap(), "read_only");
}

#[test]
fn new_calendars_are_checked_in_order() {
    let wrong = || Some(vec!["VALARM".to_string()]);
    let source = |s: &str| Some(s.to_string());
    let e = create_calendar(Some("bad slug".into()), &wrong(), &source("x")).unwrap_err();
    assert_eq!(e.response_parts(), (400, "bad slug".to_string()));
    let e = create_calendar(None, &wrong(), &source("x")).unwrap_err();
    assert!(e.response_parts().1.starts_with("components must be"));
    let e = create_calendar(None, &None, &source("x")).unwrap_err();
    assert_eq!(e.response_parts().1, "invalid source URL");
    assert_eq!(create_calendar(None, &None, &source("")).unwrap(), None);
    let fed = create_calendar(None, &None, &source("https://x/y.ics")).unwrap();
    assert_eq!(fed.unwrap(), "https://x/y.ics");
}

#[test]
fn series_are_rejected_skipped_or_stored() {
    assert_eq!(import_step(None, false), ImportStep::Reject);
    assert_eq!(import_step(None, true), ImportStep::Reject);
    assert_eq!(import_step(Some(4), true), ImportStep::Skip);
    assert_eq!(import_step(Some(4), false), ImportStep::Store(4));
    let failed = || Err("full".to_string());
    assert!(matches!(import_outcome(None, false, failed()), SeriesOutcome::NoMaster));
    assert!(matches!(import_outcome(Some(4), true, failed()), SeriesOutcome::Exists));
    assert!(matches!(import_outcome(Some(4), false, Ok(())), SeriesOutcome::Stored));
    assert!(matches!(
        import_outcome(Some(4), false, failed()),
        SeriesOutcome::Failed(m) if m == "full"
    ));
    let groups = group_series(&vec![member("a", true), member("b", false), member("a", true)]);
    let list: Vec<_> = groups
        .into_iter()
        .map(|g| {
            let outcome = import_outcome(g.master, false, Ok(()));
            (g.uid, outcome)
        })
        .collect();
    let result = import_ics(&list);
    assert_eq!((result.imported, result.skipped, result.rejected.len()), (1, 0, 1));
    assert_eq!(result.rejected[0].uid, "a");
}

#[test]
fn changing_a_calendar_needs_its_capability() {
    let held = |read_write, owner| Some(Held { read_write, owner });
    let status = |held, source| {
        require_calendar_change(held, source).map_err(|e| e.response_parts().0)
    };
    assert_eq!(status(None, false), Err(404));
    assert_eq!(status(None, true), Err(404));
    assert_eq!(status(held(false, false), false), Err(403));
    assert_eq!(status(held(true, false), false), Ok(()));
    assert_eq!(status(held(true, false), true), Err(403));
    assert_eq!(status(held(true, true), true), Ok(()));
}
