//! Calendar files that go out, and mail that comes in.

use calstack::feed::{insert_components, public_events, public_feed, vjournal_text, vtodo_text};
use calstack::ics::{escape_ics_text, fold_ics_line, ics_prop, moment_prop};
use calstack::journals::{
    create_journal, journal_view, validate_journal_body, JournalBody, JournalRow,
};
use calstack::json::{Json, Num};
use calstack::scheduling::{
    fallback_message_id, inbound_action, inbound_method, inbound_secret_ok, inbound_step, itip_body,
    message_digest_input, message_key, postmark_inbound, send_pending, InboundAction,
    ReplyAttendee, Sending,
};
use calstack::tasks::TaskRow;
use calstack::time::{Date, Instant};

#[test]
fn text_values_are_escaped() {
    assert_eq!(escape_ics_text("a;b,c\nd\\e"), "a\\;b\\,c\\nd\\\\e");
}

#[test]
fn carriage_returns_are_dropped() {
    assert_eq!(escape_ics_text("a\r\nb"), "a\\nb");
    assert_eq!(escape_ics_text(""), "");
}

#[test]
fn long_lines_fold_at_75_octets() {
    let folded = fold_ics_line(&format!("SUMMARY:{}", "x".repeat(120)));
    for line in folded.split("\r\n") {
        assert!(line.len() <= 75, "unfolded line too long: {}", line.len());
    }
    assert!(folded.contains("\r\n "));
    let wide = fold_ics_line(&format!("SUMMARY:{}", "é".repeat(60)));
    assert!(wide.contains("éé"));
}

#[test]
fn folding_keeps_every_character() {
    let line = format!("SUMMARY:{}", "aé€𝄞".repeat(30));
    let folded = fold_ics_line(&line);
    assert_eq!(folded.replace("\r\n ", "").trim_end(), line);
    assert!(folded.split("\r\n").all(|l| l.len() <= 75));
    assert_eq!(fold_ics_line(&"x".repeat(75)), format!("{}\r\n", "x".repeat(75)));
    assert_eq!(fold_ics_line(&"x".repeat(76)), format!("{}\r\n x\r\n", "x".repeat(75)));
    assert_eq!(ics_prop("SUMMARY", "a;b"), "SUMMARY:a\\;b\r\n");
}

#[test]
fn moments_render_utc_date_or_floating() {
    let at = chrono::DateTime::from_timestamp(1_789_000_000, 0).unwrap();
    let ours = Instant { secs: 1_789_000_000, nanos: 0 };
    assert_eq!(
        moment_prop("DUE", Some(ours), None, false),
        format!("DUE:{}\r\n", at.format("%Y%m%dT%H%M%SZ"))
    );
    assert_eq!(
        moment_prop("DUE", Some(ours), None, true),
        format!("DUE:{}\r\n", at.format("%Y%m%dT%H%M%S"))
    );
    let day = chrono::NaiveDate::from_ymd_opt(2026, 9, 20).unwrap();
    let ours = Date { day: day.to_epoch_days() };
    assert_eq!(moment_prop("DUE", None, Some(ours), false), "DUE;VALUE=DATE:20260920\r\n");
    assert_eq!(moment_prop("DUE", None, None, false), "");
}

fn task() -> TaskRow {
    TaskRow {
        id: 1,
        calendar_id: 2,
        uid: "uid-1".into(),
        summary: "buy; milk".into(),
        description_html: Some("secret".into()),
        description_text: None,
        url: None,
        location: None,
        starts_at: None,
        start_date: None,
        due_at: Some(Instant { secs: 86_400, nanos: 0 }),
        due_date: None,
        duration_micros: None,
        tzid: None,
        floating: false,
        completed_at: None,
        rrule: None,
        rdate: Json::Array(vec![]),
        exdate: Json::Array(vec![]),
        status: Some("NEEDS-ACTION".into()),
        percent_complete: None,
        priority: None,
        class: None,
        categories: vec![],
        parent_uid: None,
        sort_order: None,
        organizer_email: None,
        organizer_name: None,
        sequence: 0,
        created_at: Instant { secs: 0, nanos: 0 },
        updated_at: Instant { secs: 3600, nanos: 0 },
        extra_props: Json::string("shh"),
    }
}

fn journal() -> JournalRow {
    JournalRow {
        id: 1,
        calendar_id: 2,
        uid: "uid-1".into(),
        summary: "standup notes".into(),
        description_html: Some("<i>ok</i>".into()),
        description_text: Some("ok".into()),
        url: None,
        starts_at: None,
        start_date: Some(Date {
            day: chrono::NaiveDate::from_ymd_opt(2026, 9, 20).unwrap().to_epoch_days(),
        }),
        tzid: None,
        floating: false,
        status: Some("FINAL".into()),
        class: Some("CONFIDENTIAL".into()),
        categories: vec!["work".into()],
        sequence: 1,
        created_at: Instant { secs: 0, nanos: 0 },
        updated_at: Instant { secs: 0, nanos: 0 },
        href: Some("notes.ics".into()),
        extra_props: Json::Array(vec![Json::object().with("name", Json::string("X-SECRET"))]),
    }
}

#[test]
fn journal_view_shape_has_no_extra_props() {
    let v = journal_view(&journal(), "etag-1");
    assert_eq!(v.get_text("summary").unwrap(), "standup notes");
    assert_eq!(v.get_text("start_date").unwrap(), "2026-09-20");
    assert_eq!(v.get_text("status").unwrap(), "FINAL");
    assert_eq!(v.get_text("class").unwrap(), "CONFIDENTIAL");
    assert_eq!(v.get_text("etag").unwrap(), "etag-1");
    assert!(matches!(v.get("sequence"), Some(Json::Number(Num::Unsigned(1)))));
    assert!(v.get("extra_props").is_none(), "extra_props must not leak");
    assert!(v.get("href").is_none(), "href is CalDAV plumbing, not API");
}

#[test]
fn journals_are_checked() {
    let body = |status: Option<&str>, class: Option<&str>| JournalBody {
        starts_at: None,
        start_date: None,
        status: status.map(str::to_string),
        class: class.map(str::to_string),
    };
    let message = |b: &JournalBody| validate_journal_body(b).unwrap_err().response_parts().1;
    assert!(validate_journal_body(&body(Some("DRAFT"), Some("PUBLIC"))).is_ok());
    assert_eq!(message(&body(Some("OPEN"), None)), "status must be DRAFT, FINAL or CANCELLED");
    assert_eq!(
        message(&body(None, Some("SECRET"))),
        "class must be PUBLIC, PRIVATE or CONFIDENTIAL"
    );
    let mut both = body(None, None);
    both.starts_at = Some(Instant { secs: 0, nanos: 0 });
    both.start_date = Some(Date { day: 0 });
    assert_eq!(message(&both), "starts_at and start_date are mutually exclusive");
}

#[test]
fn messages_without_an_identifier_are_told_apart() {
    let (a, b) = (message_key("", &[1]), message_key("", &[2]));
    assert_eq!((a.as_str(), b.as_str()), ("sha256-01", "sha256-02"));
    assert_eq!(message_key("", &[]), "sha256-");
    assert_eq!(message_key("<id@x>", &[1]), "<id@x>");
}

#[test]
fn new_journals_get_a_uid() {
    let body = |status: &str| JournalBody {
        starts_at: None,
        start_date: None,
        status: Some(status.to_string()),
        class: None,
    };
    let made = create_journal(&body("DRAFT"), None, None).unwrap();
    assert_eq!((made.uid.len(), made.categories.len()), (36, 0));
    let made = create_journal(&body("DRAFT"), Some("mine".into()), Some(vec!["c".into()])).unwrap();
    assert_eq!((made.uid.as_str(), made.categories.len()), ("mine", 1));
    assert!(create_journal(&body("OPEN"), None, None).is_err());
}

#[test]
fn feeds_show_tasks_and_journals_before_the_end() {
    let todo = vtodo_text(&task());
    assert_eq!(
        todo,
        "BEGIN:VTODO\r\nUID:uid-1\r\nDTSTAMP:19700101T010000Z\r\nSUMMARY:buy\\; milk\r\n\
         STATUS:NEEDS-ACTION\r\nDUE:19700102T000000Z\r\nEND:VTODO\r\n"
    );
    let note = vjournal_text(&journal());
    assert_eq!(
        note,
        "BEGIN:VJOURNAL\r\nUID:uid-1\r\nDTSTAMP:19700101T000000Z\r\nSUMMARY:standup notes\r\n\
         STATUS:FINAL\r\nDTSTART;VALUE=DATE:20260920\r\nEND:VJOURNAL\r\n"
    );
    let events = "BEGIN:VCALENDAR\r\nEND:VCALENDAR\r\n";
    let open = |class: Option<&str>| {
        let mut j = journal();
        j.class = class.map(str::to_string);
        j
    };
    assert_eq!(
        public_feed(events, &vec![task()], &vec![open(None)]),
        format!("BEGIN:VCALENDAR\r\n{todo}{note}END:VCALENDAR\r\n")
    );
    let (shown, hidden) = (open(Some("PUBLIC")), open(Some("PRIVATE")));
    assert_eq!(
        public_feed(events, &vec![], &vec![journal(), shown, hidden]),
        format!("BEGIN:VCALENDAR\r\n{note}END:VCALENDAR\r\n")
    );
    let classes = vec![None, Some("PRIVATE".to_string()), Some("PUBLIC".to_string())];
    assert_eq!(public_events(&classes), vec![0, 2]);
    assert_eq!(public_feed(events, &vec![], &vec![]), events);
    assert_eq!(insert_components("END:VCALENDAR END:VCALENDAR", "x"), "END:VCALENDAR xEND:VCALENDAR");
    assert_eq!(insert_components("no end", "x"), "no end");
}

#[test]
fn empty_secret_is_fail_closed_even_with_a_header() {
    assert!(!inbound_secret_ok("", Some("anything")));
    assert!(!inbound_secret_ok("", Some("")));
}

#[test]
fn correct_secret_passes() {
    assert!(inbound_secret_ok("s3cret", Some("s3cret")));
}

#[test]
fn wrong_secret_and_missing_header_rejected() {
    assert!(!inbound_secret_ok("s3cret", Some("nope")));
    assert!(!inbound_secret_ok("s3cret", None));
}

#[test]
fn absent_method_means_reply_and_others_pass_through() {
    assert_eq!(inbound_method(None), "REPLY");
    assert_eq!(inbound_method(Some("")), "REPLY");
    assert_eq!(inbound_method(Some("REPLY")), "REPLY");
    assert_eq!(inbound_method(Some("cancel")), "CANCEL");
    assert_eq!(inbound_method(Some("Request")), "REQUEST");
}

#[test]
fn fallback_message_id_is_stable_and_distinguishes_inputs() {
    // The digest is worked out outside; any faithful one tells inputs apart.
    let id = |from: &str, text: &str| {
        fallback_message_id(message_digest_input(from, text).as_bytes())
    };
    let first = id("al@example.com", "BEGIN:VCALENDAR");
    assert_eq!(first, id("al@example.com", "BEGIN:VCALENDAR"));
    assert_ne!(first, id("al@example.com", "different text"));
    assert_ne!(first, id("sam@example.com", "BEGIN:VCALENDAR"));
    assert!(first.starts_with("sha256-"));
}

#[test]
fn message_identifiers_fall_back_to_the_digest() {
    assert_eq!(message_digest_input("a", "b"), "a\nb");
    assert_eq!(fallback_message_id(&[0x00, 0xab, 0x0f]), "sha256-00ab0f");
    assert_eq!(message_key("", &[1]), "sha256-01");
    assert_eq!(message_key("<id>", &[1]), "<id>");
}

#[test]
fn invitations_say_what_they_are() {
    assert_eq!(
        itip_body("BEGIN:VCALENDAR\r\nBEGIN:VCALENDAR", "REQUEST"),
        "BEGIN:VCALENDAR\r\nMETHOD:REQUEST\r\nBEGIN:VCALENDAR"
    );
    assert_eq!(itip_body("x", "CANCEL"), "x");
}

fn attachment(kind: &str, name: &str, content: &str) -> Json {
    Json::object()
        .with("ContentType", Json::string(kind))
        .with("Name", Json::string(name))
        .with("Content", Json::string(content))
}

#[test]
fn inbound_mail_is_let_in_and_read() {
    let body = Json::object()
        .with("From", Json::string("Al@Example.com"))
        .with("MessageID", Json::string("m-1"))
        .with(
            "Attachments",
            Json::Array(vec![
                attachment("TEXT/Calendar; method=REPLY", "", "QkVHSU4="),
                attachment("text/plain", "x.txt", "QkVHSU4="),
                attachment("application/octet-stream", "INVITE.ICS", "/0E="),
                attachment("text/calendar", "", "***"),
            ]),
        );
    let mail = postmark_inbound("s", Some("s"), &body).unwrap();
    assert_eq!(mail.from, "al@example.com");
    assert_eq!(mail.message_id, "m-1");
    assert_eq!(mail.calendars, vec!["BEGIN", "\u{fffd}A", ""]);
    assert_eq!(postmark_inbound("s", None, &body).unwrap_err().response_parts().0, 403);
    assert!(postmark_inbound("s", Some("s"), &Json::Null).unwrap().calendars.is_empty());
}

#[test]
fn replies_change_the_senders_participation_only() {
    let list = vec![
        ReplyAttendee { email: None, partstat: Some("DECLINED".into()) },
        ReplyAttendee { email: Some("AL@example.com".into()), partstat: Some("ACCEPTED".into()) },
        ReplyAttendee { email: Some("al@example.com".into()), partstat: Some("DECLINED".into()) },
    ];
    assert!(matches!(
        inbound_action("REPLY", &list, "al@example.com"),
        InboundAction::SetPartstat(p) if p == "ACCEPTED"
    ));
    assert!(matches!(
        inbound_action("REPLY", &list, "sam@example.com"),
        InboundAction::RecordOnly
    ));
    assert!(matches!(inbound_action("CANCEL", &list, "x"), InboundAction::Cancel));
    assert!(matches!(inbound_action("REQUEST", &list, "al@example.com"), InboundAction::RecordOnly));
}

#[test]
fn outbound_messages_are_marked() {
    let gone = send_pending(Sending::NoEvent);
    assert!(gone.go_on);
    assert_eq!(gone.mark, Some(("failed", Some("event gone".to_string()))));
    let none = send_pending(Sending::NoProvider);
    assert!(!none.go_on && none.mark.is_none());
    assert_eq!(send_pending(Sending::Sent).mark, Some(("sent", None)));
    let failed = send_pending(Sending::Failed("no".into()));
    assert!(!failed.go_on);
    assert_eq!(failed.mark, Some(("pending", Some("no".to_string()))));
}

#[test]
fn a_message_that_was_recorded_before_changes_nothing() {
    let list = vec![ReplyAttendee {
        email: Some("al@example.com".into()),
        partstat: Some("ACCEPTED".into()),
    }];
    let from = "al@example.com";
    assert!(matches!(
        inbound_step(true, "REPLY", &list, from),
        Some(InboundAction::SetPartstat(p)) if p == "ACCEPTED"
    ));
    assert!(inbound_step(false, "REPLY", &list, from).is_none());
    assert!(inbound_step(false, "CANCEL", &list, from).is_none());
    // Without an identifier the same mail is recorded under the same key.
    let digest = [7u8; 32];
    assert_eq!(message_key("", &digest), message_key("", &digest));
    assert_eq!(message_key("", &digest), fallback_message_id(&digest));
}
