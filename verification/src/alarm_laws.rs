//! When alarms fire and whom they reach, said of the alarm, its subject and
//! the readers of the calendar.

use vstd::prelude::*;

use crate::alarms::{
    due_actions, is_due, is_stale, live_alarm, pass_actions, point_triggers, stale_ids,
    task_due_action, triggers, ActionSpec, AlarmAction, AlarmEntry, LiveAlarm, Pending, Point,
    ScanKind, ScanRow, ZoneFacts,
};
use crate::ids::id_text;
use crate::json::Value;
use crate::reminders::{
    addresses, distinct, distinct_is_part, in_app_notices, mail_notice, mail_notices, mail_text,
    one_mail_per_address, push_notice, push_notices, reminder, reminder_title, sms_notices,
    subject_key, subject_value, tenant_value, user_addresses, Audience, Channel, Notice,
    NoticeSpec, Principal,
};
use crate::text::{opt_view, unicode_lower, views};
use crate::time::{json_instant, rfc3339, words_in, Date, Instant, Moment};

verus! {

/// An instant so many seconds later, outside leap seconds.
pub open spec fn later_by(at: Instant, secs: int) -> Instant {
    Instant { secs: (at.secs + secs) as i64, nanos: at.nanos }
}

/// The alarm is relative to the end of its subject.
pub open spec fn relative_to_end(scan: ScanRow) -> bool {
    scan.alarm.related matches Some(s) && s@ == "END"@
}

/// A relative alarm of a single subject at an instant, which is not
/// done, fires exactly once: so many seconds from the end where it says so,
/// whatever the start is, and otherwise so many seconds from the start,
/// whatever the end is.
pub proof fn a_relative_alarm_counts_from_its_end_of_the_subject(
    scan: ScanRow,
    zone: ZoneFacts,
    expansion: Seq<Point>,
    offset: i64,
    at: Instant,
)
    requires
        scan.alarm.trigger_at is None,
        scan.alarm.offset_secs == Some(offset),
        !scan.recurring,
        !is_done(scan, Point { moment: Moment::Timed(at), zone }),
        at.settled(),
    ensures
        relative_to_end(scan) && scan.end == Some(Moment::Timed(at)) ==> triggers(
            scan,
            zone,
            expansion,
        ) == seq![later_by(at, offset as int)],
        !relative_to_end(scan) && scan.start == Some(Moment::Timed(at)) ==> triggers(
            scan,
            zone,
            expansion,
        ) == seq![later_by(at, offset as int)],
        relative_to_end(scan) && scan.end is None ==> triggers(scan, zone, expansion).len() == 0,
        !relative_to_end(scan) && scan.start is None ==> triggers(scan, zone, expansion).len() == 0,
{
    let point = Point { moment: Moment::Timed(at), zone };
    let one = seq![point];
    assert(one.drop_last() =~= Seq::<Point>::empty());
    assert(one.last() == point);
    reveal_with_fuel(point_triggers, 2);
    assert(point_triggers(scan, offset as int, one) =~= seq![later_by(at, offset as int)]);
}

/// A relative alarm of a single subject on whole days counts from the start
/// of the day: midnight in UTC where the subject has no zone, and midnight in
/// the zone where it has one.
pub proof fn an_all_day_alarm_counts_from_midnight(
    scan: ScanRow,
    zone: ZoneFacts,
    expansion: Seq<Point>,
    offset: i64,
    day: Date,
)
    requires
        scan.alarm.trigger_at is None,
        scan.alarm.offset_secs == Some(offset),
        !scan.recurring,
        !is_done(scan, Point { moment: Moment::AllDay(day), zone }),
        day.wf(),
        zone.midnight matches Some(m) ==> m.settled(),
        (relative_to_end(scan) && scan.end == Some(Moment::AllDay(day))) || (!relative_to_end(scan)
            && scan.start == Some(Moment::AllDay(day))),
    ensures
        scan.tzid is None ==> triggers(scan, zone, expansion) == seq![
            Instant { secs: (day.day * 86_400 + offset) as i64, nanos: 0 },
        ],
        scan.tzid is Some ==> (match zone.midnight {
            Some(m) => triggers(scan, zone, expansion) == seq![later_by(m, offset as int)],
            None => triggers(scan, zone, expansion).len() == 0,
        }),
{
    let point = Point { moment: Moment::AllDay(day), zone };
    let one = seq![point];
    assert(one.drop_last() =~= Seq::<Point>::empty());
    assert(one.last() == point);
    reveal_with_fuel(point_triggers, 2);
    if scan.tzid is None {
        assert(point_triggers(scan, offset as int, one) =~= seq![
            Instant { secs: (day.day * 86_400 + offset) as i64, nanos: 0 },
        ]);
    } else if let Some(m) = zone.midnight {
        assert(point_triggers(scan, offset as int, one) =~= seq![later_by(m, offset as int)]);
    }
}

/// An alarm with a trigger of its own fires then and only then; one without a
/// trigger and without an offset never fires.
pub proof fn an_absolute_alarm_fires_at_its_trigger(
    scan: ScanRow,
    zone: ZoneFacts,
    expansion: Seq<Point>,
)
    ensures
        scan.alarm.trigger_at matches Some(at) ==> triggers(scan, zone, expansion) == seq![at],
        scan.alarm.trigger_at is None && scan.alarm.offset_secs is None ==> triggers(
            scan,
            zone,
            expansion,
        ).len() == 0,
{
}

/// Whether an occurrence of the subject is done: the wall-clock time of an
/// instant, or the day itself, is among those that are.
pub open spec fn is_done(scan: ScanRow, p: Point) -> bool {
    match p.moment {
        Moment::Timed(at) => p.zone.wall matches Some(wall) && exists|i: int|
            0 <= i < scan.completed@.len() && #[trigger] scan.completed@[i] == Moment::Timed(wall),
        Moment::AllDay(day) => exists|i: int|
            0 <= i < scan.completed@.len() && #[trigger] scan.completed@[i] == Moment::AllDay(day),
    }
}

/// An occurrence more of a recurring subject adds one trigger behind the
/// others, so many seconds from the occurrence, unless the occurrence is
/// done; then it adds none.
pub proof fn an_occurrence_more_fires_once(
    scan: ScanRow,
    zone: ZoneFacts,
    expansion: Seq<Point>,
    p: Point,
    offset: i64,
)
    requires
        scan.alarm.trigger_at is None,
        scan.alarm.offset_secs == Some(offset),
        scan.recurring,
        if relative_to_end(scan) {
            scan.end is Some
        } else {
            scan.start is Some
        },
        p.wf(),
        match p.moment {
            Moment::Timed(at) => at.settled(),
            Moment::AllDay(_) => p.zone.midnight matches Some(m) ==> m.settled(),
        },
    ensures
        triggers(scan, zone, Seq::empty()).len() == 0,
        is_done(scan, p) ==> triggers(scan, zone, expansion.push(p)) == triggers(
            scan,
            zone,
            expansion,
        ),
        !is_done(scan, p) ==> (match p.moment {
            Moment::Timed(at) => triggers(scan, zone, expansion.push(p)) == triggers(
                scan,
                zone,
                expansion,
            ).push(later_by(at, offset as int)),
            Moment::AllDay(day) => if scan.tzid is None {
                triggers(scan, zone, expansion.push(p)) == triggers(scan, zone, expansion).push(
                    Instant { secs: (day.day * 86_400 + offset) as i64, nanos: 0 },
                )
            } else {
                match p.zone.midnight {
                    Some(m) => triggers(scan, zone, expansion.push(p)) == triggers(
                        scan,
                        zone,
                        expansion,
                    ).push(later_by(m, offset as int)),
                    None => triggers(scan, zone, expansion.push(p)) == triggers(
                        scan,
                        zone,
                        expansion,
                    ),
                }
            },
        }),
{
    assert(expansion.push(p).drop_last() =~= expansion);
    assert(expansion.push(p).last() == p);
}

/// A trigger is due from two minutes before now to three minutes after, both
/// included.
pub proof fn what_is_due(trigger: Instant, now: Instant)
    requires
        trigger.wf(),
        now.steady(),
        now.can_shift(-120),
        now.can_shift(180),
    ensures
        is_due(trigger, now) <==> {
            &&& now.secs - 120 < trigger.secs || (now.secs - 120 == trigger.secs && now.nanos
                <= trigger.nanos)
            &&& trigger.secs < now.secs + 180 || (trigger.secs == now.secs + 180 && trigger.nanos
                <= now.nanos)
        },
{
}

/// An alarm more adds what its own due triggers ask for, behind the others;
/// an alarm none of whose triggers is due adds nothing.
pub proof fn an_alarm_more_adds_its_own(entries: Seq<AlarmEntry>, e: AlarmEntry, now: Instant)
    ensures
        pass_actions(Seq::empty(), now).len() == 0,
        pass_actions(entries.push(e), now) == pass_actions(entries, now) + due_actions(
            e.scan,
            e.who,
            triggers(e.scan, e.base_zone, e.expansion@),
            now,
        ),
{
    assert(entries.push(e).drop_last() =~= entries);
}

/// A trigger more adds its own firing where it is due: of a task first that
/// it falls due, then each notification of the reminder once. Where it is not
/// due it adds nothing.
pub proof fn a_due_trigger_fires(
    scan: ScanRow,
    who: Audience,
    list: Seq<Instant>,
    t: Instant,
    now: Instant,
)
    ensures
        due_actions(scan, who, Seq::empty(), now).len() == 0,
        !is_due(t, now) ==> due_actions(scan, who, list.push(t), now) == due_actions(
            scan,
            who,
            list,
            now,
        ),
        is_due(t, now) ==> ({
            let before = due_actions(scan, who, list, now);
            let after = due_actions(scan, who, list.push(t), now);
            let notices = reminder(scan, t, who);
            let lead = if scan.kind == ScanKind::Task {
                1int
            } else {
                0
            };
            &&& after.len() == before.len() + lead + notices.len()
            &&& after.take(before.len() as int) == before
            &&& scan.kind == ScanKind::Task ==> (after[before.len() as int] matches ActionSpec::TaskDue {
                calendar_id,
                task_id,
                marker,
                context,
            } && calendar_id == scan.calendar_id && task_id == scan.subject_id && marker
                == "task_due:"@ + id_text(scan.subject_id) + ":"@ + rfc3339(t) && context.at(
                "summary"@,
            ) == Some(Value::Text(scan.summary@)) && context.at("due"@) == Some(
                Value::Text(rfc3339(t)),
            ) && context.at("kind"@) == Some(Value::Text("task"@)))
            &&& forall|i: int|
                0 <= i < notices.len() ==> after[before.len() + lead + i] == ActionSpec::Notify(
                    #[trigger] notices[i],
                )
        }),
{
    reveal_strlit("summary");
    reveal_strlit("due");
    reveal_strlit("kind");
    assert("summary"@.len() == 7 && "due"@.len() == 3 && "kind"@.len() == 4);
    let all = list.push(t);
    assert(all.drop_last() =~= list);
    let before = due_actions(scan, who, list, now);
    if is_due(t, now) {
        let after = due_actions(scan, who, all, now);
        assert(after.take(before.len() as int) =~= before);
        if scan.kind == ScanKind::Task {
            assert(after[before.len() as int] == task_due_action(scan, t));
        }
    }
}

/// What the parts of a reminder are: the in-app notifications, then the
/// mails, the text messages and the push notifications.
proof fn reminder_parts(scan: ScanRow, t: Instant, who: Audience, mail: bool, sms: bool, push: bool)
    requires
        who.tenant_id is Some,
        mail == (views(scan.alarm.notify_channels@).contains("email"@) && who.email),
        sms == (views(scan.alarm.notify_channels@).contains("sms"@) && who.sms),
        push == (views(scan.alarm.notify_channels@).contains("push"@) && who.webpush),
    ensures
        reminder(scan, t, who) == in_app_notices(scan, t, who.users@) + (if mail {
            mail_notices(
                scan,
                t,
                who.tenant_id->0,
                opt_view(who.public_url),
                distinct(addresses(scan, who)),
            )
        } else {
            Seq::empty()
        }) + (if sms {
            sms_notices(scan, t, who.tenant_id->0, who.phones@)
        } else {
            Seq::empty()
        }) + (if push {
            push_notices(scan, t, who.tenant_id->0, who.users@)
        } else {
            Seq::empty()
        }),
{
}

/// Whether an alarm names a channel.
pub open spec fn asks_for(scan: ScanRow, channel: Seq<char>) -> bool {
    exists|i: int|
        0 <= i < scan.alarm.notify_channels@.len() && (
        #[trigger] scan.alarm.notify_channels@[i])@ == channel
}

proof fn asking_is_naming(scan: ScanRow, channel: Seq<char>)
    ensures
        asks_for(scan, channel) <==> views(scan.alarm.notify_channels@).contains(channel),
{
    let v = views(scan.alarm.notify_channels@);
    if asks_for(scan, channel) {
        let i = choose|i: int|
            0 <= i < scan.alarm.notify_channels@.len() && (
            #[trigger] scan.alarm.notify_channels@[i])@ == channel;
        assert(v[i] == channel);
    }
    if v.contains(channel) {
        let i = choose|i: int| 0 <= i < v.len() && v[i] == channel;
        assert(scan.alarm.notify_channels@[i]@ == channel);
    }
}

/// What every notification of a firing says: its title is the alarm's own or
/// the subject's, and its data name the alarm, the trigger, the alarm's action
/// and the subject.
pub open spec fn is_about(n: NoticeSpec, scan: ScanRow, t: Instant) -> bool {
    &&& n.title == match scan.alarm.summary {
        Some(s) => s@,
        None => scan.summary@,
    }
    &&& n.data.at("alarm_id"@) == Some(Value::Text(id_text(scan.alarm.id)))
    &&& n.data.at("trigger_at"@) == Some(Value::Text(json_instant(t)))
    &&& n.data.at("action"@) == Some(Value::Text(scan.alarm.action@))
    &&& scan.kind == ScanKind::Event ==> n.data.at("event_id"@) == Some(
        Value::Text(id_text(scan.subject_id)),
    )
    &&& scan.kind == ScanKind::Task ==> n.data.at("task_id"@) == Some(
        Value::Text(id_text(scan.subject_id)),
    )
}

proof fn data_keys()
    ensures
        "alarm_id"@ != "trigger_at"@,
        "alarm_id"@ != "action"@,
        "alarm_id"@ != "event_id"@,
        "alarm_id"@ != "task_id"@,
        "trigger_at"@ != "action"@,
        "trigger_at"@ != "event_id"@,
        "trigger_at"@ != "task_id"@,
        "action"@ != "event_id"@,
        "action"@ != "task_id"@,
        "tenant_id"@ != "alarm_id"@,
        "tenant_id"@ != "trigger_at"@,
        "tenant_id"@ != "action"@,
        "tenant_id"@ != "event_id"@,
        "tenant_id"@ != "task_id"@,
        "recipient"@ != "alarm_id"@,
        "recipient"@ != "trigger_at"@,
        "recipient"@ != "action"@,
        "recipient"@ != "event_id"@,
        "recipient"@ != "task_id"@,
        "recipient"@ != "tenant_id"@,
{
    reveal_strlit("alarm_id");
    reveal_strlit("trigger_at");
    reveal_strlit("action");
    reveal_strlit("event_id");
    reveal_strlit("task_id");
    reveal_strlit("tenant_id");
    reveal_strlit("recipient");
    assert("alarm_id"@[0] == 'a' && "event_id"@[0] == 'e' && "tenant_id"@[0] == 't');
    assert("recipient"@[0] == 'r' && "alarm_id"@.len() == 8 && "trigger_at"@.len() == 10);
    assert("action"@.len() == 6 && "event_id"@.len() == 8 && "task_id"@.len() == 7);
    assert("tenant_id"@.len() == 9 && "recipient"@.len() == 9);
}

proof fn subject_data_is_about(scan: ScanRow, t: Instant, tenant: u128, to: Seq<char>)
    ensures
        forall|n: NoticeSpec|
            n.title == reminder_title(scan) && (n.data == subject_value(scan, t) || n.data
                == tenant_value(scan, t, tenant) || n.data == tenant_value(scan, t, tenant).set(
                "recipient"@,
                Value::Text(to),
            )) ==> #[trigger] is_about(n, scan, t),
        tenant_value(scan, t, tenant).set("recipient"@, Value::Text(to)).at("recipient"@) == Some(
            Value::Text(to),
        ),
{
    data_keys();
    assert(subject_key(scan.kind) == "event_id"@ || subject_key(scan.kind) == "task_id"@);
}

/// Every reader of the calendar gets an in-app notification, which says what
/// the alarm says; there are as many of them as there are readers.
pub proof fn every_reader_is_told_in_app(scan: ScanRow, t: Instant, who: Audience, i: int)
    requires
        0 <= i < who.users@.len(),
    ensures
        reminder(scan, t, who).len() >= who.users@.len(),
        ({
            let n = reminder(scan, t, who)[i];
            &&& n.channel == Channel::InApp
            &&& n.user_id == Some(who.users@[i].id)
            &&& is_about(n, scan, t)
            &&& scan.alarm.description matches Some(d) ==> n.body == d@
            &&& scan.alarm.description is None ==> n.body == "Reminder: "@ + scan.summary@
        }),
        who.tenant_id is None ==> reminder(scan, t, who).len() == who.users@.len(),
{
    subject_data_is_about(scan, t, 0, Seq::empty());
    let n = in_app_notices(scan, t, who.users@)[i];
    assert(reminder(scan, t, who)[i] == n);
    assert(is_about(n, scan, t));
}

/// A mail goes to this address.
pub open spec fn mailed(list: Seq<NoticeSpec>, k: int, email: Seq<char>) -> bool {
    &&& 0 <= k < list.len()
    &&& list[k].channel == Channel::Email
    &&& list[k].data.at("recipient"@) matches Some(Value::Text(to)) && unicode_lower(to)
        == unicode_lower(email)
}

/// Some mail goes to this address.
pub open spec fn gets_mail(list: Seq<NoticeSpec>, email: Seq<char>) -> bool {
    exists|k: int| mailed(list, k, email)
}

proof fn an_address_gets_mail(
    scan: ScanRow,
    t: Instant,
    who: Audience,
    email: Seq<char>,
    i: int,
) -> (k: int)
    requires
        who.tenant_id is Some,
        asks_for(scan, "email"@),
        who.email,
        0 <= i < addresses(scan, who).len(),
        addresses(scan, who)[i].1 == email,
    ensures
        mailed(reminder(scan, t, who), k, email),
        is_about(reminder(scan, t, who)[k], scan, t),
{
    let list = addresses(scan, who);
    let to = distinct(list);
    asking_is_naming(scan, "email"@);
    reminder_parts(
        scan,
        t,
        who,
        true,
        views(scan.alarm.notify_channels@).contains("sms"@) && who.sms,
        views(scan.alarm.notify_channels@).contains("push"@) && who.webpush,
    );
    one_mail_per_address(list);
    assert(crate::reminders::listed(list, email));
    assert(crate::reminders::listed(to, email));
    let j = choose|j: int|
        0 <= j < to.len() && unicode_lower((#[trigger] to[j]).1) == unicode_lower(email);
    let k = who.users@.len() + j;
    let n = mail_notice(scan, t, who.tenant_id->0, opt_view(who.public_url), to[j]);
    assert(reminder(scan, t, who)[k] == n);
    subject_data_is_about(scan, t, who.tenant_id->0, to[j].1);
    assert(is_about(n, scan, t));
    k
}

proof fn a_wanting_reader_has_an_address(users: Seq<Principal>, i: int) -> (k: int)
    requires
        0 <= i < users.len(),
        users[i].notify_email,
    ensures
        0 <= k < user_addresses(users).len(),
        user_addresses(users)[k].1 == users[i].email@,
    decreases users.len(),
{
    let head = users.drop_last();
    if i < head.len() {
        assert(head[i] == users[i]);
        let k = a_wanting_reader_has_an_address(head, i);
        k
    } else {
        user_addresses(users).len() - 1
    }
}

/// Where an alarm asks for mail and the tenant can send it, a mail goes to
/// every reader who wants mail, to every attendee with an address, and to
/// every address of the alarm's own list.
pub proof fn mail_reaches_everyone(scan: ScanRow, t: Instant, who: Audience)
    requires
        who.tenant_id is Some,
        asks_for(scan, "email"@),
        who.email,
    ensures
        forall|i: int|
            0 <= i < who.users@.len() && (#[trigger] who.users@[i]).notify_email ==> gets_mail(
                reminder(scan, t, who),
                who.users@[i].email@,
            ),
        forall|i: int|
            0 <= i < who.attendee_emails@.len() ==> gets_mail(
                reminder(scan, t, who),
                (#[trigger] who.attendee_emails@[i])@,
            ),
        forall|i: int|
            0 <= i < scan.alarm.recipient_emails@.len() ==> gets_mail(
                reminder(scan, t, who),
                (#[trigger] scan.alarm.recipient_emails@[i])@,
            ),
{
    let own = user_addresses(who.users@);
    let list = addresses(scan, who);
    assert forall|i: int|
        0 <= i < who.users@.len() && (#[trigger] who.users@[i]).notify_email implies gets_mail(
        reminder(scan, t, who),
        who.users@[i].email@,
    ) by {
        let j = a_wanting_reader_has_an_address(who.users@, i);
        assert(list[j] == own[j]);
        let k = an_address_gets_mail(scan, t, who, who.users@[i].email@, j);
        assert(mailed(reminder(scan, t, who), k, who.users@[i].email@));
    }
    assert forall|i: int| 0 <= i < who.attendee_emails@.len() implies gets_mail(
        reminder(scan, t, who),
        (#[trigger] who.attendee_emails@[i])@,
    ) by {
        assert(list[own.len() + i].1 == who.attendee_emails@[i]@);
        let k = an_address_gets_mail(scan, t, who, who.attendee_emails@[i]@, own.len() + i);
        assert(mailed(reminder(scan, t, who), k, who.attendee_emails@[i]@));
    }
    assert forall|i: int| 0 <= i < scan.alarm.recipient_emails@.len() implies gets_mail(
        reminder(scan, t, who),
        (#[trigger] scan.alarm.recipient_emails@[i])@,
    ) by {
        let j = own.len() + who.attendee_emails@.len() + i;
        assert(list[j].1 == scan.alarm.recipient_emails@[i]@);
        let k = an_address_gets_mail(scan, t, who, scan.alarm.recipient_emails@[i]@, j);
        assert(mailed(reminder(scan, t, who), k, scan.alarm.recipient_emails@[i]@));
    }
}

/// No mail goes to anyone else: each is to a reader who wants mail, to an
/// attendee, or to an address of the alarm's own list.
pub proof fn mail_goes_to_no_one_else(scan: ScanRow, t: Instant, who: Audience, k: int)
    requires
        0 <= k < reminder(scan, t, who).len(),
        reminder(scan, t, who)[k].channel == Channel::Email,
    ensures
        asks_for(scan, "email"@),
        who.email,
        reminder(scan, t, who)[k].body == mail_text(scan, opt_view(who.public_url)),
        reminder(scan, t, who)[k].data.at("recipient"@) matches Some(Value::Text(to)) && {
            ||| exists|i: int|
                0 <= i < who.users@.len() && (#[trigger] who.users@[i]).notify_email
                    && who.users@[i].email@ == to
            ||| exists|i: int|
                0 <= i < who.attendee_emails@.len() && (#[trigger] who.attendee_emails@[i])@ == to
            ||| exists|i: int|
                0 <= i < scan.alarm.recipient_emails@.len() && (
                #[trigger] scan.alarm.recipient_emails@[i])@ == to
        },
{
    asking_is_naming(scan, "email"@);
    crate::reminders::choices_are_respected(scan, t, who, k);
    let channels = views(scan.alarm.notify_channels@);
    let mail = channels.contains("email"@) && who.email;
    let sms = channels.contains("sms"@) && who.sms;
    let push = channels.contains("push"@) && who.webpush;
    let all = reminder(scan, t, who);
    let list = addresses(scan, who);
    let to = distinct(list);
    if who.tenant_id is Some {
        reminder_parts(scan, t, who, mail, sms, push);
        let in_app = in_app_notices(scan, t, who.users@);
        let mails: Seq<NoticeSpec> = if mail {
            mail_notices(scan, t, who.tenant_id->0, opt_view(who.public_url), to)
        } else {
            Seq::empty()
        };
        let texts: Seq<NoticeSpec> = if sms {
            sms_notices(scan, t, who.tenant_id->0, who.phones@)
        } else {
            Seq::empty()
        };
        let j = k - in_app.len();
        if j < 0 {
            assert(all[k] == in_app[k]);
        } else if j < mails.len() {
            assert(all[k] == mails[j]);
            subject_data_is_about(scan, t, who.tenant_id->0, to[j].1);
            let i = distinct_is_part(list, j);
            let own = user_addresses(who.users@);
            if i < own.len() {
                let u = an_address_is_a_readers(who.users@, i);
                assert(who.users@[u].email@ == to[j].1);
            } else if i < own.len() + who.attendee_emails@.len() {
                assert(who.attendee_emails@[i - own.len()]@ == to[j].1);
            } else {
                let r = i - own.len() - who.attendee_emails@.len();
                assert(scan.alarm.recipient_emails@[r]@ == to[j].1);
            }
        } else if j < mails.len() + texts.len() {
            assert(all[k] == texts[j - mails.len()]);
        } else {
            let p = j - mails.len() - texts.len();
            let pushes = push_notices(scan, t, who.tenant_id->0, who.users@);
            assert(all[k] == pushes[p]);
            pushes_are_push(scan, t, who.tenant_id->0, who.users@, p);
        }
    } else {
        assert(all[k] == in_app_notices(scan, t, who.users@)[k]);
    }
}

proof fn pushes_are_push(
    scan: ScanRow,
    t: Instant,
    tenant: u128,
    users: Seq<Principal>,
    p: int,
)
    requires
        0 <= p < push_notices(scan, t, tenant, users).len(),
    ensures
        push_notices(scan, t, tenant, users)[p].channel == Channel::Push,
    decreases users.len(),
{
    let head = users.drop_last();
    if p < push_notices(scan, t, tenant, head).len() {
        pushes_are_push(scan, t, tenant, head, p);
    }
}

proof fn an_address_is_a_readers(users: Seq<Principal>, k: int) -> (i: int)
    requires
        0 <= k < user_addresses(users).len(),
    ensures
        0 <= i < users.len(),
        users[i].notify_email,
        users[i].email@ == user_addresses(users)[k].1,
    decreases users.len(),
{
    let head = users.drop_last();
    if k < user_addresses(head).len() {
        let i = an_address_is_a_readers(head, k);
        assert(head[i] == users[i]);
        i
    } else {
        users.len() - 1
    }
}

/// Where an alarm asks for text messages and the tenant can send them, one
/// goes to every number, and says the title and the subject's time.
pub proof fn text_messages_reach_every_number(
    scan: ScanRow,
    t: Instant,
    who: Audience,
    i: int,
) -> (k: int)
    requires
        who.tenant_id is Some,
        asks_for(scan, "sms"@),
        who.sms,
        0 <= i < who.phones@.len(),
    ensures
        0 <= k < reminder(scan, t, who).len(),
        reminder(scan, t, who)[k].channel == Channel::Sms,
        reminder(scan, t, who)[k].data.at("recipient"@) == Some(Value::Text(who.phones@[i]@)),
        is_about(reminder(scan, t, who)[k], scan, t),
        scan.start matches Some(Moment::Timed(at)) ==> reminder(scan, t, who)[k].body == reminder(
            scan,
            t,
            who,
        )[k].title + " - "@ + words_in(at, opt_view(scan.tzid)),
{
    asking_is_naming(scan, "sms"@);
    let mail = views(scan.alarm.notify_channels@).contains("email"@) && who.email;
    reminder_parts(
        scan,
        t,
        who,
        mail,
        true,
        views(scan.alarm.notify_channels@).contains("push"@) && who.webpush,
    );
    let mails: Seq<NoticeSpec> = if mail {
        mail_notices(
            scan,
            t,
            who.tenant_id->0,
            opt_view(who.public_url),
            distinct(addresses(scan, who)),
        )
    } else {
        Seq::empty()
    };
    let k = who.users@.len() + mails.len() + i;
    let n = sms_notices(scan, t, who.tenant_id->0, who.phones@)[i];
    assert(reminder(scan, t, who)[k] == n);
    subject_data_is_about(scan, t, who.tenant_id->0, who.phones@[i]@);
    assert(is_about(n, scan, t));
    k
}

proof fn a_wanting_reader_is_pushed(
    scan: ScanRow,
    t: Instant,
    tenant: u128,
    users: Seq<Principal>,
    i: int,
) -> (k: int)
    requires
        0 <= i < users.len(),
        users[i].notify_push,
    ensures
        0 <= k < push_notices(scan, t, tenant, users).len(),
        push_notices(scan, t, tenant, users)[k] == push_notice(scan, t, tenant, users[i].id),
    decreases users.len(),
{
    let head = users.drop_last();
    if i < head.len() {
        assert(head[i] == users[i]);
        let k = a_wanting_reader_is_pushed(scan, t, tenant, head, i);
        k
    } else {
        push_notices(scan, t, tenant, users).len() - 1
    }
}

/// Where an alarm asks for push notifications and the tenant can send them,
/// one goes to every reader who wants them.
pub proof fn push_reaches_every_wanting_reader(
    scan: ScanRow,
    t: Instant,
    who: Audience,
    i: int,
) -> (k: int)
    requires
        who.tenant_id is Some,
        asks_for(scan, "push"@),
        who.webpush,
        0 <= i < who.users@.len(),
        who.users@[i].notify_push,
    ensures
        0 <= k < reminder(scan, t, who).len(),
        reminder(scan, t, who)[k].channel == Channel::Push,
        reminder(scan, t, who)[k].user_id == Some(who.users@[i].id),
        scan.alarm.description matches Some(d) ==> reminder(scan, t, who)[k].body == d@,
        scan.alarm.description is None ==> reminder(scan, t, who)[k].body == "Reminder: "@
            + scan.summary@,
        is_about(reminder(scan, t, who)[k], scan, t),
{
    asking_is_naming(scan, "push"@);
    let mail = views(scan.alarm.notify_channels@).contains("email"@) && who.email;
    let sms = views(scan.alarm.notify_channels@).contains("sms"@) && who.sms;
    reminder_parts(scan, t, who, mail, sms, true);
    let mails: Seq<NoticeSpec> = if mail {
        mail_notices(
            scan,
            t,
            who.tenant_id->0,
            opt_view(who.public_url),
            distinct(addresses(scan, who)),
        )
    } else {
        Seq::empty()
    };
    let texts: Seq<NoticeSpec> = if sms {
        sms_notices(scan, t, who.tenant_id->0, who.phones@)
    } else {
        Seq::empty()
    };
    let j = a_wanting_reader_is_pushed(scan, t, who.tenant_id->0, who.users@, i);
    let k = who.users@.len() + mails.len() + texts.len() + j;
    let n = push_notice(scan, t, who.tenant_id->0, who.users@[i].id);
    assert(reminder(scan, t, who)[k] == n);
    subject_data_is_about(scan, t, who.tenant_id->0, Seq::empty());
    assert(is_about(n, scan, t));
    k
}

/// A stored reminder is stale where its alarm is gone, or where the alarm no
/// longer fires at the reminder's time; it is not where the alarm still does.
pub proof fn what_is_stale(live: Seq<LiveAlarm>, row: Pending, k: int)
    requires
        0 <= k < live.len(),
        forall|j: int| k < j < live.len() ==> (#[trigger] live[j]).alarm_id != live[k].alarm_id,
        row.alarm_id == Some(live[k].alarm_id),
    ensures
        row.trigger_at matches Some(at) ==> (is_stale(live, row) <==> forall|j: int|
            0 <= j < live[k].triggers@.len() ==> #[trigger] live[k].triggers@[j] != at),
        row.trigger_at is None ==> !is_stale(live, row),
{
    the_last_live_alarm_counts(live, k);
}

proof fn the_last_live_alarm_counts(live: Seq<LiveAlarm>, k: int)
    requires
        0 <= k < live.len(),
        forall|j: int| k < j < live.len() ==> (#[trigger] live[j]).alarm_id != live[k].alarm_id,
    ensures
        live_alarm(live, live[k].alarm_id) == Some(live[k]),
    decreases live.len(),
{
    if k < live.len() - 1 {
        let head = live.drop_last();
        assert(head[k] == live[k]);
        assert(live.last() == live[live.len() - 1]);
        assert forall|j: int| k < j < head.len() implies (#[trigger] head[j]).alarm_id
            != head[k].alarm_id by {
            assert(head[j] == live[j]);
        }
        the_last_live_alarm_counts(head, k);
    }
}

/// A stored reminder without a live alarm is stale.
pub proof fn without_its_alarm_a_reminder_is_stale(live: Seq<LiveAlarm>, row: Pending)
    requires
        forall|j: int|
            0 <= j < live.len() ==> row.alarm_id != Some((#[trigger] live[j]).alarm_id),
    ensures
        is_stale(live, row),
{
    if let Some(id) = row.alarm_id {
        no_live_alarm(live, id);
    }
}

proof fn no_live_alarm(live: Seq<LiveAlarm>, id: u128)
    requires
        forall|j: int| 0 <= j < live.len() ==> (#[trigger] live[j]).alarm_id != id,
    ensures
        live_alarm(live, id) is None,
    decreases live.len(),
{
    if live.len() > 0 {
        let head = live.drop_last();
        assert(live.last() == live[live.len() - 1]);
        assert forall|j: int| 0 <= j < head.len() implies (#[trigger] head[j]).alarm_id != id by {
            assert(head[j] == live[j]);
        }
        no_live_alarm(head, id);
    }
}

/// Exactly the stale reminders are dropped, each by its own identifier.
pub proof fn stale_reminders_are_dropped(
    live: Seq<LiveAlarm>,
    pending: Seq<Pending>,
    row: Pending,
)
    ensures
        stale_ids(live, Seq::empty()).len() == 0,
        is_stale(live, row) ==> stale_ids(live, pending.push(row)) == stale_ids(live, pending).push(
            row.id,
        ),
        !is_stale(live, row) ==> stale_ids(live, pending.push(row)) == stale_ids(live, pending),
{
    assert(pending.push(row).drop_last() =~= pending);
}

/// What is stored is what was asked for.
pub proof fn notices_are_shown_as_they_are(n: Notice, action: AlarmAction)
    ensures
        n@.user_id == n.user_id,
        n@.channel == n.channel,
        n@.title == n.title@,
        n@.body == n.body@,
        n@.data == n.data@,
        n@.dedupe_key == n.dedupe_key@,
        match action {
            AlarmAction::TaskDue(d) => action@ == (ActionSpec::TaskDue {
                calendar_id: d.calendar_id,
                task_id: d.task_id,
                marker: d.marker@,
                context: d.context@,
            }),
            AlarmAction::Notify(m) => action@ == ActionSpec::Notify(m@),
        },
        Channel::InApp.name_spec() == "in_app"@,
        Channel::Email.name_spec() == "email"@,
        Channel::Sms.name_spec() == "sms"@,
        Channel::Push.name_spec() == "push"@,
{
}

} // verus!
