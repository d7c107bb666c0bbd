//! Reminders: what is sent to whom when an alarm fires.

use vstd::prelude::*;

use crate::alarms::{ScanKind, ScanRow};
use crate::ids::{id_digit, id_string, id_text, ids_are_told_apart};
use crate::json::{
    empty_object, instant_or_null, json_opt_instant, json_or_null, text_or_null, Json, Value,
};
use crate::text::{holds_text, opt_view, same, to_unicode_lower, unicode_lower, views};
use crate::time::{
    json_instant, json_instant_of, rfc3339, rfc3339_of, words_in, words_in_zone, Instant, Moment,
};

verus! {

/// Someone who reads the calendar, with the choices that reminders respect.
#[derive(Debug)]
pub struct Principal {
    pub id: u128,
    pub email: String,
    pub notify_email: bool,
    pub notify_push: bool,
}

/// Who may be reached about an alarm, and how.
#[derive(Debug)]
pub struct Audience {
    pub users: Vec<Principal>,
    /// The tenant of the calendar, where it is known.
    pub tenant_id: Option<u128>,
    /// Which kinds of provider the tenant has.
    pub email: bool,
    pub sms: bool,
    pub webpush: bool,
    pub attendee_emails: Vec<String>,
    pub phones: Vec<String>,
    /// The address of the web interface.
    pub public_url: Option<String>,
}

/// The way a notification goes out.
#[derive(Clone, Copy, Debug, PartialEq, Eq, Structural)]
pub enum Channel {
    InApp,
    Email,
    Sms,
    Push,
}

impl Channel {
    /// The name that a channel is stored under.
    pub open spec fn name_spec(self) -> Seq<char> {
        match self {
            Channel::InApp => "in_app"@,
            Channel::Email => "email"@,
            Channel::Sms => "sms"@,
            Channel::Push => "push"@,
        }
    }

    /// The name that a channel is stored under.
    pub fn name(self) -> (r: &'static str)
        ensures
            r@ == self.name_spec(),
    {
        match self {
            Channel::InApp => "in_app",
            Channel::Email => "email",
            Channel::Sms => "sms",
            Channel::Push => "push",
        }
    }
}

/// A notification to store. The dedupe key keeps a second scan from storing
/// it again.
#[derive(Debug)]
pub struct Notice {
    pub user_id: Option<u128>,
    pub channel: Channel,
    pub title: String,
    pub body: String,
    pub data: Json,
    pub dedupe_key: String,
}

/// A notification with its texts as characters.
pub struct NoticeSpec {
    pub user_id: Option<u128>,
    pub channel: Channel,
    pub title: Seq<char>,
    pub body: Seq<char>,
    pub data: Value,
    pub dedupe_key: Seq<char>,
}

impl View for Notice {
    type V = NoticeSpec;

    open spec fn view(&self) -> NoticeSpec {
        NoticeSpec {
            user_id: self.user_id,
            channel: self.channel,
            title: self.title@,
            body: self.body@,
            data: self.data@,
            dedupe_key: self.dedupe_key@,
        }
    }
}

/// The notifications with their texts as characters.
pub open spec fn notice_views(v: Seq<Notice>) -> Seq<NoticeSpec> {
    Seq::new(v.len(), |i: int| v[i]@)
}

/// The key that all notifications of one firing share.
pub open spec fn firing_key(alarm: u128, trigger: Instant) -> Seq<char> {
    "alarm:"@ + id_text(alarm) + ":"@ + rfc3339(trigger)
}

/// The key of a reader's in-app reminder of one firing.
pub open spec fn reader_key(alarm: u128, trigger: Instant, user: u128) -> Seq<char> {
    firing_key(alarm, trigger) + ":"@ + id_text(user)
}

/// The title of a reminder: the alarm's own, or else the subject's.
pub open spec fn reminder_title(scan: ScanRow) -> Seq<char> {
    match scan.alarm.summary {
        Some(s) => s@,
        None => scan.summary@,
    }
}

/// The body of a reminder: the alarm's own, or else a mention of the subject.
pub open spec fn reminder_body(scan: ScanRow) -> Seq<char> {
    match scan.alarm.description {
        Some(s) => s@,
        None => "Reminder: "@ + scan.summary@,
    }
}

/// The time that messages give: the subject's start, or a task's due time
/// where it has no start.
pub open spec fn shown_moment(scan: ScanRow) -> Option<Moment> {
    match scan.start {
        Some(m) => Some(m),
        None => if scan.kind == ScanKind::Task {
            scan.end
        } else {
            None
        },
    }
}

/// The subject's time for a reader; an all-day or missing one has none.
pub open spec fn scan_time(scan: ScanRow) -> Option<Seq<char>> {
    match shown_moment(scan) {
        Some(Moment::Timed(at)) => Some(words_in(at, opt_view(scan.tzid))),
        _ => None,
    }
}

/// The time for a message, empty where there is none.
pub open spec fn scan_time_text(scan: ScanRow) -> Seq<char> {
    match scan_time(scan) {
        Some(t) => t,
        None => Seq::empty(),
    }
}

/// The subject's time for a reader.
pub fn format_scan_time(scan: &ScanRow) -> (r: Option<String>)
    requires
        shown_moment(*scan) matches Some(m) ==> m.wf(),
    ensures
        opt_view(r) == scan_time(*scan),
{
    let shown = match scan.start {
        Some(m) => Some(m),
        None => match scan.kind {
            ScanKind::Task => scan.end,
            ScanKind::Event => None,
        },
    };
    match shown {
        Some(Moment::Timed(at)) => Some(words_in_zone(at, &scan.tzid)),
        _ => None,
    }
}

/// Whether a list of names holds a name.
pub open spec fn names(list: Seq<String>, name: Seq<char>) -> bool {
    views(list).contains(name)
}

/// The key of the subject's identifier in a notification's data.
pub open spec fn subject_key(kind: ScanKind) -> Seq<char> {
    match kind {
        ScanKind::Event => "event_id"@,
        ScanKind::Task => "task_id"@,
    }
}

/// The data of a notification: the alarm, its firing and its subject.
pub open spec fn subject_value(scan: ScanRow, trigger: Instant) -> Value {
    empty_object().set("alarm_id"@, Value::Text(id_text(scan.alarm.id))).set(
        "trigger_at"@,
        Value::Text(json_instant(trigger)),
    ).set("action"@, Value::Text(scan.alarm.action@)).set(
        subject_key(scan.kind),
        Value::Text(id_text(scan.subject_id)),
    )
}

/// The data of a notification that a provider of the tenant sends.
pub open spec fn tenant_value(scan: ScanRow, trigger: Instant, tenant: u128) -> Value {
    subject_value(scan, trigger).set("tenant_id"@, Value::Text(id_text(tenant)))
}

/// The data of a notification.
pub fn subject_data(scan: &ScanRow, trigger: Instant) -> (r: Json)
    requires
        trigger.wf(),
    ensures
        r@ == subject_value(*scan, trigger),
{
    let key = match scan.kind {
        ScanKind::Event => "event_id",
        ScanKind::Task => "task_id",
    };
    Json::object().with("alarm_id", Json::Text(id_string(scan.alarm.id))).with(
        "trigger_at",
        Json::Text(json_instant_of(trigger)),
    ).with("action", Json::Text(scan.alarm.action.clone())).with(
        key,
        Json::Text(id_string(scan.subject_id)),
    )
}

/// The in-app notifications of a firing: one for each reader of the calendar.
pub open spec fn in_app_notices(scan: ScanRow, trigger: Instant, users: Seq<Principal>) -> Seq<
    NoticeSpec,
> {
    Seq::new(
        users.len(),
        |i: int|
            NoticeSpec {
                user_id: Some(users[i].id),
                channel: Channel::InApp,
                title: reminder_title(scan),
                body: reminder_body(scan),
                data: subject_value(scan, trigger),
                dedupe_key: reader_key(scan.alarm.id, trigger, users[i].id),
            },
    )
}

/// The readers of the calendar who want mail, with their addresses.
pub open spec fn user_addresses(users: Seq<Principal>) -> Seq<(Option<u128>, Seq<char>)>
    decreases users.len(),
{
    if users.len() == 0 {
        Seq::empty()
    } else {
        let before = user_addresses(users.drop_last());
        let user = users.last();
        if user.notify_email {
            before.push((Some(user.id), user.email@))
        } else {
            before
        }
    }
}

/// Addresses that belong to no user.
pub open spec fn plain_addresses(emails: Seq<String>) -> Seq<(Option<u128>, Seq<char>)> {
    Seq::new(emails.len(), |i: int| (None::<u128>, emails[i]@))
}

/// Everyone to write to, in order: readers, attendees, the alarm's own list.
pub open spec fn addresses(scan: ScanRow, who: Audience) -> Seq<(Option<u128>, Seq<char>)> {
    user_addresses(who.users@) + plain_addresses(who.attendee_emails@) + plain_addresses(
        scan.alarm.recipient_emails@,
    )
}

/// Whether an address stands in the list, case aside.
pub open spec fn listed(list: Seq<(Option<u128>, Seq<char>)>, email: Seq<char>) -> bool {
    exists|i: int|
        0 <= i < list.len() && unicode_lower((#[trigger] list[i]).1) == unicode_lower(email)
}

/// Each address once, case aside; the first stays.
pub open spec fn distinct(list: Seq<(Option<u128>, Seq<char>)>) -> Seq<(Option<u128>, Seq<char>)>
    decreases list.len(),
{
    if list.len() == 0 {
        Seq::empty()
    } else {
        let before = distinct(list.drop_last());
        if listed(list.drop_last(), list.last().1) {
            before
        } else {
            before.push(list.last())
        }
    }
}

/// The text of a reminder mail: title, body and time on lines of their own,
/// then the address of the web interface where there is one.
pub open spec fn mail_text(scan: ScanRow, url: Option<Seq<char>>) -> Seq<char> {
    let text = reminder_title(scan) + "\n"@ + reminder_body(scan) + "\n"@ + scan_time_text(scan);
    match url {
        Some(u) => if u.len() > 0 {
            text + "\n"@ + u
        } else {
            text
        },
        None => text,
    }
}

/// The mail to one address.
pub open spec fn mail_notice(
    scan: ScanRow,
    trigger: Instant,
    tenant: u128,
    url: Option<Seq<char>>,
    to: (Option<u128>, Seq<char>),
) -> NoticeSpec {
    NoticeSpec {
        user_id: to.0,
        channel: Channel::Email,
        title: reminder_title(scan),
        body: mail_text(scan, url),
        data: tenant_value(scan, trigger, tenant).set("recipient"@, Value::Text(to.1)),
        dedupe_key: firing_key(scan.alarm.id, trigger) + ":email:"@ + unicode_lower(to.1),
    }
}

/// The text messages of a firing.
pub open spec fn sms_notices(
    scan: ScanRow,
    trigger: Instant,
    tenant: u128,
    phones: Seq<String>,
) -> Seq<NoticeSpec> {
    Seq::new(
        phones.len(),
        |i: int|
            NoticeSpec {
                user_id: None,
                channel: Channel::Sms,
                title: reminder_title(scan),
                body: reminder_title(scan) + " - "@ + scan_time_text(scan),
                data: tenant_value(scan, trigger, tenant).set(
                    "recipient"@,
                    Value::Text(phones[i]@),
                ),
                dedupe_key: firing_key(scan.alarm.id, trigger) + ":sms:"@ + phones[i]@,
            },
    )
}

/// The push notification to one reader.
pub open spec fn push_notice(
    scan: ScanRow,
    trigger: Instant,
    tenant: u128,
    user: u128,
) -> NoticeSpec {
    NoticeSpec {
        user_id: Some(user),
        channel: Channel::Push,
        title: reminder_title(scan),
        body: reminder_body(scan),
        data: tenant_value(scan, trigger, tenant),
        dedupe_key: firing_key(scan.alarm.id, trigger) + ":push:"@ + id_text(user),
    }
}

/// The push notifications of a firing, to the readers who want them.
pub open spec fn push_notices(
    scan: ScanRow,
    trigger: Instant,
    tenant: u128,
    users: Seq<Principal>,
) -> Seq<NoticeSpec>
    decreases users.len(),
{
    if users.len() == 0 {
        Seq::empty()
    } else {
        let before = push_notices(scan, trigger, tenant, users.drop_last());
        if users.last().notify_push {
            before.push(push_notice(scan, trigger, tenant, users.last().id))
        } else {
            before
        }
    }
}

/// The mails of a firing.
pub open spec fn mail_notices(
    scan: ScanRow,
    trigger: Instant,
    tenant: u128,
    url: Option<Seq<char>>,
    to: Seq<(Option<u128>, Seq<char>)>,
) -> Seq<NoticeSpec> {
    Seq::new(to.len(), |i: int| mail_notice(scan, trigger, tenant, url, to[i]))
}

/// All notifications of a firing. Mail, text messages and push go out where
/// the alarm asks for them and the calendar's tenant has the provider.
pub open spec fn reminder(scan: ScanRow, trigger: Instant, who: Audience) -> Seq<NoticeSpec> {
    let channels = scan.alarm.notify_channels@;
    let in_app = in_app_notices(scan, trigger, who.users@);
    match who.tenant_id {
        None => in_app,
        Some(tenant) => {
            let mail = if names(channels, "email"@) && who.email {
                mail_notices(
                    scan,
                    trigger,
                    tenant,
                    opt_view(who.public_url),
                    distinct(addresses(scan, who)),
                )
            } else {
                Seq::empty()
            };
            let sms = if names(channels, "sms"@) && who.sms {
                sms_notices(scan, trigger, tenant, who.phones@)
            } else {
                Seq::empty()
            };
            let push = if names(channels, "push"@) && who.webpush {
                push_notices(scan, trigger, tenant, who.users@)
            } else {
                Seq::empty()
            };
            in_app + mail + sms + push
        },
    }
}

/// The key that all notifications of one firing share.
pub fn firing_key_of(alarm: u128, trigger: Instant) -> (r: String)
    requires
        trigger.wf(),
    ensures
        r@ == firing_key(alarm, trigger),
{
    let id = id_string(alarm);
    let at = rfc3339_of(trigger);
    "alarm:".to_owned().concat(id.as_str()).concat(":").concat(at.as_str())
}

/// The title of a reminder.
fn reminder_title_of(scan: &ScanRow) -> (r: String)
    ensures
        r@ == reminder_title(*scan),
{
    match &scan.alarm.summary {
        Some(s) => s.clone(),
        None => scan.summary.clone(),
    }
}

/// The body of a reminder.
fn reminder_body_of(scan: &ScanRow) -> (r: String)
    ensures
        r@ == reminder_body(*scan),
{
    match &scan.alarm.description {
        Some(s) => s.clone(),
        None => "Reminder: ".to_owned().concat(scan.summary.as_str()),
    }
}

/// The time for a message, empty where there is none.
fn scan_time_text_of(scan: &ScanRow) -> (r: String)
    requires
        shown_moment(*scan) matches Some(m) ==> m.wf(),
    ensures
        r@ == scan_time_text(*scan),
{
    match format_scan_time(scan) {
        Some(t) => t,
        None => String::new(),
    }
}

/// Adds the in-app notifications of a firing.
fn push_in_app(scan: &ScanRow, trigger: Instant, users: &Vec<Principal>, out: &mut Vec<Notice>)
    requires
        trigger.wf(),
    ensures
        notice_views(final(out)@) == notice_views(old(out)@) + in_app_notices(
            *scan,
            trigger,
            users@,
        ),
{
    let ghost start = out@;
    let ghost all = in_app_notices(*scan, trigger, users@);
    let mut i: usize = 0;
    assert(notice_views(out@) =~= notice_views(start) + all.take(0));
    while i < users.len()
        invariant
            i <= users@.len(),
            trigger.wf(),
            all == in_app_notices(*scan, trigger, users@),
            notice_views(out@) == notice_views(start) + all.take(i as int),
        decreases users@.len() - i,
    {
        let user_id: u128 = users[i].id;
        let id = id_string(user_id);
        let key = firing_key_of(scan.alarm.id, trigger).concat(":").concat(id.as_str());
        let notice = Notice {
            user_id: Some(user_id),
            channel: Channel::InApp,
            title: reminder_title_of(scan),
            body: reminder_body_of(scan),
            data: subject_data(scan, trigger),
            dedupe_key: key,
        };
        assert(notice@ == all[i as int]);
        let ghost before = out@;
        out.push(notice);
        assert(notice_views(out@) =~= notice_views(before).push(all[i as int]));
        assert(all.take(i + 1) =~= all.take(i as int).push(all[i as int]));
        i = i + 1;
    }
    assert(all.take(users@.len() as int) =~= all);
}

/// Addresses with their texts as characters.
pub open spec fn address_views(v: Seq<(Option<u128>, String)>) -> Seq<(Option<u128>, Seq<char>)> {
    Seq::new(v.len(), |i: int| (v[i].0, v[i].1@))
}

/// Adds addresses that belong to no user.
fn push_addresses(emails: &Vec<String>, out: &mut Vec<(Option<u128>, String)>)
    ensures
        address_views(final(out)@) == address_views(old(out)@) + plain_addresses(emails@),
{
    let ghost start = out@;
    let ghost all = plain_addresses(emails@);
    let mut i: usize = 0;
    assert(address_views(out@) =~= address_views(start) + all.take(0));
    while i < emails.len()
        invariant
            i <= emails@.len(),
            all == plain_addresses(emails@),
            address_views(out@) == address_views(start) + all.take(i as int),
        decreases emails@.len() - i,
    {
        let ghost before = out@;
        out.push((None, emails[i].clone()));
        assert(address_views(out@) =~= address_views(before).push(all[i as int]));
        assert(all.take(i + 1) =~= all.take(i as int).push(all[i as int]));
        i = i + 1;
    }
    assert(all.take(emails@.len() as int) =~= all);
}

/// Everyone to write to, in order.
fn addresses_of(scan: &ScanRow, who: &Audience) -> (r: Vec<(Option<u128>, String)>)
    ensures
        address_views(r@) == addresses(*scan, *who),
{
    let mut out: Vec<(Option<u128>, String)> = Vec::new();
    let mut i: usize = 0;
    assert(address_views(out@) =~= user_addresses(who.users@.take(0)));
    while i < who.users.len()
        invariant
            i <= who.users@.len(),
            address_views(out@) == user_addresses(who.users@.take(i as int)),
        decreases who.users@.len() - i,
    {
        let user = &who.users[i];
        let ghost before = out@;
        if user.notify_email {
            out.push((Some(user.id), user.email.clone()));
            assert(address_views(out@) =~= address_views(before).push(
                (Some(user.id), user.email@),
            ));
        }
        assert(who.users@.take(i + 1).drop_last() =~= who.users@.take(i as int));
        i = i + 1;
    }
    assert(who.users@.take(i as int) =~= who.users@);
    push_addresses(&who.attendee_emails, &mut out);
    push_addresses(&scan.alarm.recipient_emails, &mut out);
    out
}

/// Whether one of the first `n` addresses is this one, case aside.
fn listed_before(list: &Vec<(Option<u128>, String)>, n: usize, email: &str) -> (r: bool)
    requires
        n <= list@.len(),
    ensures
        r == listed(address_views(list@).take(n as int), email@),
{
    let key = to_unicode_lower(email);
    let ghost seen = address_views(list@).take(n as int);
    let mut i: usize = 0;
    while i < n
        invariant
            i <= n <= list@.len(),
            key@ == unicode_lower(email@),
            seen == address_views(list@).take(n as int),
            forall|j: int|
                0 <= j < i ==> unicode_lower((#[trigger] seen[j]).1) != unicode_lower(email@),
        decreases n - i,
    {
        let other = to_unicode_lower(list[i].1.as_str());
        if same(other.as_str(), key.as_str()) {
            assert(unicode_lower(seen[i as int].1) == unicode_lower(email@));
            return true;
        }
        i = i + 1;
    }
    false
}

/// Adds the mails of a firing.
fn push_mails(
    scan: &ScanRow,
    trigger: Instant,
    tenant: u128,
    who: &Audience,
    out: &mut Vec<Notice>,
)
    requires
        trigger.wf(),
        shown_moment(*scan) matches Some(m) ==> m.wf(),
    ensures
        notice_views(final(out)@) == notice_views(old(out)@) + mail_notices(
            *scan,
            trigger,
            tenant,
            opt_view(who.public_url),
            distinct(addresses(*scan, *who)),
        ),
{
    let list = addresses_of(scan, who);
    let ghost all = address_views(list@);
    let ghost url = opt_view(who.public_url);
    let ghost start = out@;
    let mut i: usize = 0;
    assert(notice_views(out@) =~= notice_views(start) + mail_notices(
        *scan,
        trigger,
        tenant,
        url,
        distinct(all.take(0)),
    ));
    while i < list.len()
        invariant
            i <= list@.len(),
            trigger.wf(),
            shown_moment(*scan) matches Some(m) ==> m.wf(),
            all == address_views(list@),
            url == opt_view(who.public_url),
            notice_views(out@) == notice_views(start) + mail_notices(
                *scan,
                trigger,
                tenant,
                url,
                distinct(all.take(i as int)),
            ),
        decreases list@.len() - i,
    {
        let email = list[i].1.as_str();
        let ghost next = all.take(i + 1);
        assert(next.drop_last() =~= all.take(i as int));
        assert(next.last() == all[i as int]);
        if !listed_before(&list, i, email) {
            let title = reminder_title_of(scan);
            let body = reminder_body_of(scan);
            let when = scan_time_text_of(scan);
            let mut text = title.clone().concat("\n").concat(body.as_str()).concat("\n").concat(
                when.as_str(),
            );
            if let Some(u) = &who.public_url {
                if !u.as_str().is_empty() {
                    text = text.concat("\n").concat(u.as_str());
                }
            }
            let lower = to_unicode_lower(email);
            let key = firing_key_of(scan.alarm.id, trigger).concat(":email:").concat(
                lower.as_str(),
            );
            let notice = Notice {
                user_id: list[i].0,
                channel: Channel::Email,
                title,
                body: text,
                data: subject_data(scan, trigger).with("tenant_id", Json::Text(id_string(tenant))).with(
                    "recipient",
                    Json::string(email),
                ),
                dedupe_key: key,
            };
            assert(notice@ == mail_notice(*scan, trigger, tenant, url, all[i as int]));
            let ghost before = out@;
            out.push(notice);
            assert(notice_views(out@) =~= notice_views(before).push(notice@));
            assert(mail_notices(*scan, trigger, tenant, url, distinct(next)) =~= mail_notices(
                *scan,
                trigger,
                tenant,
                url,
                distinct(all.take(i as int)),
            ).push(notice@));
        }
        i = i + 1;
    }
    assert(all.take(list@.len() as int) =~= all);
}

/// Adds the text messages of a firing.
fn push_texts(
    scan: &ScanRow,
    trigger: Instant,
    tenant: u128,
    phones: &Vec<String>,
    out: &mut Vec<Notice>,
)
    requires
        trigger.wf(),
        shown_moment(*scan) matches Some(m) ==> m.wf(),
    ensures
        notice_views(final(out)@) == notice_views(old(out)@) + sms_notices(
            *scan,
            trigger,
            tenant,
            phones@,
        ),
{
    let ghost start = out@;
    let ghost all = sms_notices(*scan, trigger, tenant, phones@);
    let mut i: usize = 0;
    assert(notice_views(out@) =~= notice_views(start) + all.take(0));
    while i < phones.len()
        invariant
            i <= phones@.len(),
            trigger.wf(),
            shown_moment(*scan) matches Some(m) ==> m.wf(),
            all == sms_notices(*scan, trigger, tenant, phones@),
            notice_views(out@) == notice_views(start) + all.take(i as int),
        decreases phones@.len() - i,
    {
        let phone = phones[i].as_str();
        let title = reminder_title_of(scan);
        let when = scan_time_text_of(scan);
        let notice = Notice {
            user_id: None,
            channel: Channel::Sms,
            body: title.clone().concat(" - ").concat(when.as_str()),
            title,
            data: subject_data(scan, trigger).with("tenant_id", Json::Text(id_string(tenant))).with(
                "recipient",
                Json::string(phone),
            ),
            dedupe_key: firing_key_of(scan.alarm.id, trigger).concat(":sms:").concat(phone),
        };
        assert(notice@ == all[i as int]);
        let ghost before = out@;
        out.push(notice);
        assert(notice_views(out@) =~= notice_views(before).push(all[i as int]));
        assert(all.take(i + 1) =~= all.take(i as int).push(all[i as int]));
        i = i + 1;
    }
    assert(all.take(phones@.len() as int) =~= all);
}

/// Adds the push notifications of a firing.
fn push_pushes(
    scan: &ScanRow,
    trigger: Instant,
    tenant: u128,
    users: &Vec<Principal>,
    out: &mut Vec<Notice>,
)
    requires
        trigger.wf(),
    ensures
        notice_views(final(out)@) == notice_views(old(out)@) + push_notices(
            *scan,
            trigger,
            tenant,
            users@,
        ),
{
    let ghost start = out@;
    let mut i: usize = 0;
    assert(notice_views(out@) =~= notice_views(start) + push_notices(
        *scan,
        trigger,
        tenant,
        users@.take(0),
    ));
    while i < users.len()
        invariant
            i <= users@.len(),
            trigger.wf(),
            notice_views(out@) == notice_views(start) + push_notices(
                *scan,
                trigger,
                tenant,
                users@.take(i as int),
            ),
        decreases users@.len() - i,
    {
        assert(users@.take(i + 1).drop_last() =~= users@.take(i as int));
        if users[i].notify_push {
            let user_id: u128 = users[i].id;
            let id = id_string(user_id);
            let notice = Notice {
                user_id: Some(user_id),
                channel: Channel::Push,
                title: reminder_title_of(scan),
                body: reminder_body_of(scan),
                data: subject_data(scan, trigger).with("tenant_id", Json::Text(id_string(tenant))),
                dedupe_key: firing_key_of(scan.alarm.id, trigger).concat(":push:").concat(
                    id.as_str(),
                ),
            };
            assert(notice@ == push_notice(*scan, trigger, tenant, user_id));
            let ghost before = out@;
            out.push(notice);
            assert(notice_views(out@) =~= notice_views(before).push(notice@));
        }
        i = i + 1;
    }
    assert(users@.take(users@.len() as int) =~= users@);
}

/// All notifications of a firing, in the order in which they are stored.
pub fn reminder_notices(scan: &ScanRow, trigger: Instant, who: &Audience) -> (r: Vec<Notice>)
    requires
        trigger.wf(),
        shown_moment(*scan) matches Some(m) ==> m.wf(),
    ensures
        notice_views(r@) == reminder(*scan, trigger, *who),
{
    let mut out: Vec<Notice> = Vec::new();
    push_in_app(scan, trigger, &who.users, &mut out);
    assert(notice_views(out@) =~= in_app_notices(*scan, trigger, who.users@));
    match who.tenant_id {
        None => out,
        Some(tenant) => {
            let channels = &scan.alarm.notify_channels;
            if holds_text(channels, "email") && who.email {
                push_mails(scan, trigger, tenant, who, &mut out);
            }
            if holds_text(channels, "sms") && who.sms {
                push_texts(scan, trigger, tenant, &who.phones, &mut out);
            }
            if holds_text(channels, "push") && who.webpush {
                push_pushes(scan, trigger, tenant, &who.users, &mut out);
            }
            assert(notice_views(out@) =~= reminder(*scan, trigger, *who));
            out
        },
    }
}

/// No two mails of a firing go to one address, case aside, and every address
/// on the list gets one.
pub proof fn one_mail_per_address(list: Seq<(Option<u128>, Seq<char>)>)
    ensures
        forall|i: int, j: int|
            0 <= i < j < distinct(list).len() ==> unicode_lower((#[trigger] distinct(list)[i]).1)
                != unicode_lower((#[trigger] distinct(list)[j]).1),
        forall|email: Seq<char>| listed(list, email) <==> #[trigger] listed(distinct(list), email),
    decreases list.len(),
{
    if list.len() > 0 {
        let head = list.drop_last();
        let last = list.last();
        one_mail_per_address(head);
        let kept = distinct(list);
        let before = distinct(head);
        assert forall|email: Seq<char>| listed(list, email) <==> #[trigger] listed(kept, email) by {
            if listed(list, email) {
                let i = choose|i: int|
                    0 <= i < list.len() && unicode_lower((#[trigger] list[i]).1) == unicode_lower(
                        email,
                    );
                if i < head.len() {
                    assert(head[i] == list[i]);
                    assert(listed(head, email));
                    assert(listed(before, email));
                    let k = choose|k: int|
                        0 <= k < before.len() && unicode_lower((#[trigger] before[k]).1)
                            == unicode_lower(email);
                    assert(kept[k] == before[k]);
                } else if listed(head, last.1) {
                    assert(listed(before, last.1));
                    let k = choose|k: int|
                        0 <= k < before.len() && unicode_lower((#[trigger] before[k]).1)
                            == unicode_lower(last.1);
                    assert(kept[k] == before[k]);
                } else {
                    assert(kept[kept.len() - 1] == last);
                }
            }
            if listed(kept, email) {
                let k = choose|k: int|
                    0 <= k < kept.len() && unicode_lower((#[trigger] kept[k]).1) == unicode_lower(
                        email,
                    );
                if k < before.len() {
                    assert(before[k] == kept[k]);
                    assert(listed(before, email));
                    assert(listed(head, email));
                    let i = choose|i: int|
                        0 <= i < head.len() && unicode_lower((#[trigger] head[i]).1)
                            == unicode_lower(email);
                    assert(list[i] == head[i]);
                } else {
                    assert(list[list.len() - 1] == kept[k]);
                }
            }
        }
        assert forall|i: int, j: int| 0 <= i < j < kept.len() implies unicode_lower(
            (#[trigger] kept[i]).1,
        ) != unicode_lower((#[trigger] kept[j]).1) by {
            assert(kept[i] == before[i]);
            if j < before.len() {
                assert(kept[j] == before[j]);
            } else if unicode_lower(kept[i].1) == unicode_lower(kept[j].1) {
                assert(kept[j] == last);
                assert(listed(before, last.1));
                assert(listed(head, last.1));
            }
        }
    }
}

/// Every reader of the calendar gets an in-app notification of every firing,
/// and all in-app notifications of a firing to one reader have one key.
pub proof fn everyone_is_reminded_in_app(scan: ScanRow, trigger: Instant, who: Audience, i: int)
    requires
        0 <= i < who.users@.len(),
    ensures
        reminder(scan, trigger, who).len() > i,
        reminder(scan, trigger, who)[i].channel == Channel::InApp,
        reminder(scan, trigger, who)[i].user_id == Some(who.users@[i].id),
        reminder(scan, trigger, who)[i].dedupe_key == reader_key(
            scan.alarm.id,
            trigger,
            who.users@[i].id,
        ),
{
}

/// No reader's in-app reminder stands in the way of another's: under the keys
/// by which repeated ones are dropped they are different.
pub proof fn readers_are_kept_apart(
    scan: ScanRow,
    trigger: Instant,
    who: Audience,
    i: int,
    j: int,
)
    requires
        0 <= i < who.users@.len(),
        0 <= j < who.users@.len(),
        who.users@[i].id != who.users@[j].id,
    ensures
        reminder(scan, trigger, who)[i].dedupe_key != reminder(scan, trigger, who)[j].dedupe_key,
{
    let a = id_text(who.users@[i].id);
    let b = id_text(who.users@[j].id);
    let lead = firing_key(scan.alarm.id, trigger) + ":"@;
    ids_are_told_apart(who.users@[i].id, who.users@[j].id);
    assert((lead + a).subrange(lead.len() as int, (lead + a).len() as int) =~= a);
    assert((lead + b).subrange(lead.len() as int, (lead + b).len() as int) =~= b);
}

/// The keys of different alarms are different, whenever they fire and
/// whatever follows.
pub proof fn alarms_are_kept_apart(
    a: u128,
    b: u128,
    t: Instant,
    u: Instant,
    x: Seq<char>,
    y: Seq<char>,
)
    requires
        a != b,
    ensures
        firing_key(a, t) + x != firing_key(b, u) + y,
{
    reveal_strlit("alarm:");
    ids_are_told_apart(a, b);
    let k = firing_key(a, t) + x;
    let l = firing_key(b, u) + y;
    assert(k.subrange(6, 42) =~= id_text(a));
    assert(l.subrange(6, 42) =~= id_text(b));
}

/// Whether a notification to a reader is one that the reader wants: in-app
/// ones always, mail and push unless they opted out.
pub open spec fn wanted(users: Seq<Principal>, n: NoticeSpec) -> bool {
    match n.channel {
        Channel::InApp => true,
        Channel::Sms => true,
        Channel::Email => n.user_id matches Some(id) ==> exists|i: int|
            0 <= i < users.len() && (#[trigger] users[i]).id == id && users[i].notify_email,
        Channel::Push => n.user_id matches Some(id) && exists|i: int|
            0 <= i < users.len() && (#[trigger] users[i]).id == id && users[i].notify_push,
    }
}

/// Whether an address of a reader is that of one who wants mail.
spec fn address_wanted(users: Seq<Principal>, a: (Option<u128>, Seq<char>)) -> bool {
    a.0 matches Some(id) ==> exists|i: int|
        0 <= i < users.len() && (#[trigger] users[i]).id == id && users[i].notify_email
}

proof fn user_addresses_wanted(users: Seq<Principal>, n: int, k: int)
    requires
        0 <= n <= users.len(),
        0 <= k < user_addresses(users.take(n)).len(),
    ensures
        address_wanted(users, user_addresses(users.take(n))[k]),
    decreases n,
{
    if n > 0 {
        let head = users.take(n).drop_last();
        assert(head =~= users.take(n - 1));
        let lead = user_addresses(users.take(n - 1));
        if k < lead.len() {
            user_addresses_wanted(users, n - 1, k);
        } else {
            assert(users[n - 1].notify_email);
        }
    }
}

/// Every address that stays was on the list.
pub(crate) proof fn distinct_is_part(list: Seq<(Option<u128>, Seq<char>)>, k: int) -> (i: int)
    requires
        0 <= k < distinct(list).len(),
    ensures
        0 <= i < list.len(),
        distinct(list)[k] == list[i],
    decreases list.len(),
{
    let head = list.drop_last();
    let lead = distinct(head);
    if k < lead.len() {
        let i = distinct_is_part(head, k);
        assert(head[i] == list[i]);
        i
    } else {
        list.len() - 1
    }
}

proof fn pushes_wanted(
    scan: ScanRow,
    trigger: Instant,
    tenant: u128,
    users: Seq<Principal>,
    n: int,
    k: int,
)
    requires
        0 <= n <= users.len(),
        0 <= k < push_notices(scan, trigger, tenant, users.take(n)).len(),
    ensures
        wanted(users, push_notices(scan, trigger, tenant, users.take(n))[k]),
        push_notices(scan, trigger, tenant, users.take(n))[k].channel == Channel::Push,
    decreases n,
{
    if n > 0 {
        assert(users.take(n).drop_last() =~= users.take(n - 1));
        let lead = push_notices(scan, trigger, tenant, users.take(n - 1));
        if k < lead.len() {
            pushes_wanted(scan, trigger, tenant, users, n - 1, k);
        } else {
            assert(users[n - 1].notify_push);
        }
    }
}

/// Nobody who opted out is sent mail or push as a reader of the calendar, and
/// nothing but in-app notifications goes out by a channel that the alarm does
/// not name.
pub proof fn choices_are_respected(scan: ScanRow, trigger: Instant, who: Audience, k: int)
    requires
        0 <= k < reminder(scan, trigger, who).len(),
    ensures
        wanted(who.users@, reminder(scan, trigger, who)[k]),
        reminder(scan, trigger, who)[k].channel == Channel::InApp || names(
            scan.alarm.notify_channels@,
            reminder(scan, trigger, who)[k].channel.name_spec(),
        ),
{
    let users = who.users@;
    let channels = scan.alarm.notify_channels@;
    let in_app = in_app_notices(scan, trigger, users);
    if k >= in_app.len() {
        let tenant = who.tenant_id->0;
        let to = distinct(addresses(scan, who));
        let mail = if names(channels, "email"@) && who.email {
            mail_notices(scan, trigger, tenant, opt_view(who.public_url), to)
        } else {
            Seq::empty()
        };
        let sms = if names(channels, "sms"@) && who.sms {
            sms_notices(scan, trigger, tenant, who.phones@)
        } else {
            Seq::empty()
        };
        let push = if names(channels, "push"@) && who.webpush {
            push_notices(scan, trigger, tenant, users)
        } else {
            Seq::empty()
        };
        let all = reminder(scan, trigger, who);
        assert(all =~= in_app + mail + sms + push);
        let m = k - in_app.len();
        if m < mail.len() {
            assert(all[k] == mail[m]);
            let list = addresses(scan, who);
            let i = distinct_is_part(list, m);
            let own = user_addresses(users);
            if i < own.len() {
                assert(users.take(users.len() as int) =~= users);
                user_addresses_wanted(users, users.len() as int, i);
                assert(list[i] == own[i]);
            } else {
                assert(list[i].0 is None);
            }
        } else if m < mail.len() + sms.len() {
            assert(all[k] == sms[m - mail.len()]);
        } else {
            let p = m - mail.len() - sms.len();
            assert(all[k] == push[p]);
            assert(users.take(users.len() as int) =~= users);
            pushes_wanted(scan, trigger, tenant, users, users.len() as int, p);
        }
    }
}

/// A key with the mark of another channel is no reader's key.
proof fn channel_mark_differs(lead: Seq<char>, mark: Seq<char>, rest: Seq<char>, user: u128)
    requires
        mark.len() > 2,
        mark[2] == 'm' || mark[2] == 'u',
    ensures
        lead + mark + rest != lead + ":"@ + id_text(user),
{
    reveal_strlit(":");
    let n = lead.len() + 2;
    assert((lead + mark + rest)[n as int] == mark[2]);
    assert((lead + ":"@ + id_text(user))[n as int] == id_text(user)[1]);
    assert(id_text(user)[1] == id_digit(user, 1));
}

/// Of the notifications of a firing, those under a reader's key are the in-app
/// ones to that reader, and no others.
pub proof fn reader_key_is_in_app(
    scan: ScanRow,
    trigger: Instant,
    who: Audience,
    k: int,
    user: u128,
)
    requires
        0 <= k < reminder(scan, trigger, who).len(),
    ensures
        reminder(scan, trigger, who)[k].dedupe_key == reader_key(scan.alarm.id, trigger, user)
            <==> (reminder(scan, trigger, who)[k].channel == Channel::InApp && reminder(
            scan,
            trigger,
            who,
        )[k].user_id == Some(user)),
{
    let users = who.users@;
    let channels = scan.alarm.notify_channels@;
    let lead = firing_key(scan.alarm.id, trigger);
    let in_app = in_app_notices(scan, trigger, users);
    let all = reminder(scan, trigger, who);
    if k < in_app.len() {
        assert(all[k] == in_app[k]);
        let a = id_text(users[k].id);
        let b = id_text(user);
        let start = lead + ":"@;
        assert((start + a).subrange(start.len() as int, (start + a).len() as int) =~= a);
        assert((start + b).subrange(start.len() as int, (start + b).len() as int) =~= b);
        if users[k].id != user {
            ids_are_told_apart(users[k].id, user);
        }
    } else {
        reveal_strlit(":email:");
        reveal_strlit(":sms:");
        reveal_strlit(":push:");
        let tenant = who.tenant_id->0;
        let to = distinct(addresses(scan, who));
        let mail = if names(channels, "email"@) && who.email {
            mail_notices(scan, trigger, tenant, opt_view(who.public_url), to)
        } else {
            Seq::empty()
        };
        let sms = if names(channels, "sms"@) && who.sms {
            sms_notices(scan, trigger, tenant, who.phones@)
        } else {
            Seq::empty()
        };
        let push = if names(channels, "push"@) && who.webpush {
            push_notices(scan, trigger, tenant, users)
        } else {
            Seq::empty()
        };
        assert(all =~= in_app + mail + sms + push);
        let m = k - in_app.len();
        if m < mail.len() {
            assert(all[k] == mail[m]);
            channel_mark_differs(lead, ":email:"@, unicode_lower(to[m].1), user);
        } else if m < mail.len() + sms.len() {
            let p = m - mail.len();
            assert(all[k] == sms[p]);
            channel_mark_differs(lead, ":sms:"@, who.phones@[p]@, user);
        } else {
            let p = m - mail.len() - sms.len();
            assert(all[k] == push[p]);
            assert(users.take(users.len() as int) =~= users);
            pushes_wanted(scan, trigger, tenant, users, users.len() as int, p);
            let i = push_is_to_reader(scan, trigger, tenant, users, p);
            channel_mark_differs(lead, ":push:"@, id_text(users[i].id), user);
        }
    }
}

/// Every push notification is the one to some reader.
proof fn push_is_to_reader(
    scan: ScanRow,
    trigger: Instant,
    tenant: u128,
    users: Seq<Principal>,
    k: int,
) -> (i: int)
    requires
        0 <= k < push_notices(scan, trigger, tenant, users).len(),
    ensures
        0 <= i < users.len(),
        push_notices(scan, trigger, tenant, users)[k] == push_notice(
            scan,
            trigger,
            tenant,
            users[i].id,
        ),
    decreases users.len(),
{
    let head = users.drop_last();
    if k < push_notices(scan, trigger, tenant, head).len() {
        push_is_to_reader(scan, trigger, tenant, head, k)
    } else {
        users.len() - 1
    }
}

/// A notification in the application.
#[derive(Debug)]
pub struct NotificationRow {
    pub id: u128,
    pub channel: String,
    pub title: Option<String>,
    pub body: Option<String>,
    pub read_at: Option<Instant>,
}

/// A notification, as its reader sees it.
pub fn notification_view(n: &NotificationRow) -> (r: Json)
    requires
        n.read_at matches Some(at) ==> at.wf(),
    ensures
        r@ == empty_object()
            .set("id"@, Value::Text(id_text(n.id)))
            .set("channel"@, Value::Text(n.channel@))
            .set("title"@, text_or_null(opt_view(n.title)))
            .set("body"@, text_or_null(opt_view(n.body)))
            .set("read_at"@, instant_or_null(n.read_at))
            .set("read"@, Value::Bool(n.read_at is Some)),
{
    Json::object()
        .with("id", Json::Text(id_string(n.id)))
        .with("channel", Json::Text(n.channel.clone()))
        .with("title", json_or_null(&n.title))
        .with("body", json_or_null(&n.body))
        .with("read_at", json_opt_instant(n.read_at))
        .with("read", Json::Bool(n.read_at.is_some()))
}

} // verus!
