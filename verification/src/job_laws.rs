//! What the worker does next and what streams send, said of what is there.

use vstd::prelude::*;

use crate::changes::{
    change_value, change_values, cursor_value, done_event_spec, frame_event_spec, next_step,
    ChangeRow, ChangeStreamSpec, Frame, StreamEvent, StreamStep, StreamStepSpec,
};
use crate::ids::{id_text, id_value};
use crate::jobs::{
    delivery_error, delivery_status, dispatch_of, follow_ups, gives_up, gone_ids, any_accepted,
    missing_jobs, payload_id, retention_sql, setting, webhook_step, DeliveryOutcome, DeliveryStatus,
    Dispatch, DispatchSpec, JobKind, PushReply, QueuedNotice, WebhookStep, WebhookStepSpec,
};
use crate::json::{int_value, Value};
use crate::text::{decimal, integer_text, integer_value, opt_view};
use crate::time::json_instant;

verus! {

/// A scan for alarms and the sending of notifications come again after a
/// minute, a purge after a day, a pass over subscriptions after its interval;
/// a scan asks for what it stored to be sent at once. Mail and deliveries are
/// asked for when there are any.
pub proof fn when_jobs_come_again(kind: JobKind, other: JobKind, interval: i64)
    ensures
        ({
            let next = follow_ups(kind, interval);
            let again = |k: JobKind, secs: i64|
                exists|i: int|
                    0 <= i < next.len() && (#[trigger] next[i]).kind == k && next[i].delay_secs
                        == secs && next[i].required;
            &&& kind == JobKind::AlarmScan ==> again(JobKind::AlarmScan, 60)
            &&& kind == JobKind::NotifySend ==> again(JobKind::NotifySend, 60)
            &&& kind == JobKind::RetentionPurge ==> again(JobKind::RetentionPurge, 86_400)
            &&& kind == JobKind::IcsSync ==> again(JobKind::IcsSync, interval)
            &&& kind == JobKind::ImipSend || kind == JobKind::WebhookSend ==> next.len() == 0
            &&& forall|i: int|
                0 <= i < next.len() && (#[trigger] next[i]).kind != kind ==> kind
                    == JobKind::AlarmScan && next[i].kind == JobKind::NotifySend
                    && next[i].delay_secs == 0 && !next[i].required
            &&& kind == JobKind::AlarmScan ==> exists|i: int|
                0 <= i < next.len() && (#[trigger] next[i]).kind == JobKind::NotifySend
            &&& forall|i: int, j: int|
                0 <= i < j < next.len() ==> (#[trigger] next[i]).kind != (#[trigger] next[j]).kind
        }),
{
    let next = follow_ups(kind, interval);
    if next.len() > 0 {
        assert(next[0].kind == next[0].kind);
    }
    if next.len() > 1 {
        assert(next[1].kind == next[1].kind);
    }
}

/// A recurring job is put into the queue if and only if it is not waiting
/// there.
pub proof fn missing_jobs_are_queued(scan: bool, purge: bool, sync: bool)
    ensures
        missing_jobs(scan, purge, sync).contains(JobKind::AlarmScan) <==> !scan,
        missing_jobs(scan, purge, sync).contains(JobKind::RetentionPurge) <==> !purge,
        missing_jobs(scan, purge, sync).contains(JobKind::IcsSync) <==> !sync,
        missing_jobs(scan, purge, sync).no_duplicates(),
        !missing_jobs(scan, purge, sync).contains(JobKind::NotifySend),
        !missing_jobs(scan, purge, sync).contains(JobKind::ImipSend),
        !missing_jobs(scan, purge, sync).contains(JobKind::WebhookSend),
{
    let all = missing_jobs(scan, purge, sync);
    let a: int = if scan {
        0
    } else {
        1
    };
    let b: int = if purge {
        a
    } else {
        a + 1
    };
    if !scan {
        assert(all[0] == JobKind::AlarmScan);
    }
    if !purge {
        assert(all[a] == JobKind::RetentionPurge);
    }
    if !sync {
        assert(all[b] == JobKind::IcsSync);
    }
}

/// Each kind of job has its name, and each state of a delivery too.
pub proof fn names_of_jobs_and_states()
    ensures
        JobKind::AlarmScan.name_spec() == "alarm_scan"@,
        JobKind::NotifySend.name_spec() == "notify_send"@,
        JobKind::ImipSend.name_spec() == "imip_send"@,
        JobKind::WebhookSend.name_spec() == "webhook_send"@,
        JobKind::IcsSync.name_spec() == "ics_sync"@,
        JobKind::RetentionPurge.name_spec() == "retention_purge"@,
        DeliveryStatus::Succeeded.name_spec() == "succeeded"@,
        DeliveryStatus::Pending.name_spec() == "pending"@,
        DeliveryStatus::Exhausted.name_spec() == "exhausted"@,
        DeliveryStatus::Failed.name_spec() == "failed"@,
{
}

/// A setting is the number that it writes; what writes no number that fits
/// counts as not given.
pub proof fn settings_are_numbers(s: Seq<char>, n: int, default: i64)
    ensures
        setting(None, default) == default,
        integer_value(s) is None ==> setting(Some(s), default) == default,
        integer_value(s) == Some(n) && -0x8000_0000_0000_0000 <= n <= 0x7fff_ffff_ffff_ffff
            ==> setting(Some(s), default) == n,
        integer_value(s) == Some(n) && !(-0x8000_0000_0000_0000 <= n <= 0x7fff_ffff_ffff_ffff)
            ==> setting(Some(s), default) == default,
{
}

/// A delivery succeeded if the target answered with a status of success. It
/// is given up at the fifth attempt, and otherwise tried again.
pub proof fn how_deliveries_go(attempt: i32, http: Option<i32>)
    ensures
        delivery_status(attempt, http) == DeliveryStatus::Succeeded <==> (http matches Some(c)
            && 200 <= c && c <= 299),
        delivery_status(attempt, http) == DeliveryStatus::Exhausted <==> !(http matches Some(c)
            && 200 <= c && c <= 299) && attempt >= 5,
        delivery_status(attempt, http) == DeliveryStatus::Pending <==> !(http matches Some(c)
            && 200 <= c && c <= 299) && attempt < 5,
        gives_up(attempt) <==> attempt >= 5,
{
}

/// What is recorded of an attempt that failed: how long it took, and the
/// status or what the transport said.
pub proof fn what_is_said_of_a_failed_delivery(code: i32, detail: Seq<char>, ms: u64)
    ensures
        200 <= code <= 299 ==> delivery_error(Some(code), Some(detail), ms) is None,
        !(200 <= code <= 299) ==> delivery_error(Some(code), Some(detail), ms) == Some(
            decimal(ms as nat) + "ms: HTTP "@ + integer_text(code as int),
        ) && delivery_error(Some(code), None, ms) == delivery_error(Some(code), Some(detail), ms),
        delivery_error(None, Some(detail), ms) == Some(decimal(ms as nat) + "ms: "@ + detail),
        delivery_error(None, None, ms) == Some(decimal(ms as nat) + "ms: delivery failed"@),
{
}

/// A delivery whose webhook is gone or disabled is recorded as failed, with
/// the reason, without an answer and with one attempt more. Otherwise its
/// event is looked up by the identifier in its payload; without one the job
/// fails.
pub proof fn what_becomes_of_a_delivery(
    attempts: i32,
    enabled: Option<bool>,
    payload: Value,
    text: Seq<char>,
)
    ensures
        enabled != Some(true) ==> (webhook_step(
            attempts,
            enabled,
            payload,
        ) matches WebhookStepSpec::Stop(o) && o.status == DeliveryStatus::Failed && o.response_code
            is None && o.error == Some("webhook disabled or deleted before delivery"@) && o.attempts
            == attempts + 1),
        enabled == Some(true) && payload.at("event_id"@) == Some(Value::Text(text)) ==> (
        match id_value(text) {
            Some(id) => webhook_step(attempts, enabled, payload) matches WebhookStepSpec::Look {
                event_id,
                trigger,
            } && event_id == id && (payload.text_at("trigger"@) matches Some(t) ==> trigger == t)
                && (payload.text_at("trigger"@) is None ==> trigger == "unknown"@),
            None => webhook_step(attempts, enabled, payload) is Fail,
        }),
        enabled == Some(true) && payload.text_at("event_id"@) is None ==> webhook_step(
            attempts,
            enabled,
            payload,
        ) is Fail,
{
}

/// Steps and outcomes are shown as they are.
pub proof fn steps_are_shown_as_they_are(step: WebhookStep, o: DeliveryOutcome, d: Dispatch)
    ensures
        match step {
            WebhookStep::Stop(x) => step@ == WebhookStepSpec::Stop(x@),
            WebhookStep::Fail(e) => step@ == WebhookStepSpec::Fail(e@),
            WebhookStep::Look { event_id, trigger } => step@ == (WebhookStepSpec::Look {
                event_id,
                trigger: trigger@,
            }),
        },
        o@.status == o.status,
        o@.response_code == o.response_code,
        o@.error == opt_view(o.error),
        o@.attempts == o.attempts,
        match d {
            Dispatch::Email { tenant_id, to, subject, body } => d@ == (DispatchSpec::Email {
                tenant_id,
                to: to@,
                subject: subject@,
                body: body@,
            }),
            Dispatch::Sms { tenant_id, to, body } => d@ == (DispatchSpec::Sms {
                tenant_id,
                to: to@,
                body: body@,
            }),
            Dispatch::Push { tenant_id, user_id, title, body } => d@ == (DispatchSpec::Push {
                tenant_id,
                user_id,
                title: title@,
                body: body@,
            }),
            Dispatch::Skip => d@ == DispatchSpec::Skip,
        },
{
}

/// A queued notification goes out by the channel that it names, to the
/// recipient and by the tenant in its data, with its own title and text.
pub proof fn notifications_go_out_by_their_channel(row: QueuedNotice, to: Seq<char>, id: Seq<char>)
    requires
        row.data@.at("recipient"@) == Some(Value::Text(to)),
        row.data@.at("tenant_id"@) == Some(Value::Text(id)),
        id_value(id) is Some,
    ensures
        row.channel@ == "email"@ ==> (dispatch_of(row) matches DispatchSpec::Email {
            tenant_id,
            to: t,
            subject,
            body,
        } && Some(tenant_id) == id_value(id) && t == to && (row.title matches Some(s) ==> subject
            == s@) && (row.title is None ==> subject == "Reminder"@) && (row.body matches Some(s)
            ==> body == s@) && (row.body is None ==> body.len() == 0)),
        row.channel@ == "sms"@ ==> (dispatch_of(row) matches DispatchSpec::Sms {
            tenant_id,
            to: t,
            body,
        } && Some(tenant_id) == id_value(id) && t == to && (row.body matches Some(s) ==> body == s@)
            && (row.body is None ==> body.len() == 0)),
        row.channel@ == "push"@ ==> (dispatch_of(row) matches DispatchSpec::Push {
            tenant_id,
            user_id,
            title,
            body,
        } && Some(tenant_id) == id_value(id) && user_id == row.user_id && (row.title matches Some(s)
            ==> title == s@) && (row.body matches Some(s) ==> body == s@)),
        row.channel@ != "email"@ && row.channel@ != "sms"@ && row.channel@ != "push"@
            ==> dispatch_of(row) is Skip,
{
    reveal_strlit("email");
    reveal_strlit("sms");
    reveal_strlit("push");
    assert("email"@.len() == 5 && "sms"@.len() == 3 && "push"@.len() == 4);
}

/// An identifier is read from the text under its key.
pub proof fn identifiers_are_read_by_key(payload: Value, key: Seq<char>, s: Seq<char>)
    ensures
        payload.at(key) == Some(Value::Text(s)) ==> payload_id(payload, key) == id_value(s),
        payload.text_at(key) is None ==> payload_id(payload, key) is None,
{
}

/// A push went out if a subscription took it; the subscriptions that are gone
/// are dropped, in order.
pub proof fn gone_subscriptions_are_dropped(
    replies: Seq<(u128, PushReply)>,
    id: u128,
    reply: PushReply,
)
    ensures
        gone_ids(Seq::empty()).len() == 0,
        reply == PushReply::Gone ==> gone_ids(replies.push((id, reply))) == gone_ids(replies).push(
            id,
        ),
        reply != PushReply::Gone ==> gone_ids(replies.push((id, reply))) == gone_ids(replies),
        any_accepted(replies.push((id, reply))) <==> any_accepted(replies) || reply
            == PushReply::Accepted,
        !any_accepted(Seq::empty()),
{
    let all = replies.push((id, reply));
    assert(all.drop_last() =~= replies);
    if any_accepted(replies) {
        let i = choose|i: int|
            0 <= i < replies.len() && (#[trigger] replies[i]).1 == PushReply::Accepted;
        assert(all[i].1 == PushReply::Accepted);
    }
    if any_accepted(all) {
        let i = choose|i: int| 0 <= i < all.len() && (#[trigger] all[i]).1 == PushReply::Accepted;
        if i < replies.len() {
            assert(replies[i].1 == PushReply::Accepted);
        }
    }
    if reply == PushReply::Accepted {
        assert(all[replies.len() as int].1 == PushReply::Accepted);
    }
}

/// A purge deletes what was deleted, changed or recorded longer ago than is
/// kept: events, changes and runs of rules by the one setting, the audit log
/// by the other, finished jobs and sessions after a week, notifications that
/// were read after thirty days.
pub proof fn what_a_purge_deletes(days: int, audit_days: int)
    ensures
        ({
            let sql = retention_sql(days, audit_days);
            let d = integer_text(days);
            let end = " days'"@;
            &&& sql.len() == 7
            &&& sql[0] == "DELETE FROM events WHERE deleted_at < now() - interval '"@ + d + end
            &&& sql[1] == "DELETE FROM change_log WHERE changed_at < now() - interval '"@ + d + end
            &&& sql[2] == "DELETE FROM rule_executions WHERE created_at < now() - interval '"@ + d
                + end
            &&& sql[3] == "DELETE FROM audit_log WHERE created_at < now() - interval '"@
                + integer_text(audit_days) + end
            &&& sql[4]
                == "DELETE FROM durable_jobs WHERE (completed_at IS NOT NULL OR failed_at IS NOT NULL) \
                AND COALESCE(completed_at, failed_at) < now() - interval '"@ + integer_text(7) + end
            &&& sql[6]
                == "DELETE FROM notifications WHERE read_at IS NOT NULL AND created_at < now() - interval '"@
                + integer_text(30) + end
            &&& sql[5] == "DELETE FROM sessions WHERE expires_at < now() - interval '"@
                + integer_text(7) + end
        }),
{
    reveal_strlit("DELETE FROM ");
    reveal_strlit(" WHERE ");
    reveal_strlit(" < now() - interval '");
    reveal_strlit("events");
    reveal_strlit("deleted_at");
    reveal_strlit("change_log");
    reveal_strlit("changed_at");
    reveal_strlit("rule_executions");
    reveal_strlit("created_at");
    reveal_strlit("audit_log");
    reveal_strlit("sessions");
    reveal_strlit("expires_at");
    reveal_strlit("DELETE FROM events WHERE deleted_at < now() - interval '");
    reveal_strlit("DELETE FROM change_log WHERE changed_at < now() - interval '");
    reveal_strlit("DELETE FROM rule_executions WHERE created_at < now() - interval '");
    reveal_strlit("DELETE FROM audit_log WHERE created_at < now() - interval '");
    reveal_strlit("DELETE FROM sessions WHERE expires_at < now() - interval '");
    reveal_strlit("durable_jobs");
    reveal_strlit("notifications");
    reveal_strlit("read_at IS NOT NULL AND created_at");
    reveal_strlit(
        "(completed_at IS NOT NULL OR failed_at IS NOT NULL) AND COALESCE(completed_at, failed_at)",
    );
    reveal_strlit(
        "DELETE FROM durable_jobs WHERE (completed_at IS NOT NULL OR failed_at IS NOT NULL) \
        AND COALESCE(completed_at, failed_at) < now() - interval '",
    );
    reveal_strlit(
        "DELETE FROM notifications WHERE read_at IS NOT NULL AND created_at < now() - interval '",
    );
    let mid = " < now() - interval '"@;
    assert("DELETE FROM "@ + "durable_jobs"@ + " WHERE "@
        + "(completed_at IS NOT NULL OR failed_at IS NOT NULL) AND COALESCE(completed_at, failed_at)"@
        + mid
        =~= "DELETE FROM durable_jobs WHERE (completed_at IS NOT NULL OR failed_at IS NOT NULL) \
        AND COALESCE(completed_at, failed_at) < now() - interval '"@);
    assert("DELETE FROM "@ + "notifications"@ + " WHERE "@ + "read_at IS NOT NULL AND created_at"@
        + mid
        =~= "DELETE FROM notifications WHERE read_at IS NOT NULL AND created_at < now() - interval '"@);
    assert("DELETE FROM "@ + "events"@ + " WHERE "@ + "deleted_at"@ + mid
        =~= "DELETE FROM events WHERE deleted_at < now() - interval '"@);
    assert("DELETE FROM "@ + "change_log"@ + " WHERE "@ + "changed_at"@ + mid
        =~= "DELETE FROM change_log WHERE changed_at < now() - interval '"@);
    assert("DELETE FROM "@ + "rule_executions"@ + " WHERE "@ + "created_at"@ + mid
        =~= "DELETE FROM rule_executions WHERE created_at < now() - interval '"@);
    assert("DELETE FROM "@ + "audit_log"@ + " WHERE "@ + "created_at"@ + mid
        =~= "DELETE FROM audit_log WHERE created_at < now() - interval '"@);
    assert("DELETE FROM "@ + "sessions"@ + " WHERE "@ + "expires_at"@ + mid
        =~= "DELETE FROM sessions WHERE expires_at < now() - interval '"@);
}

/// A change is shown with its number, its calendar, its resource, what was
/// done and when; the frames of a stream carry their changes and numbers.
pub proof fn changes_are_shown(row: ChangeRow, rows: Seq<ChangeRow>, seq: i64)
    ensures
        change_value(row).at("seq"@) == Some(int_value(row.seq)),
        change_value(row).at("calendar_id"@) == Some(Value::Text(id_text(row.calendar_id))),
        change_value(row).at("resource_id"@) == Some(Value::Text(id_text(row.resource_id))),
        change_value(row).at("operation"@) == Some(Value::Text(row.operation@)),
        change_value(row).at("changed_at"@) == Some(Value::Text(json_instant(row.changed_at))),
        cursor_value(seq).at("seq"@) == Some(int_value(seq)),
        change_values(rows).len() == rows.len(),
        forall|i: int|
            0 <= i < rows.len() ==> #[trigger] change_values(rows)[i] == change_value(rows[i]),
        frame_event_spec(Frame::Sync(seq)).name == "sync"@,
        frame_event_spec(Frame::Sync(seq)).data == cursor_value(seq),
        frame_event_spec(Frame::Change(row)).name == "change"@,
        frame_event_spec(Frame::Change(row)).data == change_value(row),
        done_event_spec(seq).name == "done"@,
        done_event_spec(seq).data == cursor_value(seq),
{
    reveal_strlit("seq");
    reveal_strlit("calendar_id");
    reveal_strlit("resource_id");
    reveal_strlit("operation");
    reveal_strlit("changed_at");
    assert("seq"@.len() == 3 && "calendar_id"@.len() == 11 && "resource_id"@.len() == 11);
    assert("operation"@.len() == 9 && "changed_at"@.len() == 10);
    assert("calendar_id"@[0] == 'c' && "resource_id"@[0] == 'r');
}

/// A stream sends what waits, first come first served, and counts on from the
/// change that it sent; without anything that waits it looks for more until
/// its time is over, says so once and ends.
pub proof fn what_a_stream_does_next(s: ChangeStreamSpec, now: u64)
    ensures
        ({
            let (step, next) = next_step(s, now);
            &&& s.finished ==> step is End && next == s
            &&& !s.finished && s.pending.len() > 0 ==> step == StreamStepSpec::Emit(
                frame_event_spec(s.pending[0]),
            ) && next.pending == s.pending.skip(1) && (match s.pending[0] {
                Frame::Change(row) => next.since == row.seq,
                Frame::Sync(_) => next.since == s.since,
            }) && next.deadline == s.deadline && !next.finished
            &&& !s.finished && s.pending.len() == 0 && now >= s.deadline ==> step
                == StreamStepSpec::Emit(done_event_spec(s.since)) && next.finished && next.since
                == s.since
            &&& !s.finished && s.pending.len() == 0 && now < s.deadline ==> step is Poll && next
                == s
        }),
{
    if s.pending.len() > 0 {
        assert(s.pending.subrange(1, s.pending.len() as int) =~= s.pending.skip(1));
    }
}

/// What a stream sends is shown as it is.
pub proof fn stream_steps_are_shown_as_they_are(e: StreamEvent, step: StreamStep)
    ensures
        e@.name == e.name@,
        e@.data == e.data@,
        match step {
            StreamStep::End => step@ == StreamStepSpec::End,
            StreamStep::Emit(x) => step@ == StreamStepSpec::Emit(x@),
            StreamStep::Poll => step@ == StreamStepSpec::Poll,
        },
{
}

} // verus!
