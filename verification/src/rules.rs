//! Rules: conditions on what happened, and the actions that follow.

use vstd::prelude::*;

use crate::error::{AppError, Failure};
use crate::ids::{id_string, id_text};
use crate::json::{empty_object, id_or_null, json_opt_id, same_json, values, Json, Value};
use crate::text::{
    contains, occurs, opt_view, same, split, split_on, starts_with, string_or, text_or, trim,
    trimmed, views,
};
use crate::time::{now, shown, shown_of, Instant};

verus! {

/// The happenings that rules can be set on.
pub open spec fn trigger_type(s: Seq<char>) -> bool {
    s == "event_created"@
        || s == "event_updated"@
        || s == "event_deleted"@
        || s == "task_created"@
        || s == "task_updated"@
        || s == "task_deleted"@
        || s == "task_completed"@
        || s == "task_due"@
        || s == "journal_created"@
        || s == "journal_updated"@
        || s == "journal_deleted"@
}

/// Refuses a rule on anything that never happens.
pub fn validate_trigger_type(trigger_type: &str) -> (r: Result<(), AppError>)
    ensures
        match r {
            Ok(_) => self::trigger_type(trigger_type@),
            Err(e) => !self::trigger_type(trigger_type@) && e@ == Failure::BadRequest(
                "trigger_type must be one of: event_created, event_updated, event_deleted, \
                task_created, task_updated, task_deleted, task_completed, task_due, \
                journal_created, journal_updated, journal_deleted"@,
            ),
        },
{
    if same(trigger_type, "event_created")
        || same(trigger_type, "event_updated")
        || same(trigger_type, "event_deleted")
        || same(trigger_type, "task_created")
        || same(trigger_type, "task_updated")
        || same(trigger_type, "task_deleted")
        || same(trigger_type, "task_completed")
        || same(trigger_type, "task_due")
        || same(trigger_type, "journal_created")
        || same(trigger_type, "journal_updated")
        || same(trigger_type, "journal_deleted") {
        Ok(())
    } else {
        Err(
            AppError::invalid(
                "trigger_type must be one of: event_created, event_updated, event_deleted, \
                task_created, task_updated, task_deleted, task_completed, task_due, \
                journal_created, journal_updated, journal_deleted",
            ),
        )
    }
}

/// The value at the end of a path of keys.
pub open spec fn walk(value: Value, path: Seq<Seq<char>>) -> Option<Value>
    decreases path.len(),
{
    if path.len() == 0 {
        Some(value)
    } else {
        match value.at(path[0]) {
            Some(next) => walk(next, path.subrange(1, path.len() as int)),
            None => None,
        }
    }
}

/// The value that a path with dots names.
pub open spec fn path_value(context: Value, path: Seq<char>) -> Option<Value> {
    walk(context, split(path, '.'))
}

/// The value that a path with dots names.
pub fn lookup<'a>(context: &'a Json, path: &str) -> (r: Option<&'a Json>)
    ensures
        match r {
            Some(v) => path_value(context@, path@) == Some(v@),
            None => path_value(context@, path@) is None,
        },
{
    let segments = split_on(path, '.');
    let ghost all = split(path@, '.');
    let mut value: &'a Json = context;
    let mut i: usize = 0;
    assert(all.subrange(0, all.len() as int) =~= all);
    assert(all.len() == segments@.len());
    while i < segments.len()
        invariant
            i <= segments@.len(),
            all == split(path@, '.'),
            all == views(segments@),
            all.len() == segments@.len(),
            path_value(context@, path@) == walk(value@, all.subrange(i as int, all.len() as int)),
        decreases segments@.len() - i,
    {
        let ghost rest = all.subrange(i as int, all.len() as int);
        assert(rest[0] == segments@[i as int]@);
        assert(rest.subrange(1, rest.len() as int) =~= all.subrange(i + 1, all.len() as int));
        match value.get(segments[i].as_str()) {
            Some(next) => {
                value = next;
            },
            None => {
                return None;
            },
        }
        i = i + 1;
    }
    Some(value)
}

/// Whether an array holds a value.
pub open spec fn array_holds(items: Seq<Value>, value: Value) -> bool {
    items.contains(value)
}

/// Whether an array holds a value.
fn holds_json(items: &Vec<Json>, value: &Json) -> (r: bool)
    ensures
        r == array_holds(values(items@), value@),
{
    let ghost all = values(items@);
    let mut i: usize = 0;
    while i < items.len()
        invariant
            i <= items@.len(),
            all == values(items@),
            forall|j: int| 0 <= j < i ==> all[j] != value@,
        decreases items@.len() - i,
    {
        if same_json(&items[i], value) {
            assert(all[i as int] == value@);
            return true;
        }
        i = i + 1;
    }
    false
}

/// A text under a key, or the empty text.
pub open spec fn text_field(v: Value, key: Seq<char>) -> Seq<char> {
    match v.text_at(key) {
        Some(s) => s,
        None => Seq::empty(),
    }
}

/// The operand of a condition, null where it names none.
pub open spec fn operand(c: Value) -> Value {
    match c.at("value"@) {
        Some(v) => v,
        None => Value::Null,
    }
}

/// Whether a condition holds of a value that is there. An unknown operation
/// never holds.
pub open spec fn holds_of(op: Seq<char>, actual: Value, value: Value) -> bool {
    if op == "eq"@ {
        actual == value
    } else if op == "ne"@ {
        actual != value
    } else if op == "contains"@ {
        match actual {
            Value::Array(items) => array_holds(items, value),
            Value::Text(s) => value.text() matches Some(v) && occurs(s, v),
            _ => false,
        }
    } else if op == "in"@ {
        value matches Value::Array(options) && array_holds(options, actual)
    } else if op == "exists"@ {
        value != Value::Bool(false)
    } else {
        false
    }
}

/// Whether a condition holds. Of a field that is not there, only its absence
/// can be asserted.
pub open spec fn condition_holds(c: Value, context: Value) -> bool {
    let op = text_field(c, "op"@);
    match path_value(context, text_field(c, "field"@)) {
        Some(actual) => holds_of(op, actual, operand(c)),
        None => op == "exists"@ && operand(c) == Value::Bool(false),
    }
}

/// Whether all conditions hold.
pub open spec fn all_hold(conditions: Seq<Value>, context: Value) -> bool {
    forall|i: int| 0 <= i < conditions.len() ==> condition_holds(#[trigger] conditions[i], context)
}

/// A text under a key, or the empty text.
fn text_field_of(v: &Json, key: &str) -> (r: String)
    ensures
        r@ == text_field(v@, key@),
{
    match v.get_text(key) {
        Some(s) => s.clone(),
        None => String::new(),
    }
}

/// Whether a value is this truth value.
fn is_bool(v: &Json, b: bool) -> (r: bool)
    ensures
        r == (v@ == Value::Bool(b)),
{
    match v {
        Json::Bool(x) => *x == b,
        _ => false,
    }
}

/// Whether a condition holds of a value that is there.
fn check_value(op: &str, actual: &Json, value: &Json) -> (r: bool)
    ensures
        r == holds_of(op@, actual@, value@),
{
    if same(op, "eq") {
        same_json(actual, value)
    } else if same(op, "ne") {
        !same_json(actual, value)
    } else if same(op, "contains") {
        match actual {
            Json::Array(items) => holds_json(items, value),
            Json::Text(s) => match value.as_text() {
                Some(v) => contains(s.as_str(), v.as_str()),
                None => false,
            },
            _ => false,
        }
    } else if same(op, "in") {
        match value {
            Json::Array(options) => holds_json(options, actual),
            _ => false,
        }
    } else if same(op, "exists") {
        !is_bool(value, false)
    } else {
        false
    }
}

/// Whether a condition holds.
fn check_condition(c: &Json, context: &Json) -> (r: bool)
    ensures
        r == condition_holds(c@, context@),
{
    let field = text_field_of(c, "field");
    let op = text_field_of(c, "op");
    let none = Json::Null;
    let value = match c.get("value") {
        Some(v) => v,
        None => &none,
    };
    match lookup(context, field.as_str()) {
        Some(actual) => check_value(op.as_str(), actual, value),
        None => same(op.as_str(), "exists") && is_bool(value, false),
    }
}

/// Whether all conditions of a rule hold.
pub fn conditions_match(conditions: &Vec<Json>, context: &Json) -> (r: bool)
    ensures
        r == all_hold(values(conditions@), context@),
{
    let ghost all = values(conditions@);
    let mut i: usize = 0;
    while i < conditions.len()
        invariant
            i <= conditions@.len(),
            all == values(conditions@),
            forall|j: int| 0 <= j < i ==> condition_holds(#[trigger] all[j], context@),
        decreases conditions@.len() - i,
    {
        if !check_condition(&conditions[i], context) {
            assert(!condition_holds(all[i as int], context@));
            return false;
        }
        i = i + 1;
    }
    true
}

/// A stored rule.
#[derive(Debug)]
pub struct Rule {
    pub id: u128,
    pub conditions: Json,
    pub actions: Json,
}

/// What a rule does.
#[derive(Debug)]
pub enum RuleAction {
    /// A notification to each reader of the calendar.
    Notify { title: Option<String>, body: Option<String>, dedupe_key: String },
    /// A text message; without a number it fails.
    Sms { to: Option<String>, text: String },
    /// A delivery to every webhook that takes rule actions.
    Webhook,
    /// Not an action that can be run; it fails.
    Unknown,
}

/// What a rule does, as a specification value.
pub enum RuleActionSpec {
    Notify { title: Option<Seq<char>>, body: Option<Seq<char>>, dedupe_key: Seq<char> },
    Sms { to: Option<Seq<char>>, text: Seq<char> },
    Webhook,
    Unknown,
}

impl View for RuleAction {
    type V = RuleActionSpec;

    open spec fn view(&self) -> RuleActionSpec {
        match *self {
            RuleAction::Notify { title, body, dedupe_key } => RuleActionSpec::Notify {
                title: opt_view(title),
                body: opt_view(body),
                dedupe_key: dedupe_key@,
            },
            RuleAction::Sms { to, text } => RuleActionSpec::Sms { to: opt_view(to), text: text@ },
            RuleAction::Webhook => RuleActionSpec::Webhook,
            RuleAction::Unknown => RuleActionSpec::Unknown,
        }
    }
}

/// What the actions are, as specification values.
pub open spec fn rule_action_views(v: Seq<RuleAction>) -> Seq<RuleActionSpec> {
    Seq::new(v.len(), |i: int| v[i]@)
}

/// What an entry of a rule's actions does.
pub open spec fn action_of(action: Value, rule: u128, subject: u128) -> RuleActionSpec {
    let kind = text_field(action, "type"@);
    if kind == "create_notification"@ {
        RuleActionSpec::Notify {
            title: action.text_at("title"@),
            body: action.text_at("body"@),
            dedupe_key: "rule:"@ + id_text(rule) + ":"@ + id_text(subject),
        }
    } else if kind == "sms"@ {
        RuleActionSpec::Sms { to: action.text_at("to"@), text: text_field(action, "body"@) }
    } else if kind == "webhook"@ {
        RuleActionSpec::Webhook
    } else {
        RuleActionSpec::Unknown
    }
}

/// A text under a key.
fn opt_text_of(v: &Json, key: &str) -> (r: Option<String>)
    ensures
        opt_view(r) == v@.text_at(key@),
{
    match v.get_text(key) {
        Some(s) => Some(s.clone()),
        None => None,
    }
}

/// What an entry of a rule's actions does.
fn read_action(action: &Json, rule: u128, subject: u128) -> (r: RuleAction)
    ensures
        r@ == action_of(action@, rule, subject),
{
    let kind = text_field_of(action, "type");
    if same(kind.as_str(), "create_notification") {
        let a = id_string(rule);
        let b = id_string(subject);
        RuleAction::Notify {
            title: opt_text_of(action, "title"),
            body: opt_text_of(action, "body"),
            dedupe_key: "rule:".to_owned().concat(a.as_str()).concat(":").concat(b.as_str()),
        }
    } else if same(kind.as_str(), "sms") {
        RuleAction::Sms { to: opt_text_of(action, "to"), text: text_field_of(action, "body") }
    } else if same(kind.as_str(), "webhook") {
        RuleAction::Webhook
    } else {
        RuleAction::Unknown
    }
}

/// Whether a rule applies. Conditions that are not a list hold nothing back.
pub open spec fn rule_applies(rule: Rule, context: Value) -> bool {
    match rule.conditions@ {
        Value::Array(list) => all_hold(list, context),
        _ => true,
    }
}

/// What a rule that applies does, in order.
pub open spec fn rule_actions(rule: Rule, subject: u128) -> Seq<RuleActionSpec> {
    match rule.actions@ {
        Value::Array(list) => Seq::new(list.len(), |i: int| action_of(list[i], rule.id, subject)),
        _ => Seq::empty(),
    }
}

/// A rule that applies, with what it does.
#[derive(Debug)]
pub struct RuleRun {
    pub rule_id: u128,
    pub actions: Vec<RuleAction>,
}

/// A rule that applies, as a specification value.
pub struct RuleRunSpec {
    pub rule_id: u128,
    pub actions: Seq<RuleActionSpec>,
}

impl View for RuleRun {
    type V = RuleRunSpec;

    open spec fn view(&self) -> RuleRunSpec {
        RuleRunSpec { rule_id: self.rule_id, actions: rule_action_views(self.actions@) }
    }
}

/// The rules that apply, as specification values.
pub open spec fn run_views(v: Seq<RuleRun>) -> Seq<RuleRunSpec> {
    Seq::new(v.len(), |i: int| v[i]@)
}

/// The rules that apply to what happened, in order, with what they do.
pub open spec fn runs(rules: Seq<Rule>, context: Value, subject: u128) -> Seq<RuleRunSpec>
    decreases rules.len(),
{
    if rules.len() == 0 {
        Seq::empty()
    } else {
        let lead = runs(rules.drop_last(), context, subject);
        let rule = rules.last();
        if rule_applies(rule, context) {
            lead.push(RuleRunSpec { rule_id: rule.id, actions: rule_actions(rule, subject) })
        } else {
            lead
        }
    }
}

/// Whether a rule applies.
fn applies(rule: &Rule, context: &Json) -> (r: bool)
    ensures
        r == rule_applies(*rule, context@),
{
    match &rule.conditions {
        Json::Array(list) => conditions_match(list, context),
        _ => true,
    }
}

/// What a rule that applies does.
fn actions_of(rule: &Rule, subject: u128) -> (r: Vec<RuleAction>)
    ensures
        rule_action_views(r@) == rule_actions(*rule, subject),
{
    let mut out: Vec<RuleAction> = Vec::new();
    match &rule.actions {
        Json::Array(list) => {
            let mut i: usize = 0;
            while i < list.len()
                invariant
                    i <= list@.len(),
                    out@.len() == i,
                    forall|j: int|
                        0 <= j < i ==> (#[trigger] out@[j])@ == action_of(
                            list@[j]@,
                            rule.id,
                            subject,
                        ),
                decreases list@.len() - i,
            {
                out.push(read_action(&list[i], rule.id, subject));
                i = i + 1;
            }
            assert(rule_action_views(out@) =~= rule_actions(*rule, subject));
        },
        _ => {
            assert(rule_action_views(out@) =~= rule_actions(*rule, subject));
        },
    }
    out
}

/// The rules that apply to what happened, in order, with what they do.
pub fn run_rules(rules: &Vec<Rule>, context: &Json, subject: u128) -> (r: Vec<RuleRun>)
    ensures
        run_views(r@) == runs(rules@, context@, subject),
{
    let mut out: Vec<RuleRun> = Vec::new();
    let mut i: usize = 0;
    assert(run_views(out@) =~= runs(rules@.take(0), context@, subject));
    while i < rules.len()
        invariant
            i <= rules@.len(),
            run_views(out@) == runs(rules@.take(i as int), context@, subject),
        decreases rules@.len() - i,
    {
        let rule = &rules[i];
        assert(rules@.take(i + 1).drop_last() =~= rules@.take(i as int));
        if applies(rule, context) {
            let run = RuleRun { rule_id: rule.id, actions: actions_of(rule, subject) };
            let ghost lead = out@;
            out.push(run);
            assert(run_views(out@) =~= run_views(lead).push(run@));
        }
        i = i + 1;
    }
    assert(rules@.take(rules@.len() as int) =~= rules@);
    out
}

/// Whether all of these went well.
pub open spec fn all_well(list: Seq<bool>) -> bool {
    forall|i: int| 0 <= i < list.len() ==> #[trigger] list[i]
}

/// Whether all of these went well.
fn none_failed(list: &Vec<bool>) -> (r: bool)
    ensures
        r == all_well(list@),
{
    let mut i: usize = 0;
    while i < list.len()
        invariant
            i <= list@.len(),
            forall|j: int| 0 <= j < i ==> #[trigger] list@[j],
        decreases list@.len() - i,
    {
        if !list[i] {
            assert(!list@[i as int]);
            return false;
        }
        i = i + 1;
    }
    true
}

/// Whether notifying went well: there was someone to notify, and every
/// notification was stored.
pub fn notified(stored: &Vec<bool>) -> (r: bool)
    ensures
        r == (stored@.len() > 0 && all_well(stored@)),
{
    stored.len() > 0 && none_failed(stored)
}

/// How an action went. `stored` says of each reader whether the notification
/// to them was stored, `sent` whether the provider took the text message;
/// there is no answer where the tenant has no provider.
pub open spec fn action_went(
    action: RuleActionSpec,
    stored: Seq<bool>,
    sent: Option<bool>,
) -> bool {
    match action {
        RuleActionSpec::Notify { .. } => stored.len() > 0 && all_well(stored),
        RuleActionSpec::Sms { to, .. } => to is Some && sent == Some(true),
        RuleActionSpec::Webhook => true,
        RuleActionSpec::Unknown => false,
    }
}

/// How an action went: notifying needs someone to notify, a text message a
/// number and a provider that takes it; deliveries to webhooks are retried on
/// their own.
pub fn action_result(action: &RuleAction, stored: &Vec<bool>, sent: Option<bool>) -> (r: bool)
    ensures
        r == action_went(action@, stored@, sent),
{
    match action {
        RuleAction::Notify { .. } => notified(stored),
        RuleAction::Sms { to, .. } => to.is_some() && matches!(sent, Some(true)),
        RuleAction::Webhook => true,
        RuleAction::Unknown => false,
    }
}

/// How a run of a rule is recorded: it failed if any of its actions did.
pub fn run_status(results: &Vec<bool>) -> (r: &'static str)
    ensures
        r@ == if all_well(results@) {
            "succeeded"@
        } else {
            "failed"@
        },
{
    if none_failed(results) {
        "succeeded"
    } else {
        "failed"
    }
}

/// What a happening is about.
pub open spec fn subject_kind(trigger: Seq<char>) -> Seq<char> {
    if "task"@.is_prefix_of(trigger) {
        "task"@
    } else if "journal"@.is_prefix_of(trigger) {
        "journal"@
    } else {
        "event"@
    }
}

/// What a happening is about.
pub fn subject_type(trigger: &str) -> (r: &'static str)
    ensures
        r@ == subject_kind(trigger@),
{
    if starts_with(trigger, "task") {
        "task"
    } else if starts_with(trigger, "journal") {
        "journal"
    } else {
        "event"
    }
}

/// What is recorded of a run of a rule.
#[derive(Debug)]
pub struct RuleExecution {
    pub rule_id: u128,
    pub subject_type: &'static str,
    pub subject_id: u128,
    pub status: &'static str,
}

/// What is recorded of a run of a rule on what happened to a subject, from
/// how its actions went.
pub fn rule_execution(run: &RuleRun, trigger: &str, subject: u128, results: &Vec<bool>) -> (r:
    RuleExecution)
    ensures
        r.rule_id == run.rule_id,
        r.subject_type@ == subject_kind(trigger@),
        r.subject_id == subject,
        r.status@ == if all_well(results@) {
            "succeeded"@
        } else {
            "failed"@
        },
{
    RuleExecution {
        rule_id: run.rule_id,
        subject_type: subject_type(trigger),
        subject_id: subject,
        status: run_status(results),
    }
}

/// Refuses a test message without a recipient.
pub fn check_recipient(to: &str) -> (r: Result<(), AppError>)
    ensures
        match r {
            Ok(_) => trim(to@).len() > 0,
            Err(e) => trim(to@).len() == 0 && e@ == Failure::BadRequest("recipient required"@),
        },
{
    if trimmed(to).as_str().is_empty() {
        Err(AppError::invalid("recipient required"))
    } else {
        Ok(())
    }
}

/// Whether a provider's configuration still needs a pair of push keys: it is
/// for push, and holds no private key.
pub fn needs_push_keys(webpush: bool, config: &Json) -> (r: bool)
    ensures
        r == (webpush && config@.at("vapid_private"@) is None),
{
    webpush && config.get("vapid_private").is_none()
}

/// What a test message says where the request does not: when it was sent.
pub open spec fn test_text(now: Instant) -> Seq<char> {
    "Test message sent from CalStack at "@ + shown(now) + "."@
}

/// What a test message says: what the request asks for, else the defaults.
pub fn test_message_at(subject: &Option<String>, body: &Option<String>, now: Instant) -> (r: (
    String,
    String,
))
    requires
        now.wf(),
    ensures
        r.0@ == text_or(opt_view(*subject), "CalStack test message"@),
        r.1@ == text_or(opt_view(*body), test_text(now)),
{
    let clock = shown_of(now);
    let text = "Test message sent from CalStack at ".to_owned().concat(clock.as_str()).concat(".");
    (string_or(subject, "CalStack test message"), string_or(body, text.as_str()))
}

/// What a test message says, by the time on the clock.
pub fn test_message(subject: &Option<String>, body: &Option<String>) -> (r: (String, String))
    ensures
        r.0@ == text_or(opt_view(*subject), "CalStack test message"@),
        exists|now: Instant|
            now.steady() && now.secs >= 0 && r.1@ == text_or(
                opt_view(*body),
                #[trigger] test_text(now),
            ),
{
    let now = now();
    test_message_at(subject, body, now)
}

/// How a test came out. It is answered either way, so that the outcome can be
/// shown.
pub fn outcome_view(outcome: &Result<(), String>) -> (r: Json)
    ensures
        r@ == match *outcome {
            Ok(_) => empty_object().set("ok"@, Value::Bool(true)),
            Err(m) => empty_object().set("ok"@, Value::Bool(false)).set("error"@, Value::Text(m@)),
        },
{
    match outcome {
        Ok(_) => Json::object().with("ok", Json::Bool(true)),
        Err(m) => Json::object().with("ok", Json::Bool(false)).with(
            "error",
            Json::Text(m.clone()),
        ),
    }
}

/// A notification provider, as lists show it: without its configuration.
pub fn provider_view(id: u128, kind: &str, name: &str, enabled: bool) -> (r: Json)
    ensures
        r@ == empty_object()
            .set("id"@, Value::Text(id_text(id)))
            .set("kind"@, Value::Text(kind@))
            .set("name"@, Value::Text(name@))
            .set("enabled"@, Value::Bool(enabled)),
{
    Json::object()
        .with("id", Json::Text(id_string(id)))
        .with("kind", Json::string(kind))
        .with("name", Json::string(name))
        .with("enabled", Json::Bool(enabled))
}

/// A rule, as lists show it.
pub fn rule_view(
    rule: &Rule,
    name: &str,
    enabled: bool,
    trigger_type: &str,
    calendar_id: Option<u128>,
) -> (r: Json)
    ensures
        r@ == empty_object()
            .set("id"@, Value::Text(id_text(rule.id)))
            .set("name"@, Value::Text(name@))
            .set("enabled"@, Value::Bool(enabled))
            .set("trigger_type"@, Value::Text(trigger_type@))
            .set("calendar_id"@, id_or_null(calendar_id))
            .set("conditions"@, rule.conditions@)
            .set("actions"@, rule.actions@),
{
    Json::object()
        .with("id", Json::Text(id_string(rule.id)))
        .with("name", Json::string(name))
        .with("enabled", Json::Bool(enabled))
        .with("trigger_type", Json::string(trigger_type))
        .with("calendar_id", json_opt_id(calendar_id))
        .with("conditions", rule.conditions.copy())
        .with("actions", rule.actions.copy())
}

/// A rule without conditions always applies.
pub proof fn no_conditions_always_apply(rule: Rule, context: Value)
    requires
        match rule.conditions@ {
            Value::Array(list) => list.len() == 0,
            _ => true,
        },
    ensures
        rule_applies(rule, context),
{
}

/// A field that is not there fails every operation but the assertion that it
/// is absent.
pub proof fn absent_field_only_asserts_absence(c: Value, context: Value)
    requires
        path_value(context, text_field(c, "field"@)) is None,
    ensures
        condition_holds(c, context) <==> text_field(c, "op"@) == "exists"@ && operand(c)
            == Value::Bool(false),
{
}

/// A condition without a known operation never holds.
pub proof fn unknown_operation_fails(c: Value, context: Value)
    requires
        text_field(c, "op"@) != "eq"@,
        text_field(c, "op"@) != "ne"@,
        text_field(c, "op"@) != "contains"@,
        text_field(c, "op"@) != "in"@,
        text_field(c, "op"@) != "exists"@,
    ensures
        !condition_holds(c, context),
{
}

/// Of a field that is there, `ne` holds exactly where `eq` does not.
pub proof fn ne_is_not_eq(actual: Value, value: Value)
    ensures
        holds_of("ne"@, actual, value) <==> !holds_of("eq"@, actual, value),
{
    reveal_strlit("eq");
    reveal_strlit("ne");
    assert("eq"@[0] != "ne"@[0]);
}

/// Every rule that applies runs, and no other.
pub proof fn exactly_the_applying_rules_run(rules: Seq<Rule>, context: Value, subject: u128)
    ensures
        forall|run: RuleRunSpec| #[trigger]
            runs(rules, context, subject).contains(run) <==> exists|i: int|
                0 <= i < rules.len() && rule_applies(#[trigger] rules[i], context) && run
                    == (RuleRunSpec {
                    rule_id: rules[i].id,
                    actions: rule_actions(rules[i], subject),
                }),
    decreases rules.len(),
{
    if rules.len() > 0 {
        let head = rules.drop_last();
        let last = rules.len() - 1;
        exactly_the_applying_rules_run(head, context, subject);
        let before = runs(head, context, subject);
        let all = runs(rules, context, subject);
        assert forall|run: RuleRunSpec| #[trigger]
            all.contains(run) <==> exists|i: int|
                0 <= i < rules.len() && rule_applies(#[trigger] rules[i], context) && run
                    == (RuleRunSpec {
                    rule_id: rules[i].id,
                    actions: rule_actions(rules[i], subject),
                }) by {
            if all.contains(run) {
                let k = choose|k: int| 0 <= k < all.len() && all[k] == run;
                if k < before.len() {
                    assert(before[k] == run);
                    assert(before.contains(run));
                    let i = choose|i: int|
                        0 <= i < head.len() && rule_applies(#[trigger] head[i], context) && run
                            == (RuleRunSpec {
                            rule_id: head[i].id,
                            actions: rule_actions(head[i], subject),
                        });
                    assert(rules[i] == head[i]);
                } else {
                    assert(rule_applies(rules[last], context));
                }
            }
            if exists|i: int|
                0 <= i < rules.len() && rule_applies(#[trigger] rules[i], context) && run
                    == (RuleRunSpec {
                    rule_id: rules[i].id,
                    actions: rule_actions(rules[i], subject),
                }) {
                let i = choose|i: int|
                    0 <= i < rules.len() && rule_applies(#[trigger] rules[i], context) && run
                        == (RuleRunSpec {
                        rule_id: rules[i].id,
                        actions: rule_actions(rules[i], subject),
                    });
                if i < last {
                    assert(head[i] == rules[i]);
                    assert(before.contains(run));
                    let k = choose|k: int| 0 <= k < before.len() && before[k] == run;
                    assert(all[k] == run);
                } else {
                    assert(all[all.len() - 1] == run);
                }
            }
        }
    }
}

} // verus!
