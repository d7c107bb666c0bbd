//! When rules run and what they do, said of their conditions and actions.

use vstd::prelude::*;

use crate::ids::id_text;
use crate::json::Value;
use crate::rules::{
    action_of, action_went, all_hold, all_well, condition_holds, holds_of, path_value, rule_actions,
    runs, subject_kind, test_text, trigger_type, walk, Rule, RuleAction,
    RuleActionSpec, RuleRun, RuleRunSpec,
};
use crate::text::{opt_view, split};
use crate::text_laws::{pieces_stand_between_separators, what_occurs_is_a_run};
use crate::time::{shown, Instant};

verus! {

/// A condition that names an operation, a field and an operand.
pub open spec fn is_condition(
    c: Value,
    op: Seq<char>,
    field: Seq<char>,
    operand: Value,
) -> bool {
    &&& c.at("op"@) == Some(Value::Text(op))
    &&& c.at("field"@) == Some(Value::Text(field))
    &&& c.at("value"@) == Some(operand)
}

/// The names of the operations are different.
proof fn operations_differ()
    ensures
        "eq"@ != "ne"@,
        "eq"@ != "contains"@,
        "eq"@ != "in"@,
        "eq"@ != "exists"@,
        "ne"@ != "contains"@,
        "ne"@ != "in"@,
        "ne"@ != "exists"@,
        "contains"@ != "in"@,
        "contains"@ != "exists"@,
        "in"@ != "exists"@,
{
    reveal_strlit("eq");
    reveal_strlit("ne");
    reveal_strlit("contains");
    reveal_strlit("in");
    reveal_strlit("exists");
    assert("eq"@[0] == 'e' && "ne"@[0] == 'n' && "in"@[0] == 'i');
    assert("contains"@.len() == 8 && "exists"@.len() == 6);
    assert("eq"@.len() == 2 && "ne"@.len() == 2 && "in"@.len() == 2);
}

/// Conditions hold together if and only if each of them does.
pub proof fn conditions_hold_together(conditions: Seq<Value>, context: Value)
    ensures
        all_hold(conditions, context) <==> forall|i: int|
            0 <= i < conditions.len() ==> all_hold(#[trigger] seq![conditions[i]], context),
{
    assert forall|i: int| 0 <= i < conditions.len() implies all_hold(
        #[trigger] seq![conditions[i]],
        context,
    ) == condition_holds(conditions[i], context) by {
        let one = seq![conditions[i]];
        assert(one[0] == conditions[i]);
    }
    if forall|i: int| 0 <= i < conditions.len() ==> all_hold(
        #[trigger] seq![conditions[i]],
        context,
    ) {
        assert forall|i: int| 0 <= i < conditions.len() implies condition_holds(
            #[trigger] conditions[i],
            context,
        ) by {
            assert(all_hold(seq![conditions[i]], context));
        }
    }
}

proof fn a_plain_field_is_looked_up(
    c: Value,
    context: Value,
    op: Seq<char>,
    field: Seq<char>,
    operand: Value,
)
    requires
        is_condition(c, op, field, operand),
        !field.contains('.'),
    ensures
        all_hold(seq![c], context) == match context.at(field) {
            Some(actual) => holds_of(op, actual, operand),
            None => op == "exists"@ && operand == Value::Bool(false),
        },
{
    pieces_stand_between_separators(field, '.', Seq::empty());
    let path = split(field, '.');
    assert(path[0] == field);
    assert(path.subrange(1, path.len() as int) =~= Seq::<Seq<char>>::empty());
    reveal_with_fuel(walk, 2);
    assert(path_value(context, field) == context.at(field));
    assert(seq![c][0] == c);
}

/// `eq` holds of a field that has the value, `ne` of one that has another.
pub proof fn equality_compares_values(
    c: Value,
    context: Value,
    field: Seq<char>,
    operand: Value,
    actual: Value,
)
    requires
        !field.contains('.'),
        context.at(field) == Some(actual),
    ensures
        is_condition(c, "eq"@, field, operand) ==> (all_hold(seq![c], context) <==> actual
            == operand),
        is_condition(c, "ne"@, field, operand) ==> (all_hold(seq![c], context) <==> actual
            != operand),
{
    operations_differ();
    if is_condition(c, "eq"@, field, operand) {
        a_plain_field_is_looked_up(c, context, "eq"@, field, operand);
    }
    if is_condition(c, "ne"@, field, operand) {
        a_plain_field_is_looked_up(c, context, "ne"@, field, operand);
    }
}

/// `contains` holds of a text if and only if the operand is a text that
/// stands in it as a run of characters.
pub proof fn contains_finds_a_run_of_text(
    c: Value,
    context: Value,
    field: Seq<char>,
    operand: Value,
    s: Seq<char>,
)
    requires
        !field.contains('.'),
        is_condition(c, "contains"@, field, operand),
        context.at(field) == Some(Value::Text(s)),
    ensures
        operand matches Value::Text(v) ==> (all_hold(seq![c], context) <==> exists|i: int|
            0 <= i && i + v.len() <= s.len() && #[trigger] s.subrange(i, i + v.len()) == v),
        !(operand is Text) ==> !all_hold(seq![c], context),
{
    operations_differ();
    a_plain_field_is_looked_up(c, context, "contains"@, field, operand);
    if let Value::Text(v) = operand {
        what_occurs_is_a_run(s, v);
    }
}

/// `contains` holds of a list if and only if the operand is one of its items,
/// and of nothing that is neither a list nor a text.
pub proof fn contains_finds_an_item(
    c: Value,
    context: Value,
    field: Seq<char>,
    operand: Value,
    actual: Value,
)
    requires
        !field.contains('.'),
        is_condition(c, "contains"@, field, operand),
        context.at(field) == Some(actual),
    ensures
        actual matches Value::Array(items) ==> (all_hold(seq![c], context) <==> exists|i: int|
            0 <= i < items.len() && #[trigger] items[i] == operand),
        !(actual is Array) && !(actual is Text) ==> !all_hold(seq![c], context),
{
    operations_differ();
    a_plain_field_is_looked_up(c, context, "contains"@, field, operand);
}

/// `in` holds if and only if the operand is a list that has the field's value
/// among its items.
pub proof fn in_finds_the_value_among_options(
    c: Value,
    context: Value,
    field: Seq<char>,
    operand: Value,
    actual: Value,
)
    requires
        !field.contains('.'),
        is_condition(c, "in"@, field, operand),
        context.at(field) == Some(actual),
    ensures
        operand matches Value::Array(options) ==> (all_hold(seq![c], context) <==> exists|i: int|
            0 <= i < options.len() && #[trigger] options[i] == actual),
        !(operand is Array) ==> !all_hold(seq![c], context),
{
    operations_differ();
    a_plain_field_is_looked_up(c, context, "in"@, field, operand);
}

/// `exists` asks whether a field is there, or with `false` whether it is not.
/// Of a field that is not there nothing else can be asserted, and no other
/// operation holds of anything.
pub proof fn exists_asks_for_presence(
    c: Value,
    context: Value,
    op: Seq<char>,
    field: Seq<char>,
    operand: Value,
)
    requires
        !field.contains('.'),
        is_condition(c, op, field, operand),
    ensures
        op == "exists"@ ==> (all_hold(seq![c], context) <==> (context.at(field) is Some) != (operand
            == Value::Bool(false))),
        op != "exists"@ && context.at(field) is None ==> !all_hold(seq![c], context),
        op != "exists"@ && op != "eq"@ && op != "ne"@ && op != "contains"@ && op != "in"@
            ==> !all_hold(seq![c], context),
{
    operations_differ();
    a_plain_field_is_looked_up(c, context, op, field, operand);
}

/// A condition without an operand is one with the operand null.
pub proof fn a_missing_operand_is_null(
    c: Value,
    bare: Value,
    context: Value,
    op: Seq<char>,
    field: Seq<char>,
)
    requires
        is_condition(c, op, field, Value::Null),
        bare.at("op"@) == Some(Value::Text(op)),
        bare.at("field"@) == Some(Value::Text(field)),
        bare.at("value"@) is None,
    ensures
        all_hold(seq![bare], context) == all_hold(seq![c], context),
{
    assert(seq![c][0] == c);
    assert(seq![bare][0] == bare);
}

/// A path with a dot leads into the object under what stands before the dot;
/// where there is none, the field is not there.
pub proof fn a_path_leads_into_objects(
    c: Value,
    inner: Value,
    context: Value,
    op: Seq<char>,
    key: Seq<char>,
    rest: Seq<char>,
    operand: Value,
)
    requires
        !key.contains('.'),
        is_condition(c, op, key + seq!['.'] + rest, operand),
        is_condition(inner, op, rest, operand),
    ensures
        context.at(key) matches Some(next) ==> all_hold(seq![c], context) == all_hold(
            seq![inner],
            next,
        ),
        context.at(key) is None ==> all_hold(seq![c], context) == (op == "exists"@ && operand
            == Value::Bool(false)),
{
    pieces_stand_between_separators(key, '.', rest);
    let path = split(key + seq!['.'] + rest, '.');
    assert(path[0] == key);
    assert(path.subrange(1, path.len() as int) =~= split(rest, '.'));
    assert(seq![c][0] == c);
    assert(seq![inner][0] == inner);
}

/// A rule more runs behind the others if its conditions hold, and not
/// otherwise. Conditions that are no list hold nothing back.
pub proof fn a_rule_runs_if_its_conditions_hold(
    rules: Seq<Rule>,
    rule: Rule,
    context: Value,
    subject: u128,
)
    ensures
        runs(Seq::empty(), context, subject).len() == 0,
        ({
            let before = runs(rules, context, subject);
            let after = runs(rules.push(rule), context, subject);
            let holds = rule.conditions@ matches Value::Array(list) ==> all_hold(list, context);
            &&& !holds ==> after == before
            &&& holds ==> after.len() == before.len() + 1 && after.take(before.len() as int)
                == before && after.last().rule_id == rule.id
        }),
{
    let all = rules.push(rule);
    assert(all.drop_last() =~= rules);
    let before = runs(rules, context, subject);
    let after = runs(all, context, subject);
    if after.len() > before.len() {
        assert(after.take(before.len() as int) =~= before);
    }
}

/// What an action does follows from its type, and what it says from its
/// fields.
pub open spec fn follows_its_type(
    done: RuleActionSpec,
    action: Value,
    rule: u128,
    subject: u128,
) -> bool {
    let kind = action.text_at("type"@);
    match done {
        RuleActionSpec::Notify { title, body, dedupe_key } => {
            &&& kind == Some("create_notification"@)
            &&& title == action.text_at("title"@)
            &&& body == action.text_at("body"@)
            &&& dedupe_key == "rule:"@ + id_text(rule) + ":"@ + id_text(subject)
        },
        RuleActionSpec::Sms { to, text } => {
            &&& kind == Some("sms"@)
            &&& to == action.text_at("to"@)
            &&& match action.text_at("body"@) {
                Some(b) => text == b,
                None => text.len() == 0,
            }
        },
        RuleActionSpec::Webhook => kind == Some("webhook"@),
        RuleActionSpec::Unknown => kind != Some("create_notification"@) && kind != Some("sms"@)
            && kind != Some("webhook"@),
    }
}

proof fn an_action_follows_its_type(action: Value, rule: u128, subject: u128)
    ensures
        follows_its_type(action_of(action, rule, subject), action, rule, subject),
{
    reveal_strlit("create_notification");
    reveal_strlit("sms");
    reveal_strlit("webhook");
    assert("create_notification"@.len() == 19 && "sms"@.len() == 3 && "webhook"@.len() == 7);
}

/// A rule that runs does each of its actions once, in order. Actions that are
/// no list do nothing.
pub proof fn a_run_does_each_action(rule: Rule, context: Value, subject: u128)
    requires
        rule.conditions@ matches Value::Array(list) ==> all_hold(list, context),
    ensures
        runs(seq![rule], context, subject).len() == 1,
        match rule.actions@ {
            Value::Array(list) => {
                let done = runs(seq![rule], context, subject)[0].actions;
                done.len() == list.len() && forall|i: int|
                    0 <= i < list.len() ==> follows_its_type(
                        #[trigger] done[i],
                        list[i],
                        rule.id,
                        subject,
                    )
            },
            _ => runs(seq![rule], context, subject)[0].actions.len() == 0,
        },
{
    let one = seq![rule];
    assert(one.drop_last() =~= Seq::<Rule>::empty());
    let lead = runs(Seq::<Rule>::empty(), context, subject);
    assert(lead.len() == 0);
    assert(one.last() == rule);
    let all = runs(one, context, subject);
    assert(all == lead.push(
        RuleRunSpec { rule_id: rule.id, actions: rule_actions(rule, subject) },
    ));
    let done = all[0].actions;
    assert(done == rule_actions(rule, subject));
    if let Value::Array(list) = rule.actions@ {
        assert forall|i: int| 0 <= i < list.len() implies follows_its_type(
            #[trigger] done[i],
            list[i],
            rule.id,
            subject,
        ) by {
            an_action_follows_its_type(list[i], rule.id, subject);
        }
    }
}

/// A run is shown as it is.
pub proof fn runs_are_shown_as_they_are(run: RuleRun, action: RuleAction)
    ensures
        run@.rule_id == run.rule_id,
        run@.actions.len() == run.actions@.len(),
        forall|i: int|
            0 <= i < run.actions@.len() ==> #[trigger] run@.actions[i] == run.actions@[i]@,
        match action {
            RuleAction::Notify { title, body, dedupe_key } => action@ == (RuleActionSpec::Notify {
                title: opt_view(title),
                body: opt_view(body),
                dedupe_key: dedupe_key@,
            }),
            RuleAction::Sms { to, text } => action@ == (RuleActionSpec::Sms {
                to: opt_view(to),
                text: text@,
            }),
            RuleAction::Webhook => action@ == RuleActionSpec::Webhook,
            RuleAction::Unknown => action@ == RuleActionSpec::Unknown,
        },
{
}

/// A notification went well if someone was notified and no one was missed; a
/// text message if it had a number and was taken.
pub proof fn how_an_action_goes(
    title: Option<Seq<char>>,
    body: Option<Seq<char>>,
    key: Seq<char>,
    to: Option<Seq<char>>,
    text: Seq<char>,
    stored: Seq<bool>,
    sent: Option<bool>,
)
    ensures
        action_went(RuleActionSpec::Notify { title, body, dedupe_key: key }, stored, sent) <==> (
        stored.len() > 0 && forall|i: int| 0 <= i < stored.len() ==> #[trigger] stored[i]),
        action_went(RuleActionSpec::Sms { to, text }, stored, sent) <==> (to is Some && sent
            == Some(true)),
        action_went(RuleActionSpec::Webhook, stored, sent),
        !action_went(RuleActionSpec::Unknown, stored, sent),
        all_well(stored) <==> forall|i: int| 0 <= i < stored.len() ==> #[trigger] stored[i],
{
}

/// What happens to events, tasks and journals is told apart by how it is
/// named.
pub proof fn happenings_are_of_their_kind(rest: Seq<char>, other: Seq<char>)
    ensures
        subject_kind("task"@ + rest) == "task"@,
        subject_kind("journal"@ + rest) == "journal"@,
        !(other.len() >= 4 && other.take(4) == "task"@) && !(other.len() >= 7 && other.take(7)
            == "journal"@) ==> subject_kind(other) == "event"@,
{
    reveal_strlit("task");
    reveal_strlit("journal");
    let t = "task"@ + rest;
    let j = "journal"@ + rest;
    assert(t.subrange(0, 4) =~= "task"@);
    assert(j.subrange(0, 7) =~= "journal"@);
    assert(j[0] == 'j');
    assert(!"task"@.is_prefix_of(j)) by {
        if "task"@.is_prefix_of(j) {
            assert(j.subrange(0, 4)[0] == 'j');
        }
    }
    if other.len() >= 4 {
        assert(other.subrange(0, 4) =~= other.take(4));
    }
    if other.len() >= 7 {
        assert(other.subrange(0, 7) =~= other.take(7));
    }
}

/// The text of a test message holds the time at which it was sent.
pub proof fn a_test_message_tells_the_time(now: Instant)
    ensures
        test_text(now) == "Test message sent from CalStack at "@ + shown(now) + "."@,
{
}

/// Rules react to what happens to events, tasks and journals, and to nothing
/// else.
pub proof fn what_rules_react_to(s: Seq<char>)
    ensures
        trigger_type(s) <==> seq![
            "event_created"@,
            "event_updated"@,
            "event_deleted"@,
            "task_created"@,
            "task_updated"@,
            "task_deleted"@,
            "task_completed"@,
            "task_due"@,
            "journal_created"@,
            "journal_updated"@,
            "journal_deleted"@,
        ].contains(s),
{
    let all = seq![
        "event_created"@,
        "event_updated"@,
        "event_deleted"@,
        "task_created"@,
        "task_updated"@,
        "task_deleted"@,
        "task_completed"@,
        "task_due"@,
        "journal_created"@,
        "journal_updated"@,
        "journal_deleted"@,
    ];
    if trigger_type(s) {
        assert(all[0] == s || all[1] == s || all[2] == s || all[3] == s || all[4] == s || all[5]
            == s || all[6] == s || all[7] == s || all[8] == s || all[9] == s || all[10] == s);
    }
}

} // verus!
