//! What calendars take in, said of sources, files and the items that are
//! there already.

use vstd::prelude::*;

use crate::calendars::{
    blocked_kinds, component_set, live_count, outcome_of, rejected_value, rejections,
     skipped_count, source_fault, stored_count, unknown_capability, AclEntryBody,
    KindCount, SeriesOutcome,
};
use crate::json::Value;
use crate::series::{
    all_series, master_of, members_keep_their_role, one_series_per_uid, overrides_of, uids,
    with_master, Member, Series,
};
use crate::subscriptions::{
    first_blocked, sync_step, Address, Resolved, SyncAction, SyncActionSpec, SyncEvent,
};
use crate::text::{integer_text, opt_view, views};
use crate::url::{url_parts, web_scheme, UrlParts, UrlSpec};

verus! {

/// An address inside a network: private, loopback, link-local or of no one
/// host.
pub open spec fn inside_a_network(ip: Address) -> bool {
    match ip {
        Address::V4(a, b, c, d) => {
            let n = a as int * 0x100_0000 + b as int * 0x1_0000 + c as int * 0x100 + d as int;
            ||| 0x0a00_0000 <= n <= 0x0aff_ffff
            ||| 0xac10_0000 <= n <= 0xac1f_ffff
            ||| 0xc0a8_0000 <= n <= 0xc0a8_ffff
            ||| 0x7f00_0000 <= n <= 0x7fff_ffff
            ||| 0xa9fe_0000 <= n <= 0xa9fe_ffff
            ||| n == 0
            ||| n == 0xffff_ffff
        },
        Address::V6(a, b, c, d, e, f, g, h) => {
            ||| a as int + b as int + c as int + d as int + e as int + f as int + g as int
                + h as int <= 1 && h as int >= a as int + b as int + c as int + d as int + e as int
                + f as int + g as int
            ||| 0xfc00 <= a && a <= 0xfdff
            ||| 0xfe80 <= a && a <= 0xfebf
        },
    }
}

proof fn blocked_means_inside(addrs: Seq<Resolved>)
    ensures
        first_blocked(addrs) is None <==> forall|i: int|
            0 <= i < addrs.len() ==> !inside_a_network((#[trigger] addrs[i]).address),
    decreases addrs.len(),
{
    if addrs.len() > 0 {
        let rest = addrs.subrange(1, addrs.len() as int);
        blocked_means_inside(rest);
        if forall|i: int| 0 <= i < rest.len() ==> !inside_a_network((#[trigger] rest[i]).address) {
            assert forall|i: int| 1 <= i < addrs.len() implies !inside_a_network(
                (#[trigger] addrs[i]).address,
            ) by {
                assert(rest[i - 1] == addrs[i]);
            }
        }
        if forall|i: int| 0 <= i < addrs.len() ==> !inside_a_network(
            (#[trigger] addrs[i]).address,
        ) {
            assert forall|i: int| 0 <= i < rest.len() implies !inside_a_network(
                (#[trigger] rest[i]).address,
            ) by {
                assert(rest[i] == addrs[i + 1]);
            }
        }
    }
}

/// A source is asked if and only if its host has an address and none of its
/// addresses lies inside a network; otherwise the pass fails.
pub proof fn only_public_hosts_are_asked(host: String, addrs: Vec<Resolved>, cap: i64)
    ensures
        ({
            let next = sync_step(SyncEvent::Resolved { host, addrs }, cap);
            &&& next is Fetch || next is Fail
            &&& next is Fetch <==> addrs@.len() > 0 && forall|i: int|
                0 <= i < addrs@.len() ==> !inside_a_network((#[trigger] addrs@[i]).address)
        }),
{
    blocked_means_inside(addrs@);
}

/// A pass begins with the host that the source's address names, at its port
/// or at port 80; a source that is no web address with a host fails.
pub proof fn a_pass_begins_with_the_source(source: Option<String>, s: Seq<char>, cap: i64)
    requires
        s == match source {
            Some(t) => t@,
            None => Seq::empty(),
        },
    ensures
        match sync_step(SyncEvent::Start(source), cap) {
            SyncActionSpec::Resolve { host, port } => url_parts(s) matches Some(url) && (url.scheme
                == "http"@ || url.scheme == "https"@) && url.host == Some(host) && (match url.port {
                Some(p) => port == p,
                None => port == 80,
            }),
            SyncActionSpec::Fail(_) => !(url_parts(s) matches Some(url) && (url.scheme == "http"@
                || url.scheme == "https"@) && url.host is Some),
            _ => false,
        },
{
}

/// An unchanged source is noted; an answer that is no success, and a body
/// that is announced or received over the cap, fail; anything else is read
/// and parsed.
pub proof fn answers_are_judged(
    status: u16,
    status_text: String,
    announced: Option<u64>,
    len: u64,
    cap: i64,
)
    ensures
        ({
            let next = sync_step(SyncEvent::Answered { status, status_text, announced }, cap);
            &&& next is NotePass <==> status == 304
            &&& next is ReadBody <==> 200 <= status && status <= 299 && (announced matches Some(n)
                ==> n <= cap)
            &&& !(next is NotePass) && !(next is ReadBody) ==> next is Fail
        }),
        sync_step(SyncEvent::Received(len), cap) is Parse <==> len <= cap,
        sync_step(SyncEvent::Received(len), cap) is Parse || sync_step(
            SyncEvent::Received(len),
            cap,
        ) is Fail,
{
}

/// What was parsed is stored: each UID whose master was fetched, with the
/// last component of that UID that is no override as its master and with all
/// its overrides in order; every UID that was fetched is known as fetched.
pub proof fn what_was_parsed_is_stored(members: Vec<Member>, cap: i64, uid: Seq<char>)
    ensures
        sync_step(SyncEvent::Parsed(Ok(members)), cap) matches SyncActionSpec::Store {
            series,
            fetched,
        } && {
            &&& fetched.no_duplicates()
            &&& fetched.contains(uid) <==> exists|i: int|
                0 <= i < members@.len() && (#[trigger] members@[i]).uid@ == uid
            &&& forall|k: int|
                0 <= k < series.len() ==> ((#[trigger] series[k]).master matches Some(m) && 0 <= m
                    < members@.len() && members@[m].uid@ == series[k].uid
                    && !members@[m].is_override && forall|j: int|
                    m < j < members@.len() ==> (#[trigger] members@[j]).uid@ != series[k].uid
                        || members@[j].is_override)
            &&& forall|k: int, i: int|
                0 <= k < series.len() ==> (#[trigger] series[k].overrides.contains(i) <==> 0 <= i
                    < members@.len() && members@[i].uid@ == series[k].uid
                    && members@[i].is_override)
            &&& (exists|i: int|
                0 <= i < members@.len() && (#[trigger] members@[i]).uid@ == uid
                    && !members@[i].is_override) ==> exists|k: int|
                0 <= k < series.len() && (#[trigger] series[k]).uid == uid
        },
{
    let all = all_series(members@);
    let kept = with_master(all);
    one_series_per_uid(members@);
    crate::series::kept_series_have_masters(all);
    assert forall|k: int| 0 <= k < kept.len() implies ((#[trigger] kept[k]).master matches Some(m)
        && 0 <= m < members@.len() && members@[m].uid@ == kept[k].uid && !members@[m].is_override
        && forall|j: int|
        m < j < members@.len() ==> (#[trigger] members@[j]).uid@ != kept[k].uid
            || members@[j].is_override) by {
        assert(kept.contains(kept[k]));
        let i = choose|i: int| 0 <= i < all.len() && all[i] == kept[k];
        members_keep_their_role(members@, uids(members@)[i]);
        the_last_master_counts(members@, uids(members@)[i]);
    }
    assert forall|k: int, i: int| 0 <= k < kept.len() implies (
    #[trigger] kept[k].overrides.contains(i) <==> 0 <= i < members@.len() && members@[i].uid@
        == kept[k].uid && members@[i].is_override) by {
        assert(kept.contains(kept[k]));
        let n = choose|n: int| 0 <= n < all.len() && all[n] == kept[k];
        members_keep_their_role(members@, uids(members@)[n]);
    }
    if exists|i: int|
        0 <= i < members@.len() && (#[trigger] members@[i]).uid@ == uid && !members@[i].is_override {
        assert(uids(members@).contains(uid));
        let n = choose|n: int| 0 <= n < uids(members@).len() && uids(members@)[n] == uid;
        members_keep_their_role(members@, uid);
        assert(all[n].master is Some);
        assert(all.contains(all[n]));
        assert(kept.contains(all[n]));
        let k = choose|k: int| 0 <= k < kept.len() && kept[k] == all[n];
        assert(kept[k].uid == uid);
    }
}

proof fn the_last_master_counts(members: Seq<Member>, uid: Seq<char>)
    ensures
        master_of(members, uid) matches Some(m) ==> forall|j: int|
            m < j < members.len() ==> (#[trigger] members[j]).uid@ != uid || members[j].is_override,
    decreases members.len(),
{
    if members.len() > 0 {
        let head = members.drop_last();
        the_last_master_counts(head, uid);
        members_keep_their_role(head, uid);
        assert forall|j: int| 0 <= j < head.len() implies #[trigger] members[j] == head[j] by {}
        assert(members.last() == members[members.len() - 1]);
    }
}

/// A file's series: one for each UID, in the order in which the UIDs first
/// occur, with its master and its overrides, the overrides in file order.
pub proof fn a_file_has_a_series_for_each_uid(members: Seq<Member>, i: int)
    ensures
        all_series(members).len() == uids(members).len(),
        0 <= i < uids(members).len() ==> {
            &&& all_series(members)[i].uid == uids(members)[i]
            &&& all_series(members)[i].master == master_of(members, uids(members)[i])
            &&& all_series(members)[i].overrides == overrides_of(members, uids(members)[i])
            &&& forall|a: int, b: int|
                0 <= a < b < all_series(members)[i].overrides.len() ==> #[trigger] all_series(
                    members,
                )[i].overrides[a] < #[trigger] all_series(members)[i].overrides[b]
        },
{
    if 0 <= i < uids(members).len() {
        overrides_are_in_order(members, uids(members)[i]);
    }
}

proof fn overrides_are_in_order(members: Seq<Member>, uid: Seq<char>)
    ensures
        forall|a: int|
            0 <= a < overrides_of(members, uid).len() ==> 0 <= #[trigger] overrides_of(
                members,
                uid,
            )[a] < members.len(),
        forall|a: int, b: int|
            0 <= a < b < overrides_of(members, uid).len() ==> #[trigger] overrides_of(
                members,
                uid,
            )[a] < #[trigger] overrides_of(members, uid)[b],
    decreases members.len(),
{
    if members.len() > 0 {
        let head = members.drop_last();
        overrides_are_in_order(head, uid);
        let lead = overrides_of(head, uid);
        let all = overrides_of(members, uid);
        assert forall|a: int| 0 <= a < all.len() implies 0 <= #[trigger] all[a]
            < members.len() by {
            if a < lead.len() {
                assert(all[a] == lead[a]);
            }
        }
        assert forall|a: int, b: int| 0 <= a < b < all.len() implies #[trigger] all[a]
            < #[trigger] all[b] by {
            assert(all[a] == lead[a]);
            if b < lead.len() {
                assert(all[b] == lead[b]);
            }
        }
    }
}

/// A new UID stands behind those that occurred before it; a UID that occurred
/// before keeps its place.
pub proof fn uids_stand_in_order_of_first_occurrence(members: Seq<Member>, m: Member)
    ensures
        uids(Seq::empty()).len() == 0,
        (exists|i: int| 0 <= i < members.len() && (#[trigger] members[i]).uid@ == m.uid@) ==> uids(
            members.push(m),
        ) == uids(members),
        !(exists|i: int| 0 <= i < members.len() && (#[trigger] members[i]).uid@ == m.uid@) ==> uids(
            members.push(m),
        ) == uids(members).push(m.uid@),
{
    assert(members.push(m).drop_last() =~= members);
}

/// What is done is shown as it is.
pub proof fn sync_actions_are_shown_as_they_are(action: SyncAction, s: Series, url: UrlParts)
    ensures
        match action {
            SyncAction::Resolve(t) => action@ == (SyncActionSpec::Resolve {
                host: t.host@,
                port: t.port,
            }),
            SyncAction::Fetch => action@ == SyncActionSpec::Fetch,
            SyncAction::NotePass => action@ == SyncActionSpec::NotePass,
            SyncAction::ReadBody => action@ == SyncActionSpec::ReadBody,
            SyncAction::Parse => action@ == SyncActionSpec::Parse,
            SyncAction::Store { series, fetched } => action@ matches SyncActionSpec::Store {
                series: a,
                fetched: b,
            } && a.len() == series@.len() && b == views(fetched@) && forall|i: int|
                0 <= i < series@.len() ==> #[trigger] a[i] == series@[i]@,
            SyncAction::Fail(e) => action@ == SyncActionSpec::Fail(e@),
        },
        s@.uid == s.uid@,
        match s.master {
            Some(m) => s@.master == Some(m as int),
            None => s@.master is None,
        },
        s@.overrides.len() == s.overrides@.len(),
        forall|i: int|
            0 <= i < s.overrides@.len() ==> #[trigger] s@.overrides[i] == s.overrides@[i],
        url@.scheme == url.scheme@,
        url@.host == opt_view(url.host),
        url@.port == url.port,
{
}

/// A source has to be a web address.
pub proof fn sources_are_web_addresses(parts: Option<UrlSpec>)
    ensures
        source_fault(parts) is None <==> (parts matches Some(url) && (url.scheme == "http"@
            || url.scheme == "https"@)),
        parts is None ==> source_fault(parts) == Some("invalid source URL"@),
        parts is Some && source_fault(parts) is Some ==> source_fault(parts) == Some(
            "source URL must be http or https"@,
        ),
{
}

/// An access list is refused for the first capability that is not known.
pub proof fn unknown_capabilities_are_refused(list: Seq<AclEntryBody>, i: int)
    requires
        0 <= i < list.len(),
        list[i].known is None,
        forall|j: int| 0 <= j < i ==> (#[trigger] list[j]).known is Some,
    ensures
        unknown_capability(list) == Some(list[i].capability@),
    decreases list.len(),
{
    let head = list.drop_last();
    if i < head.len() {
        assert(head[i] == list[i]);
        assert forall|j: int| 0 <= j < i implies (#[trigger] head[j]).known is Some by {
            assert(head[j] == list[j]);
        }
        unknown_capabilities_are_refused(head, i);
    } else {
        known_capabilities_pass(head);
    }
}

/// An access list of known capabilities passes.
pub proof fn known_capabilities_pass(list: Seq<AclEntryBody>)
    requires
        forall|j: int| 0 <= j < list.len() ==> (#[trigger] list[j]).known is Some,
    ensures
        unknown_capability(list) is None,
    decreases list.len(),
{
    if list.len() > 0 {
        let head = list.drop_last();
        assert forall|j: int| 0 <= j < head.len() implies (#[trigger] head[j]).known is Some by {
            assert(head[j] == list[j]);
        }
        assert(list.last() == list[list.len() - 1]);
        known_capabilities_pass(head);
    }
}

/// A calendar holds events, tasks or journals, at least one kind of them and
/// none twice.
pub proof fn what_a_calendar_can_hold(want: Seq<Seq<char>>)
    ensures
        component_set(want) <==> {
            &&& want.len() == 1 || want.len() == 2 || want.len() == 3
            &&& forall|i: int, j: int|
                0 <= i < j < want.len() ==> #[trigger] want[i] != #[trigger] want[j]
            &&& forall|i: int|
                0 <= i < want.len() ==> #[trigger] want[i] == "VEVENT"@ || want[i] == "VTODO"@
                    || want[i] == "VJOURNAL"@
        },
{
    if forall|i: int, j: int| 0 <= i < j < want.len() ==> #[trigger] want[i] != #[trigger] want[j] {
        assert(want.no_duplicates());
    }
}

/// A kind is blocked from being removed if and only if it is there, is not
/// wanted any more and has live items; the refusal names it with how many.
pub proof fn kinds_with_live_items_stay(
    current: Seq<Seq<char>>,
    want: Seq<Seq<char>>,
    counts: Seq<KindCount>,
    kind: Seq<char>,
)
    ensures
        blocked_kinds(Seq::empty(), want, counts).len() == 0,
        want.contains(kind) || live_count(counts, kind) <= 0 ==> blocked_kinds(
            current.push(kind),
            want,
            counts,
        ) == blocked_kinds(current, want, counts),
        !want.contains(kind) && live_count(counts, kind) > 0 ==> blocked_kinds(
            current.push(kind),
            want,
            counts,
        ) == blocked_kinds(current, want, counts).push(
            kind + "="@ + integer_text(live_count(counts, kind)),
        ),
{
    assert(current.push(kind).drop_last() =~= current);
}

/// How many live items a kind has is what its first count says, and none
/// where there is no count.
pub proof fn live_items_are_counted_by_kind(counts: Seq<KindCount>, kind: Seq<char>, i: int)
    requires
        0 <= i <= counts.len(),
        forall|j: int| 0 <= j < i ==> (#[trigger] counts[j]).kind@ != kind,
        i < counts.len() ==> counts[i].kind@ == kind,
    ensures
        i < counts.len() ==> live_count(counts, kind) == counts[i].live,
        i == counts.len() ==> live_count(counts, kind) == 0,
    decreases i,
{
    if i > 0 {
        let rest = counts.subrange(1, counts.len() as int);
        assert forall|j: int| 0 <= j < i - 1 implies (#[trigger] rest[j]).kind@ != kind by {
            assert(rest[j] == counts[j + 1]);
        }
        if i < counts.len() {
            assert(rest[i - 1] == counts[i]);
        }
        live_items_are_counted_by_kind(rest, kind, i - 1);
    }
}

/// What becomes of a series: without a master it is rejected, one that is in
/// the calendar is left alone, and any other is stored if storing it went
/// well.
pub proof fn what_becomes_of_a_series(exists: bool, reason: String)
    ensures
        outcome_of(false, exists, Ok(())) is NoMaster,
        outcome_of(false, exists, Err(reason)) is NoMaster,
        outcome_of(true, true, Ok(())) is Exists,
        outcome_of(true, true, Err(reason)) is Exists,
        outcome_of(true, false, Ok(())) is Stored,
        outcome_of(true, false, Err(reason)) == SeriesOutcome::Failed(reason),
{
}

/// Each series of an import counts once: as imported, as skipped, or with its
/// reason among the rejected.
pub proof fn imports_count_each_series_once(
    list: Seq<(String, SeriesOutcome)>,
    uid: String,
    outcome: SeriesOutcome,
)
    ensures
        ({
            let next = list.push((uid, outcome));
            match outcome {
                SeriesOutcome::Stored => stored_count(next) == stored_count(list) + 1
                    && skipped_count(next) == skipped_count(list) && rejections(next) == rejections(
                    list,
                ),
                SeriesOutcome::Exists => stored_count(next) == stored_count(list) && skipped_count(
                    next,
                ) == skipped_count(list) + 1 && rejections(next) == rejections(list),
                SeriesOutcome::NoMaster => stored_count(next) == stored_count(list)
                    && skipped_count(next) == skipped_count(list) && rejections(next) == rejections(
                    list,
                ).push((uid@, "override without its master; import whole series"@)),
                SeriesOutcome::Failed(reason) => stored_count(next) == stored_count(list)
                    && skipped_count(next) == skipped_count(list) && rejections(next) == rejections(
                    list,
                ).push((uid@, reason@)),
            }
        }),
        stored_count(Seq::empty()) == 0,
        skipped_count(Seq::empty()) == 0,
        rejections(Seq::empty()).len() == 0,
{
    assert(list.push((uid, outcome)).drop_last() =~= list);
}

/// A rejection is shown with its UID and its reason.
pub proof fn rejections_are_shown(list: Seq<(Seq<char>, Seq<char>)>, i: int)
    requires
        0 <= i < list.len(),
    ensures
        rejected_value(list).len() == list.len(),
        rejected_value(list)[i].at("uid"@) == Some(Value::Text(list[i].0)),
        rejected_value(list)[i].at("reason"@) == Some(Value::Text(list[i].1)),
{
    reveal_strlit("uid");
    reveal_strlit("reason");
    assert("uid"@.len() != "reason"@.len());
}

/// A web address is one of these two schemes.
pub proof fn which_schemes_are_of_the_web(s: Seq<char>)
    ensures
        web_scheme(s) <==> s == "http"@ || s == "https"@,
{
}

} // verus!
