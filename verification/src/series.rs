//! Series: the components of a calendar file that share a UID, as one master
//! and its overrides.

use vstd::prelude::*;

use crate::ids::{id_string, id_text, new_id, random_form};
use crate::text::{same, views};

verus! {

/// What grouping needs to know of a component.
#[derive(Debug)]
pub struct Member {
    pub uid: String,
    /// Whether the component replaces one occurrence of its master.
    pub is_override: bool,
}

/// The components of one UID, by their places in the file.
#[derive(Debug)]
pub struct Series {
    pub uid: String,
    pub master: Option<usize>,
    pub overrides: Vec<usize>,
}

/// A series with its parts as mathematical values.
pub struct SeriesSpec {
    pub uid: Seq<char>,
    pub master: Option<int>,
    pub overrides: Seq<int>,
}

impl View for Series {
    type V = SeriesSpec;

    open spec fn view(&self) -> SeriesSpec {
        SeriesSpec {
            uid: self.uid@,
            master: match self.master {
                Some(i) => Some(i as int),
                None => None,
            },
            overrides: Seq::new(self.overrides@.len(), |i: int| self.overrides@[i] as int),
        }
    }
}

/// The series as mathematical values.
pub open spec fn series_views(v: Seq<Series>) -> Seq<SeriesSpec> {
    Seq::new(v.len(), |i: int| v[i]@)
}

/// Whether a component has this UID.
pub open spec fn has_uid(members: Seq<Member>, uid: Seq<char>) -> bool {
    exists|i: int| 0 <= i < members.len() && (#[trigger] members[i]).uid@ == uid
}

/// The UIDs in the order in which they first occur.
pub open spec fn uids(members: Seq<Member>) -> Seq<Seq<char>>
    decreases members.len(),
{
    if members.len() == 0 {
        Seq::empty()
    } else {
        let before = uids(members.drop_last());
        if has_uid(members.drop_last(), members.last().uid@) {
            before
        } else {
            before.push(members.last().uid@)
        }
    }
}

/// The place of a UID's master: the last component with the UID that is no
/// override.
pub open spec fn master_of(members: Seq<Member>, uid: Seq<char>) -> Option<int>
    decreases members.len(),
{
    if members.len() == 0 {
        None
    } else if members.last().uid@ == uid && !members.last().is_override {
        Some(members.len() - 1)
    } else {
        master_of(members.drop_last(), uid)
    }
}

/// The places of a UID's overrides, in order.
pub open spec fn overrides_of(members: Seq<Member>, uid: Seq<char>) -> Seq<int>
    decreases members.len(),
{
    if members.len() == 0 {
        Seq::empty()
    } else {
        let before = overrides_of(members.drop_last(), uid);
        if members.last().uid@ == uid && members.last().is_override {
            before.push(members.len() - 1)
        } else {
            before
        }
    }
}

/// The series of one UID.
pub open spec fn series_of(members: Seq<Member>, uid: Seq<char>) -> SeriesSpec {
    SeriesSpec { uid, master: master_of(members, uid), overrides: overrides_of(members, uid) }
}

/// The series of each of these UIDs.
pub open spec fn series_for(members: Seq<Member>, found: Seq<Seq<char>>) -> Seq<SeriesSpec> {
    Seq::new(found.len(), |i: int| series_of(members, found[i]))
}

/// All series, in the order in which their UIDs first occur.
pub open spec fn all_series(members: Seq<Member>) -> Seq<SeriesSpec> {
    series_for(members, uids(members))
}

/// Whether one of the first `n` components has this UID.
fn uid_before(members: &Vec<Member>, n: usize, uid: &str) -> (r: bool)
    requires
        n <= members@.len(),
    ensures
        r == has_uid(members@.take(n as int), uid@),
{
    let ghost head = members@.take(n as int);
    let mut i: usize = 0;
    while i < n
        invariant
            i <= n <= members@.len(),
            head == members@.take(n as int),
            forall|j: int| 0 <= j < i ==> (#[trigger] head[j]).uid@ != uid@,
        decreases n - i,
    {
        if same(members[i].uid.as_str(), uid) {
            assert(head[i as int].uid@ == uid@);
            return true;
        }
        i = i + 1;
    }
    false
}

/// The series of one UID.
fn collect(members: &Vec<Member>, uid: &str) -> (r: Series)
    ensures
        r@ == series_of(members@, uid@),
{
    let mut out = Series { uid: uid.to_owned(), master: None, overrides: Vec::new() };
    let mut i: usize = 0;
    assert(out@.overrides =~= overrides_of(members@.take(0), uid@));
    while i < members.len()
        invariant
            i <= members@.len(),
            out@ == series_of(members@.take(i as int), uid@),
        decreases members@.len() - i,
    {
        let ghost before = out@;
        let ghost next = members@.take(i + 1);
        assert(next.drop_last() =~= members@.take(i as int));
        if same(members[i].uid.as_str(), uid) {
            if members[i].is_override {
                out.overrides.push(i);
            } else {
                out.master = Some(i);
            }
        }
        assert(out@.overrides =~= overrides_of(next, uid@));
        i = i + 1;
    }
    assert(members@.take(members@.len() as int) =~= members@);
    out
}

/// Groups the components of a file by UID, in the order in which the UIDs
/// first occur.
pub fn group_series(members: &Vec<Member>) -> (r: Vec<Series>)
    ensures
        series_views(r@) == all_series(members@),
{
    let mut out: Vec<Series> = Vec::new();
    let mut i: usize = 0;
    let ghost mut found: Seq<Seq<char>> = Seq::empty();
    while i < members.len()
        invariant
            i <= members@.len(),
            found == uids(members@.take(i as int)),
            series_views(out@) == series_for(members@, found),
        decreases members@.len() - i,
    {
        let ghost next = members@.take(i + 1);
        assert(next.drop_last() =~= members@.take(i as int));
        let uid = members[i].uid.as_str();
        if !uid_before(members, i, uid) {
            let ghost before = out@;
            let series = collect(members, uid);
            out.push(series);
            assert(series_views(out@) =~= series_views(before).push(series@));
            assert(series_for(members@, found.push(uid@)) =~= series_for(members@, found).push(
                series@,
            ));
            proof {
                found = found.push(uid@);
            }
        }
        i = i + 1;
    }
    assert(members@.take(members@.len() as int) =~= members@);
    out
}

/// The series that have a master.
pub open spec fn with_master(list: Seq<SeriesSpec>) -> Seq<SeriesSpec>
    decreases list.len(),
{
    if list.len() == 0 {
        Seq::empty()
    } else {
        let lead = with_master(list.drop_last());
        if list.last().master is Some {
            lead.push(list.last())
        } else {
            lead
        }
    }
}

/// The series that have a master, in their order.
pub fn with_masters(list: Vec<Series>) -> (r: Vec<Series>)
    ensures
        series_views(r@) == with_master(series_views(list@)),
{
    let ghost all = list@;
    let ghost specs = series_views(all);
    let mut out: Vec<Series> = Vec::new();
    assert(series_views(out@) =~= with_master(specs.take(0)));
    for s in it: list
        invariant
            it.seq() == all,
            specs == series_views(all),
            series_views(out@) == with_master(specs.take(it.index() as int)),
    {
        let ghost k = it.index() as int;
        assert(specs[k] == s@);
        assert(specs.take(k + 1).drop_last() =~= specs.take(k));
        if s.master.is_some() {
            let ghost lead = out@;
            out.push(s);
            assert(series_views(out@) =~= series_views(lead).push(s@));
        }
    }
    assert(specs.take(specs.len() as int) =~= specs);
    out
}

/// The UIDs of these series.
pub fn series_uids(list: &Vec<Series>) -> (r: Vec<String>)
    ensures
        views(r@) == Seq::new(list@.len(), |i: int| list@[i].uid@),
{
    let mut out: Vec<String> = Vec::new();
    let mut i: usize = 0;
    while i < list.len()
        invariant
            i <= list@.len(),
            out@.len() == i,
            forall|j: int| 0 <= j < i ==> (#[trigger] out@[j])@ == list@[j].uid@,
        decreases list@.len() - i,
    {
        out.push(list[i].uid.clone());
        i = i + 1;
    }
    assert(views(out@) =~= Seq::new(list@.len(), |i: int| list@[i].uid@));
    out
}

/// Every series with a master is kept, and no other.
pub proof fn kept_series_have_masters(list: Seq<SeriesSpec>)
    ensures
        forall|s: SeriesSpec| #[trigger]
            with_master(list).contains(s) <==> list.contains(s) && s.master is Some,
    decreases list.len(),
{
    if list.len() > 0 {
        let head = list.drop_last();
        let last = list.last();
        kept_series_have_masters(head);
        let lead = with_master(head);
        let all = with_master(list);
        assert forall|s: SeriesSpec| #[trigger] all.contains(s) <==> list.contains(s)
            && s.master is Some by {
            if all.contains(s) {
                let k = choose|k: int| 0 <= k < all.len() && all[k] == s;
                if k < lead.len() {
                    assert(lead[k] == s);
                    assert(lead.contains(s));
                    let i = choose|i: int| 0 <= i < head.len() && head[i] == s;
                    assert(list[i] == s);
                } else {
                    assert(list[list.len() - 1] == s);
                }
            }
            if list.contains(s) && s.master is Some {
                let i = choose|i: int| 0 <= i < list.len() && list[i] == s;
                if i < head.len() {
                    assert(head[i] == s);
                    assert(head.contains(s));
                    assert(lead.contains(s));
                    let k = choose|k: int| 0 <= k < lead.len() && lead[k] == s;
                    assert(all[k] == s);
                } else {
                    assert(all[all.len() - 1] == s);
                }
            }
        }
    }
}

/// Each UID of the file gets exactly one series.
pub proof fn one_series_per_uid(members: Seq<Member>)
    ensures
        uids(members).no_duplicates(),
        forall|uid: Seq<char>| #[trigger] uids(members).contains(uid) <==> has_uid(members, uid),
    decreases members.len(),
{
    if members.len() > 0 {
        let head = members.drop_last();
        let uid = members.last().uid@;
        one_series_per_uid(head);
        let before = uids(head);
        let all = uids(members);
        assert forall|u: Seq<char>| #[trigger] all.contains(u) <==> has_uid(members, u) by {
            if all.contains(u) {
                let k = choose|k: int| 0 <= k < all.len() && all[k] == u;
                if k < before.len() {
                    assert(before[k] == u);
                    assert(before.contains(u));
                    let i = choose|i: int|
                        0 <= i < head.len() && (#[trigger] head[i]).uid@ == u;
                    assert(members[i] == head[i]);
                } else {
                    assert(members[members.len() - 1].uid@ == u);
                }
            }
            if has_uid(members, u) {
                let i = choose|i: int|
                    0 <= i < members.len() && (#[trigger] members[i]).uid@ == u;
                if i < head.len() {
                    assert(head[i] == members[i]);
                    assert(before.contains(u));
                    let k = choose|k: int| 0 <= k < before.len() && before[k] == u;
                    assert(all[k] == u);
                } else if has_uid(head, u) {
                    assert(before.contains(u));
                    let k = choose|k: int| 0 <= k < before.len() && before[k] == u;
                    assert(all[k] == u);
                } else {
                    assert(all[all.len() - 1] == u);
                }
            }
        }
        if !has_uid(head, uid) {
            assert(!before.contains(uid));
        }
    }
}

/// A component is its series' master only if it is no override, and every
/// override of the file is among its series' overrides.
pub proof fn members_keep_their_role(members: Seq<Member>, uid: Seq<char>)
    ensures
        master_of(members, uid) matches Some(i) ==> 0 <= i < members.len() && members[i].uid@
            == uid && !members[i].is_override,
        master_of(members, uid) is None <==> forall|i: int|
            0 <= i < members.len() ==> (#[trigger] members[i]).uid@ != uid
                || members[i].is_override,
        forall|i: int| #[trigger]
            overrides_of(members, uid).contains(i) <==> 0 <= i < members.len() && members[i].uid@
                == uid && members[i].is_override,
    decreases members.len(),
{
    if members.len() > 0 {
        let head = members.drop_last();
        let last = members.len() - 1;
        members_keep_their_role(head, uid);
        assert forall|i: int| 0 <= i < head.len() implies head[i] == members[i] by {}
        assert(members[last] == members.last());
        if master_of(members, uid) is None {
            assert forall|i: int| 0 <= i < members.len() implies (#[trigger] members[i]).uid@
                != uid || members[i].is_override by {
                if i < last {
                    assert(head[i] == members[i]);
                }
            }
        }
        if forall|i: int|
            0 <= i < members.len() ==> (#[trigger] members[i]).uid@ != uid
                || members[i].is_override {
            assert forall|i: int| 0 <= i < head.len() implies (#[trigger] head[i]).uid@ != uid
                || head[i].is_override by {
                assert(head[i] == members[i]);
            }
        }
        let before = overrides_of(head, uid);
        let all = overrides_of(members, uid);
        assert forall|i: int| #[trigger]
            all.contains(i) <==> 0 <= i < members.len() && members[i].uid@ == uid
                && members[i].is_override by {
            if all.contains(i) {
                let k = choose|k: int| 0 <= k < all.len() && all[k] == i;
                if k < before.len() {
                    assert(before[k] == i);
                    assert(before.contains(i));
                }
            }
            if 0 <= i < members.len() && members[i].uid@ == uid && members[i].is_override {
                if i < last {
                    assert(before.contains(i));
                    let k = choose|k: int| 0 <= k < before.len() && before[k] == i;
                    assert(all[k] == i);
                } else {
                    assert(all[all.len() - 1] == i);
                }
            }
        }
    }
}

/// A fresh name for the resource of a series.
pub fn new_href() -> (r: String)
    ensures
        exists|id: u128| #[trigger] random_form(id) && r@ == id_text(id) + ".ics"@,
{
    let id: u128 = new_id();
    let text = id_string(id);
    let r = text.concat(".ics");
    assert(random_form(id) && r@ == id_text(id) + ".ics"@);
    r
}

} // verus!
