//! The login gate: failed attempts are remembered for a while, and too many
//! of them lock an identity out.

use vstd::prelude::*;

use crate::error::{AppError, Failure};
use crate::text::{lowered, same, to_lower};

verus! {

/// Nanoseconds for which a failure counts.
pub const LOGIN_WINDOW: u64 = 600_000_000_000;

/// Failures within the window that lock an identity out.
pub const LOGIN_MAX_FAILURES: usize = 10;

/// The failures of each identity, as times on a clock in nanoseconds.
#[derive(Debug)]
pub struct FailureLog {
    entries: Vec<(String, Vec<u64>)>,
}

/// The failures that a list of entries stands for; a later entry replaces an
/// earlier one.
pub open spec fn failures_of(entries: Seq<(String, Vec<u64>)>) -> Map<Seq<char>, Seq<u64>>
    decreases entries.len(),
{
    if entries.len() == 0 {
        Map::empty()
    } else {
        failures_of(entries.drop_last()).insert(entries.last().0@, entries.last().1@)
    }
}

impl View for FailureLog {
    type V = Map<Seq<char>, Seq<u64>>;

    closed spec fn view(&self) -> Map<Seq<char>, Seq<u64>> {
        failures_of(self.entries@)
    }
}

/// How long ago a failure was; no time for one after `now`.
pub open spec fn age(at: u64, now: u64) -> int {
    if now >= at {
        now - at
    } else {
        0
    }
}

/// Whether a failure still counts.
pub open spec fn counts(at: u64, now: u64, window: u64) -> bool {
    age(at, now) < window
}

/// The failures that still count.
pub open spec fn recent(list: Seq<u64>, now: u64, window: u64) -> Seq<u64>
    decreases list.len(),
{
    if list.len() == 0 {
        Seq::empty()
    } else {
        let lead = recent(list.drop_last(), now, window);
        if counts(list.last(), now, window) {
            lead.push(list.last())
        } else {
            lead
        }
    }
}

/// Forgets the failures that no longer count: those as old as the window or
/// older.
pub fn prune(window: u64, now: u64, entries: &mut Vec<u64>)
    ensures
        final(entries)@ == recent(old(entries)@, now, window),
{
    let ghost all = entries@;
    let mut out: Vec<u64> = Vec::new();
    let mut i: usize = 0;
    while i < entries.len()
        invariant
            i <= entries@.len(),
            all == entries@,
            out@ == recent(all.take(i as int), now, window),
        decreases entries@.len() - i,
    {
        let at: u64 = entries[i];
        assert(all.take(i + 1).drop_last() =~= all.take(i as int));
        let age: u64 = if now >= at {
            now - at
        } else {
            0
        };
        if age < window {
            out.push(at);
        }
        i = i + 1;
    }
    assert(all.take(all.len() as int) =~= all);
    *entries = out;
}

/// An empty log.
pub fn failure_log() -> (r: FailureLog)
    ensures
        r@ == Map::<Seq<char>, Seq<u64>>::empty(),
{
    let r = FailureLog { entries: Vec::new() };
    assert(failures_of(r.entries@) == Map::<Seq<char>, Seq<u64>>::empty());
    r
}

/// The failures that an identity has in the log.
pub open spec fn failures_in(log: Map<Seq<char>, Seq<u64>>, key: Seq<char>) -> Seq<u64> {
    if log.dom().contains(key) {
        log[key]
    } else {
        Seq::empty()
    }
}

/// Setting the entry that decides about a key sets the key.
proof fn failures_update(entries: Seq<(String, Vec<u64>)>, i: int, entry: (String, Vec<u64>))
    requires
        0 <= i < entries.len(),
        entry.0@ == entries[i].0@,
        forall|j: int| i < j < entries.len() ==> entries[j].0@ != entries[i].0@,
    ensures
        failures_of(entries.update(i, entry)) == failures_of(entries).insert(entry.0@, entry.1@),
    decreases entries.len(),
{
    let next = entries.update(i, entry);
    if i == entries.len() - 1 {
        assert(next.drop_last() =~= entries.drop_last());
        assert(failures_of(next) =~= failures_of(entries).insert(entry.0@, entry.1@));
    } else {
        assert(next.drop_last() =~= entries.drop_last().update(i, entry));
        failures_update(entries.drop_last(), i, entry);
        assert(next.last() == entries.last());
        assert(failures_of(next) =~= failures_of(entries).insert(entry.0@, entry.1@));
    }
}

proof fn failures_absent(entries: Seq<(String, Vec<u64>)>, key: Seq<char>)
    requires
        forall|j: int| 0 <= j < entries.len() ==> entries[j].0@ != key,
    ensures
        !failures_of(entries).dom().contains(key),
    decreases entries.len(),
{
    if entries.len() > 0 {
        failures_absent(entries.drop_last(), key);
    }
}

proof fn failures_last(entries: Seq<(String, Vec<u64>)>, i: int)
    requires
        0 <= i < entries.len(),
        forall|j: int| i < j < entries.len() ==> entries[j].0@ != entries[i].0@,
    ensures
        failures_of(entries).dom().contains(entries[i].0@),
        failures_of(entries)[entries[i].0@] == entries[i].1@,
    decreases entries.len(),
{
    if i < entries.len() - 1 {
        failures_last(entries.drop_last(), i);
    }
}

impl FailureLog {
    /// The place of the entry that decides about a key.
    fn place(&self, key: &str) -> (r: Option<usize>)
        ensures
            match r {
                Some(i) => i < self.entries@.len() && self.entries@[i as int].0@ == key@ && (
                forall|j: int|
                    i < j < self.entries@.len() ==> self.entries@[j].0@ != key@)
                    && self@.dom().contains(key@) && self@[key@] == self.entries@[i as int].1@,
                None => !self@.dom().contains(key@),
            },
    {
        let mut i: usize = self.entries.len();
        while i > 0
            invariant
                i <= self.entries@.len(),
                forall|j: int| i <= j < self.entries@.len() ==> self.entries@[j].0@ != key@,
            decreases i,
        {
            i = i - 1;
            if same(self.entries[i].0.as_str(), key) {
                proof {
                    failures_last(self.entries@, i as int);
                }
                return Some(i);
            }
        }
        proof {
            failures_absent(self.entries@, key@);
        }
        None
    }

    /// How many failures an identity has, if it has an entry.
    pub fn failures(&self, key: &str) -> (r: Option<usize>)
        ensures
            match r {
                Some(n) => self@.dom().contains(key@) && n == self@[key@].len(),
                None => !self@.dom().contains(key@),
            },
    {
        match self.place(key) {
            Some(i) => Some(self.entries[i].1.len()),
            None => None,
        }
    }

    /// Keeps the failures of an identity that still count, and adds this one
    /// where there is one.
    fn refresh(&mut self, key: String, now: u64, failure: Option<u64>) -> (r: usize)
        ensures
            ({
                let kept = recent(failures_in(old(self)@, key@), now, LOGIN_WINDOW);
                let list = match failure {
                    Some(at) => kept.push(at),
                    None => kept,
                };
                final(self)@ == old(self)@.insert(key@, list) && r == list.len()
            }),
    {
        match self.place(key.as_str()) {
            Some(i) => {
                let ghost before = self.entries@;
                let mut list: Vec<u64> = Vec::new();
                let mut k: usize = 0;
                while k < self.entries[i].1.len()
                    invariant
                        i < self.entries@.len(),
                        self.entries@ == before,
                        k <= before[i as int].1@.len(),
                        list@ == before[i as int].1@.take(k as int),
                    decreases before[i as int].1@.len() - k,
                {
                    list.push(self.entries[i].1[k]);
                    k = k + 1;
                    assert(list@ =~= before[i as int].1@.take(k as int));
                }
                assert(list@ =~= before[i as int].1@);
                prune(LOGIN_WINDOW, now, &mut list);
                if let Some(at) = failure {
                    list.push(at);
                }
                let n: usize = list.len();
                let ghost entry = (key, list);
                proof {
                    failures_update(before, i as int, entry);
                }
                self.entries[i] = (key, list);
                assert(self.entries@ == before.update(i as int, entry));
                n
            },
            None => {
                let ghost before = self.entries@;
                let mut list: Vec<u64> = Vec::new();
                if let Some(at) = failure {
                    list.push(at);
                }
                let n: usize = list.len();
                assert(recent(Seq::<u64>::empty(), now, LOGIN_WINDOW) =~= Seq::<u64>::empty());
                self.entries.push((key, list));
                assert(self.entries@.drop_last() =~= before);
                n
            },
        }
    }

    /// Forgets an identity.
    fn remove(&mut self, key: &str)
        ensures
            final(self)@ == old(self)@.remove(key@),
    {
        let ghost all = self.entries@;
        let mut rest: Vec<(String, Vec<u64>)> = Vec::new();
        let mut old_entries: Vec<(String, Vec<u64>)> = Vec::new();
        std::mem::swap(&mut self.entries, &mut old_entries);
        assert(failures_of(rest@) =~= failures_of(all.take(0)).remove(key@));
        for entry in it: old_entries
            invariant
                it.seq() == all,
                failures_of(rest@) == failures_of(all.take(it.index() as int)).remove(key@),
        {
            let ghost k = it.index() as int;
            assert(entry == all[k]);
            assert(all.take(k + 1).drop_last() =~= all.take(k));
            let ghost lead = rest@;
            if !same(entry.0.as_str(), key) {
                rest.push(entry);
                assert(rest@.drop_last() =~= lead);
            }
            assert(failures_of(rest@) =~= failures_of(all.take(k + 1)).remove(key@));
        }
        assert(all.take(all.len() as int) =~= all);
        self.entries = rest;
    }
}

/// Whether an identity is locked out.
pub open spec fn locked(log: Map<Seq<char>, Seq<u64>>, username: Seq<char>, now: u64) -> bool {
    recent(failures_in(log, lowered(username)), now, LOGIN_WINDOW).len() >= LOGIN_MAX_FAILURES
}

/// The log with only the failures of an identity that still count.
pub open spec fn refreshed(log: Map<Seq<char>, Seq<u64>>, username: Seq<char>, now: u64) -> Map<
    Seq<char>,
    Seq<u64>,
> {
    log.insert(
        lowered(username),
        recent(failures_in(log, lowered(username)), now, LOGIN_WINDOW),
    )
}

/// Refuses an identity with too many recent failures.
pub fn login_gate(log: &mut FailureLog, username: &str, now: u64) -> (r: Result<(), AppError>)
    ensures
        final(log)@ == refreshed(old(log)@, username@, now),
        match r {
            Ok(_) => !locked(old(log)@, username@, now),
            Err(e) => locked(old(log)@, username@, now) && e@ == Failure::Forbidden,
        },
{
    let n: usize = log.refresh(to_lower(username), now, None);
    if n >= LOGIN_MAX_FAILURES {
        Err(AppError::Forbidden)
    } else {
        Ok(())
    }
}

/// The log with one more failure of an identity.
pub open spec fn with_failure(log: Map<Seq<char>, Seq<u64>>, username: Seq<char>, now: u64) -> Map<
    Seq<char>,
    Seq<u64>,
> {
    log.insert(
        lowered(username),
        recent(failures_in(log, lowered(username)), now, LOGIN_WINDOW).push(now),
    )
}

/// Remembers a failed attempt.
pub fn record_login_failure(log: &mut FailureLog, username: &str, now: u64)
    ensures
        final(log)@ == with_failure(old(log)@, username@, now),
{
    log.refresh(to_lower(username), now, Some(now));
}

/// Forgets the failures of an identity.
pub fn clear_login_failures(log: &mut FailureLog, username: &str)
    ensures
        final(log)@ == old(log)@.remove(lowered(username@)),
{
    let key = to_lower(username);
    log.remove(key.as_str());
}

/// The log after failures of an identity at these times.
pub open spec fn after_failures(
    log: Map<Seq<char>, Seq<u64>>,
    username: Seq<char>,
    times: Seq<u64>,
) -> Map<Seq<char>, Seq<u64>>
    decreases times.len(),
{
    if times.len() == 0 {
        log
    } else {
        with_failure(after_failures(log, username, times.drop_last()), username, times.last())
    }
}

/// What counts now also counted earlier: forgetting early loses nothing.
proof fn recent_twice(list: Seq<u64>, early: u64, now: u64)
    requires
        early <= now,
    ensures
        recent(recent(list, early, LOGIN_WINDOW), now, LOGIN_WINDOW) == recent(
            list,
            now,
            LOGIN_WINDOW,
        ),
    decreases list.len(),
{
    if list.len() > 0 {
        recent_twice(list.drop_last(), early, now);
        let lead = recent(list.drop_last(), early, LOGIN_WINDOW);
        if counts(list.last(), early, LOGIN_WINDOW) {
            assert(lead.push(list.last()).drop_last() =~= lead);
        }
    }
}

/// The failures that count after recording are those that counted before and
/// the new ones.
proof fn failures_add_up(
    log: Map<Seq<char>, Seq<u64>>,
    username: Seq<char>,
    times: Seq<u64>,
    now: u64,
)
    requires
        forall|i: int| 0 <= i < times.len() ==> #[trigger] times[i] <= now && now - times[i]
            < LOGIN_WINDOW,
    ensures
        recent(
            failures_in(after_failures(log, username, times), lowered(username)),
            now,
            LOGIN_WINDOW,
        ) == recent(failures_in(log, lowered(username)), now, LOGIN_WINDOW) + times,
    decreases times.len(),
{
    let key = lowered(username);
    let start = recent(failures_in(log, key), now, LOGIN_WINDOW);
    if times.len() == 0 {
        assert(start + times =~= start);
    } else {
        let head = times.drop_last();
        let t = times.last();
        assert(t == times[times.len() - 1]);
        assert forall|i: int| 0 <= i < head.len() implies #[trigger] head[i] <= now && now
            - head[i] < LOGIN_WINDOW by {
            assert(head[i] == times[i]);
        }
        failures_add_up(log, username, head, now);
        let before = failures_in(after_failures(log, username, head), key);
        let kept = recent(before, t, LOGIN_WINDOW);
        recent_twice(before, t, now);
        assert(kept.push(t).drop_last() =~= kept);
        assert(start + times =~= (start + head).push(t));
    }
}

/// An identity is locked out as soon as ten failures fall into the window,
/// and not before: each recorded failure counts once.
pub proof fn ten_recent_failures_lock(
    log: Map<Seq<char>, Seq<u64>>,
    username: Seq<char>,
    times: Seq<u64>,
    now: u64,
)
    requires
        forall|i: int| 0 <= i < times.len() ==> #[trigger] times[i] <= now && now - times[i]
            < LOGIN_WINDOW,
    ensures
        locked(after_failures(log, username, times), username, now) <==> recent(
            failures_in(log, lowered(username)),
            now,
            LOGIN_WINDOW,
        ).len() + times.len() >= LOGIN_MAX_FAILURES,
{
    failures_add_up(log, username, times, now);
}

/// A successful login clears the way: the identity is not locked out.
pub proof fn clearing_unlocks(log: Map<Seq<char>, Seq<u64>>, username: Seq<char>, now: u64)
    ensures
        !locked(log.remove(lowered(username)), username, now),
{
}

/// The window drains: once all failures are older than it, the identity is
/// not locked out.
pub proof fn old_failures_unlock(log: Map<Seq<char>, Seq<u64>>, username: Seq<char>, now: u64)
    requires
        forall|i: int|
            0 <= i < failures_in(log, lowered(username)).len() ==> now - #[trigger] failures_in(
                log,
                lowered(username),
            )[i] >= LOGIN_WINDOW,
    ensures
        !locked(log, username, now),
{
    none_recent(failures_in(log, lowered(username)), now);
}

proof fn none_recent(list: Seq<u64>, now: u64)
    requires
        forall|i: int| 0 <= i < list.len() ==> now - #[trigger] list[i] >= LOGIN_WINDOW,
    ensures
        recent(list, now, LOGIN_WINDOW).len() == 0,
    decreases list.len(),
{
    if list.len() > 0 {
        let head = list.drop_last();
        assert forall|i: int| 0 <= i < head.len() implies now - #[trigger] head[i]
            >= LOGIN_WINDOW by {
            assert(head[i] == list[i]);
        }
        none_recent(head, now);
        assert(list.last() == list[list.len() - 1]);
    }
}

/// Names that differ only in ASCII case are one identity.
pub proof fn identities_ignore_case(
    log: Map<Seq<char>, Seq<u64>>,
    a: Seq<char>,
    b: Seq<char>,
    now: u64,
)
    requires
        lowered(a) == lowered(b),
    ensures
        locked(log, a, now) == locked(log, b, now),
        with_failure(log, a, now) == with_failure(log, b, now),
        log.remove(lowered(a)) == log.remove(lowered(b)),
{
}

/// The failures of one identity do not touch another.
pub proof fn identities_are_separate(
    log: Map<Seq<char>, Seq<u64>>,
    a: Seq<char>,
    b: Seq<char>,
    at: u64,
    now: u64,
)
    requires
        lowered(a) != lowered(b),
    ensures
        locked(with_failure(log, a, at), b, now) == locked(log, b, now),
        locked(refreshed(log, a, at), b, now) == locked(log, b, now),
        locked(log.remove(lowered(a)), b, now) == locked(log, b, now),
{
}

/// What is known of the account behind a login.
#[derive(Debug)]
pub enum Account {
    /// There is none.
    Missing,
    /// It could not be looked up.
    Failed(AppError),
    /// It exists. An account that is disabled or has no password cannot be
    /// logged into; otherwise the password was right or wrong.
    Found { disabled: bool, has_password: bool, password_ok: bool },
}

/// What a login comes to.
#[derive(Debug)]
pub enum LoginVerdict {
    Accepted,
    /// Refused; a wrong password or a closed account is also written to the
    /// audit log.
    Refused { error: AppError, audited: bool },
}

/// Whether the account lets the password in.
pub open spec fn password_accepted(account: Account) -> bool {
    account matches Account::Found { disabled, has_password, password_ok } && !disabled
        && has_password && password_ok
}

/// What a login of an identity that is not locked out comes to. A closed
/// account, a wrong password and a failed second factor count as failures; an
/// account that does not exist does not. Success clears the failures.
pub fn login(
    log: &mut FailureLog,
    username: &str,
    now: u64,
    account: Account,
    second_factor: Result<(), AppError>,
) -> (r: LoginVerdict)
    ensures
        match account {
            Account::Missing => {
                &&& r matches LoginVerdict::Refused { error, audited }
                &&& error@ == Failure::Unauthorized
                &&& !audited
                &&& final(log)@ == old(log)@
            },
            Account::Failed(e) => {
                &&& r matches LoginVerdict::Refused { error, audited }
                &&& error == e
                &&& !audited
                &&& final(log)@ == old(log)@
            },
            Account::Found { .. } => if !password_accepted(account) {
                &&& r matches LoginVerdict::Refused { error, audited }
                &&& error@ == Failure::Unauthorized
                &&& audited
                &&& final(log)@ == with_failure(old(log)@, username@, now)
            } else {
                match second_factor {
                    Err(e) => {
                        &&& r matches LoginVerdict::Refused { error, audited }
                        &&& error == e
                        &&& !audited
                        &&& final(log)@ == with_failure(old(log)@, username@, now)
                    },
                    Ok(_) => {
                        &&& r is Accepted
                        &&& final(log)@ == old(log)@.remove(lowered(username@))
                    },
                }
            },
        },
{
    match account {
        Account::Missing => LoginVerdict::Refused {
            error: AppError::unauthorized(),
            audited: false,
        },
        Account::Failed(error) => LoginVerdict::Refused { error, audited: false },
        Account::Found { disabled, has_password, password_ok } => {
            if disabled || !has_password || !password_ok {
                record_login_failure(log, username, now);
                return LoginVerdict::Refused { error: AppError::unauthorized(), audited: true };
            }
            match second_factor {
                Err(error) => {
                    record_login_failure(log, username, now);
                    LoginVerdict::Refused { error, audited: false }
                },
                Ok(_) => {
                    clear_login_failures(log, username);
                    LoginVerdict::Accepted
                },
            }
        },
    }
}

/// Whether the second factor lets a login pass. An account without a
/// confirmed one asks for nothing. A recovery code that could be used up is
/// enough; otherwise the secret must be readable and the code right.
pub fn verify_totp_gate(
    confirmed: bool,
    recovery_used: bool,
    secret: Option<Result<(), String>>,
    code_ok: Option<bool>,
) -> (r: Result<(), AppError>)
    ensures
        if !confirmed || recovery_used {
            r is Ok
        } else {
            match secret {
                None => r matches Err(e) && e@ == Failure::Unauthorized,
                Some(Err(m)) => r matches Err(e) && e@ == Failure::Internal(m@),
                Some(Ok(_)) => match r {
                    Ok(_) => code_ok == Some(true),
                    Err(e) => code_ok != Some(true) && e@ == Failure::Unauthorized,
                },
            }
        },
{
    if !confirmed || recovery_used {
        return Ok(());
    }
    match secret {
        None => Err(AppError::unauthorized()),
        Some(Err(m)) => Err(AppError::internal(m)),
        Some(Ok(_)) => match code_ok {
            Some(true) => Ok(()),
            _ => Err(AppError::unauthorized()),
        },
    }
}

} // verus!
