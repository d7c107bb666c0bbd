//! Passkeys: the store of pending ceremonies, each good for one use within
//! ten minutes.

use std::collections::HashMap;

use vstd::prelude::*;

use crate::auth::UserRow;
use crate::error::{AppError, Failure};
use crate::ids::{id_string, id_text, new_id, random_form};
use crate::json::{
    empty_object, instant_or_null, json_opt_instant, json_or_null, text_or_null, Json, Value,
};
use crate::text::opt_view;
use crate::time::{json_instant, json_instant_of, now, Instant};

verus! {

/// Nanoseconds for which a challenge is good.
pub const CHALLENGE_TTL: i128 = 600_000_000_000;

/// What a pending challenge is for, with what is needed to finish it.
pub enum Ceremony<R, L> {
    Register(R),
    Login(L),
}

broadcast use vstd::std_specs::hash::group_hash_axioms;

/// The pending challenges, by identifier.
pub struct PasskeyStore<C> {
    entries: HashMap<u128, (C, Instant)>,
}

impl<C> View for PasskeyStore<C> {
    type V = Map<u128, (C, Instant)>;

    closed spec fn view(&self) -> Map<u128, (C, Instant)> {
        self.entries@
    }
}

/// Whether a challenge of this time is still good.
pub open spec fn fresh(at: Instant, now: Instant) -> bool {
    at.ticks() > now.ticks() - CHALLENGE_TTL
}

/// The challenges that are still good.
pub open spec fn fresh_only<C>(m: Map<u128, (C, Instant)>, now: Instant) -> Map<
    u128,
    (C, Instant),
> {
    m.restrict(Set::new(|id: u128| m.dom().contains(id) && fresh(m[id].1, now)))
}

/// The challenges once one more is kept.
pub open spec fn kept<C>(m: Map<u128, (C, Instant)>, id: u128, ceremony: C, now: Instant) -> Map<
    u128,
    (C, Instant),
> {
    fresh_only(m, now).insert(id, (ceremony, now))
}

/// What taking a challenge gives.
pub open spec fn taken<C>(m: Map<u128, (C, Instant)>, id: u128, now: Instant) -> Option<C> {
    if m.dom().contains(id) && fresh(m[id].1, now) {
        Some(m[id].0)
    } else {
        None
    }
}

impl<C> PasskeyStore<C> {
    /// All times are readings of a clock.
    pub open spec fn wf(&self) -> bool {
        forall|id: u128| #[trigger] self@.dom().contains(id) ==> self@[id].1.steady()
    }

    /// A store without challenges.
    pub fn new() -> (r: Self)
        ensures
            r.wf(),
            r@ == Map::<u128, (C, Instant)>::empty(),
    {
        PasskeyStore { entries: HashMap::new() }
    }

    /// The identifiers of the challenges that are no longer good.
    fn stale(&self, now: Instant) -> (r: Vec<u128>)
        requires
            self.wf(),
            now.steady(),
        ensures
            forall|id: u128| #[trigger]
                r@.contains(id) <==> self@.dom().contains(id) && !fresh(self@[id].1, now),
    {
        let limit: i128 = now.to_ticks() - CHALLENGE_TTL;
        let mut out: Vec<u128> = Vec::new();
        let ghost mut seen: Seq<u128> = Seq::empty();
        for id in it: self.entries.keys()
            invariant
                self.wf(),
                limit == now.ticks() - CHALLENGE_TTL,
                seen == it.seq().unref().take(it.index() as int),
                it.seq().unref().to_set() == self@.dom(),
                it.index() == it.seq().len() ==> seen.to_set() == self@.dom(),
                forall|id: u128| #[trigger]
                    out@.contains(id) <==> seen.contains(id) && self@.dom().contains(id) && !fresh(
                        self@[id].1,
                        now,
                    ),
        {
            let ghost k = it.index() as int;
            let ghost all = it.seq().unref();
            assert(all[k] == *id);
            assert(all.to_set().contains(*id));
            let ghost before = seen;
            let ghost lead = out@;
            proof {
                seen = before.push(*id);
                assert(seen =~= all.take(k + 1));
                if k + 1 == all.len() {
                    assert(seen =~= all);
                }
                assert forall|x: u128| #[trigger] seen.contains(x) <==> before.contains(x) || x
                    == *id by {
                    if before.contains(x) {
                        let i = choose|i: int| 0 <= i < before.len() && before[i] == x;
                        assert(seen[i] == x);
                    }
                    if x == *id {
                        assert(seen[k] == x);
                    }
                }
            }
            if let Some(entry) = self.entries.get(id) {
                if entry.1.to_ticks() <= limit {
                    out.push(*id);
                    assert forall|x: u128| #[trigger] out@.contains(x) <==> lead.contains(x) || x
                        == *id by {
                        if lead.contains(x) {
                            let i = choose|i: int| 0 <= i < lead.len() && lead[i] == x;
                            assert(out@[i] == x);
                        }
                        if x == *id {
                            assert(out@[lead.len() as int] == x);
                        }
                    }
                }
            }
        }
        assert forall|id: u128| #[trigger]
            out@.contains(id) <==> self@.dom().contains(id) && !fresh(self@[id].1, now) by {
            if self@.dom().contains(id) {
                assert(seen.to_set().contains(id));
            }
        }
        out
    }

    /// Keeps a challenge under a new identifier, and forgets those that are
    /// no longer good.
    pub fn insert_at(&mut self, id: u128, ceremony: C, now: Instant)
        requires
            old(self).wf(),
            now.steady(),
        ensures
            final(self).wf(),
            final(self)@ == kept(old(self)@, id, ceremony, now),
    {
        let ghost before = self@;
        let stale = self.stale(now);
        let mut i: usize = 0;
        while i < stale.len()
            invariant
                i <= stale@.len(),
                before == old(self)@,
                forall|x: u128| #[trigger]
                    stale@.contains(x) <==> before.dom().contains(x) && !fresh(before[x].1, now),
                forall|x: u128| #[trigger]
                    self@.dom().contains(x) <==> before.dom().contains(x) && !stale@.take(
                        i as int,
                    ).contains(x),
                forall|x: u128| #[trigger]
                    self@.dom().contains(x) ==> self@[x] == before[x],
            decreases stale@.len() - i,
        {
            let stale_id: u128 = stale[i];
            let ghost prev = self@;
            self.entries.remove(&stale_id);
            assert(self@ == prev.remove(stale_id));
            proof {
                let lead = stale@.take(i as int);
                let next = stale@.take(i + 1);
                assert(next =~= lead.push(stale@[i as int]));
                assert forall|x: u128| #[trigger] next.contains(x) <==> lead.contains(x) || x
                    == stale@[i as int] by {
                    if lead.contains(x) {
                        let j = choose|j: int| 0 <= j < lead.len() && lead[j] == x;
                        assert(next[j] == x);
                    }
                    if x == stale@[i as int] {
                        assert(next[i as int] == x);
                    }
                }
            }
            i = i + 1;
        }
        assert(stale@.take(stale@.len() as int) =~= stale@);
        assert(self@ =~= fresh_only(before, now));
        self.entries.insert(id, (ceremony, now));
    }

    /// Keeps a challenge under a fresh identifier, and forgets those that are
    /// no longer good.
    pub fn insert(&mut self, ceremony: C) -> (r: u128)
        requires
            old(self).wf(),
        ensures
            final(self).wf(),
            random_form(r),
            exists|now: Instant|
                now.steady() && now.secs >= 0 && final(self)@ == #[trigger] kept(
                    old(self)@,
                    r,
                    ceremony,
                    now,
                ),
    {
        let id: u128 = new_id();
        let now = now();
        self.insert_at(id, ceremony, now);
        id
    }

    /// Takes a challenge out for its one use, by the time on the clock.
    pub fn take(&mut self, id: u128) -> (r: Option<C>)
        requires
            old(self).wf(),
        ensures
            final(self).wf(),
            final(self)@ == old(self)@.remove(id),
            exists|now: Instant|
                now.steady() && now.secs >= 0 && r == #[trigger] taken(old(self)@, id, now),
    {
        let now = now();
        self.take_at(id, now)
    }

    /// Takes a challenge out for its one use; one that is no longer good is
    /// as good as none.
    pub fn take_at(&mut self, id: u128, now: Instant) -> (r: Option<C>)
        requires
            old(self).wf(),
            now.steady(),
        ensures
            final(self).wf(),
            final(self)@ == old(self)@.remove(id),
            r == taken(old(self)@, id, now),
    {
        match self.entries.remove(&id) {
            Some((c, at)) => {
                let limit: i128 = now.to_ticks() - CHALLENGE_TTL;
                if at.to_ticks() > limit {
                    Some(c)
                } else {
                    None
                }
            },
            None => None,
        }
    }
}

/// The state to finish a registration with.
pub fn registration<R, L>(taken: Option<Ceremony<R, L>>) -> (r: Result<R, AppError>)
    ensures
        match taken {
            None => r matches Err(e) && e@ == Failure::BadRequest("unknown or expired challenge"@),
            Some(Ceremony::Register(state)) => r matches Ok(s) && s == state,
            Some(Ceremony::Login(_)) => r matches Err(e) && e@ == Failure::BadRequest(
                "challenge is not a registration"@,
            ),
        },
{
    match taken {
        None => Err(AppError::invalid("unknown or expired challenge")),
        Some(Ceremony::Register(state)) => Ok(state),
        Some(Ceremony::Login(_)) => Err(AppError::invalid("challenge is not a registration")),
    }
}

/// The state to finish a login with.
pub fn authentication<R, L>(taken: Option<Ceremony<R, L>>) -> (r: Result<L, AppError>)
    ensures
        match taken {
            None => r matches Err(e) && e@ == Failure::BadRequest("unknown or expired challenge"@),
            Some(Ceremony::Login(state)) => r matches Ok(s) && s == state,
            Some(Ceremony::Register(_)) => r matches Err(e) && e@ == Failure::BadRequest(
                "challenge is not a login"@,
            ),
        },
{
    match taken {
        None => Err(AppError::invalid("unknown or expired challenge")),
        Some(Ceremony::Login(state)) => Ok(state),
        Some(Ceremony::Register(_)) => Err(AppError::invalid("challenge is not a login")),
    }
}

/// Refuses to finish a login with a credential that no account has, or of an
/// account that is disabled. `disabled` is missing where there is no account.
pub fn passkey_login_finish(disabled: Option<bool>) -> (r: Result<(), AppError>)
    ensures
        match r {
            Ok(_) => disabled == Some(false),
            Err(e) => disabled != Some(false) && e@ == Failure::Unauthorized,
        },
{
    match disabled {
        Some(false) => Ok(()),
        _ => Err(AppError::unauthorized()),
    }
}

/// A new challenge, as it goes to the authenticator.
pub fn passkey_challenge_view(id: u128, challenge: Json) -> (r: Json)
    ensures
        r@ == empty_object().set("challenge_id"@, Value::Text(id_text(id))).set(
            "challenge"@,
            challenge@,
        ),
{
    Json::object().with("challenge_id", Json::Text(id_string(id))).with("challenge", challenge)
}

/// The answer to the registration of a passkey.
pub fn passkey_registered_view(id: u128, name: &Option<String>) -> (r: Json)
    ensures
        r@ == empty_object().set("id"@, Value::Text(id_text(id))).set(
            "name"@,
            text_or_null(opt_view(*name)),
        ),
{
    Json::object().with("id", Json::Text(id_string(id))).with("name", json_or_null(name))
}

/// The answer to a login by passkey. It leaves out how the account is
/// notified.
pub fn passkey_session_view(csrf_token: &str, user: &UserRow) -> (r: Json)
    ensures
        r@ == empty_object().set("csrf_token"@, Value::Text(csrf_token@)).set(
            "user"@,
            empty_object()
                .set("id"@, Value::Text(id_text(user.id)))
                .set("username"@, Value::Text(user.username@))
                .set("email"@, Value::Text(user.email@))
                .set("display_name"@, text_or_null(opt_view(user.display_name)))
                .set("is_admin"@, Value::Bool(user.is_admin)),
        ),
{
    let user = Json::object()
        .with("id", Json::Text(id_string(user.id)))
        .with("username", Json::Text(user.username.clone()))
        .with("email", Json::Text(user.email.clone()))
        .with("display_name", json_or_null(&user.display_name))
        .with("is_admin", Json::Bool(user.is_admin));
    Json::object().with("csrf_token", Json::string(csrf_token)).with("user", user)
}

/// A passkey, as lists show it.
pub fn passkey_view(
    id: u128,
    name: &Option<String>,
    created_at: Instant,
    last_used_at: Option<Instant>,
) -> (r: Json)
    requires
        created_at.wf(),
        last_used_at matches Some(at) ==> at.wf(),
    ensures
        r@ == empty_object()
            .set("id"@, Value::Text(id_text(id)))
            .set("name"@, text_or_null(opt_view(*name)))
            .set("created_at"@, Value::Text(json_instant(created_at)))
            .set("last_used_at"@, instant_or_null(last_used_at)),
{
    Json::object()
        .with("id", Json::Text(id_string(id)))
        .with("name", json_or_null(name))
        .with("created_at", Json::Text(json_instant_of(created_at)))
        .with("last_used_at", json_opt_instant(last_used_at))
}

/// A challenge can be taken once: behind the first use there is none, however
/// soon.
pub proof fn challenges_are_single_use<C>(m: Map<u128, (C, Instant)>, id: u128, later: Instant)
    ensures
        taken(m.remove(id), id, later) is None,
{
}

/// A challenge that is kept can be taken for ten minutes and no longer.
pub proof fn challenges_expire<C>(
    m: Map<u128, (C, Instant)>,
    id: u128,
    ceremony: C,
    now: Instant,
    later: Instant,
)
    ensures
        taken(kept(m, id, ceremony, now), id, later) == if later.ticks() - now.ticks()
            < CHALLENGE_TTL {
            Some(ceremony)
        } else {
            None
        },
{
}

/// Keeping or taking one challenge leaves what the others give as it is.
pub proof fn other_challenges_stay<C>(
    m: Map<u128, (C, Instant)>,
    id: u128,
    other: u128,
    ceremony: C,
    now: Instant,
    later: Instant,
)
    requires
        id != other,
        now.ticks() <= later.ticks(),
    ensures
        taken(m.remove(id), other, later) == taken(m, other, later),
        taken(kept(m, id, ceremony, now), other, later) == taken(m, other, later),
{
}

} // verus!
