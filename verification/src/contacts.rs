//! Contacts: what a request may hold, how contacts are shown, and what
//! address books report to clients.

use vstd::prelude::*;

use crate::dav::{change_views, SyncChange, SyncChangeSpec};
use crate::error::{AppError, Failure};
use crate::ids::{id_string, id_text};
use crate::json::{
    empty_object, id_or_null, int_value, json_int, json_opt_id, json_or_null, text_or_null, values,
    Json, Value,
};
use crate::text::{
    contains, integer_of, integer_text, integer_value, occurs, opt_view, parse_i64, same, split,
    split_on, to_unicode_lower, trim, trimmed, unicode_lower, views,
};
use crate::time::{json_instant, json_instant_of, Instant};

verus! {

/// What a contact is.
#[derive(Clone, Copy, Debug, PartialEq, Eq, Structural)]
pub enum ContactKind {
    Individual,
    Group,
}

impl ContactKind {
    /// The name that a kind is stored under.
    pub open spec fn name_spec(self) -> Seq<char> {
        match self {
            ContactKind::Individual => "individual"@,
            ContactKind::Group => "group"@,
        }
    }

    /// The name that a kind is stored under.
    pub fn name(self) -> (r: &'static str)
        ensures
            r@ == self.name_spec(),
    {
        match self {
            ContactKind::Individual => "individual",
            ContactKind::Group => "group",
        }
    }
}

/// Only the owner of an address book may use it.
pub fn require_owner(owner: u128, user: u128) -> (r: Result<(), AppError>)
    ensures
        match r {
            Ok(_) => owner == user,
            Err(e) => owner != user && e@ == Failure::Forbidden,
        },
{
    if owner == user {
        Ok(())
    } else {
        Err(AppError::Forbidden)
    }
}

/// What a new contact is, or why it is refused: it needs a name, and is an
/// individual unless it says that it is a group.
pub fn create_contact(full_name: &str, kind: &Option<String>) -> (r: Result<ContactKind, AppError>)
    ensures
        if trim(full_name@).len() == 0 {
            r matches Err(e) && e@ == Failure::BadRequest("full_name is required"@)
        } else {
            match r {
                Ok(k) => match opt_view(*kind) {
                    None => k == ContactKind::Individual,
                    Some(s) => s == k.name_spec(),
                },
                Err(e) => e@ == Failure::BadRequest("kind must be individual or group"@) && (
                opt_view(*kind) matches Some(s) && s != "individual"@ && s != "group"@),
            }
        },
{
    if trimmed(full_name).as_str().is_empty() {
        return Err(AppError::invalid("full_name is required"));
    }
    match kind {
        None => Ok(ContactKind::Individual),
        Some(s) => {
            if same(s.as_str(), "individual") {
                Ok(ContactKind::Individual)
            } else if same(s.as_str(), "group") {
                Ok(ContactKind::Group)
            } else {
                Err(AppError::invalid("kind must be individual or group"))
            }
        },
    }
}

/// Refuses an address book with a wrong slug, or with the one that the
/// directory has.
pub fn check_book_slug(slug_error: Option<String>, slug: &str, reserved: &str) -> (r: Result<
    (),
    AppError,
>)
    ensures
        match slug_error {
            Some(m) => r matches Err(e) && e@ == Failure::BadRequest(m@),
            None => match r {
                Ok(_) => slug@ != reserved@,
                Err(e) => slug@ == reserved@ && e@ == Failure::BadRequest("that slug is reserved"@),
            },
        },
{
    match slug_error {
        Some(m) => Err(AppError::bad_request(m)),
        None => {
            if same(slug, reserved) {
                Err(AppError::invalid("that slug is reserved"))
            } else {
                Ok(())
            }
        },
    }
}

/// A member of a group, by the contact's identifier and, where the contact
/// was found, its UID.
#[derive(Debug)]
pub struct MemberContact {
    pub id: u128,
    pub uid: Option<String>,
}

/// The first member that was not found.
pub open spec fn missing_member(list: Seq<MemberContact>) -> Option<u128>
    decreases list.len(),
{
    if list.len() == 0 {
        None
    } else {
        match missing_member(list.drop_last()) {
            Some(id) => Some(id),
            None => if list.last().uid is None {
                Some(list.last().id)
            } else {
                None
            },
        }
    }
}

/// The addresses of the members of a group: contacts first, then users.
pub open spec fn member_uris(contacts: Seq<MemberContact>, users: Seq<u128>) -> Seq<Seq<char>> {
    Seq::new(
        contacts.len(),
        |i: int|
            "urn:uuid:"@ + match contacts[i].uid {
                Some(uid) => uid@,
                None => Seq::empty(),
            },
    ) + Seq::new(users.len(), |i: int| "urn:uuid:"@ + id_text(users[i]))
}

proof fn missing_member_stays(list: Seq<MemberContact>, n: int)
    requires
        0 <= n <= list.len(),
        missing_member(list.take(n)) is Some,
    ensures
        missing_member(list) == missing_member(list.take(n)),
    decreases list.len(),
{
    if n == list.len() {
        assert(list.take(n) =~= list);
    } else {
        assert(list.drop_last().take(n) =~= list.take(n));
        missing_member_stays(list.drop_last(), n);
    }
}

/// The addresses of the members of a group, if all contacts were found.
pub fn group_member_uris(contacts: &Vec<MemberContact>, users: &Vec<u128>) -> (r: Result<
    Vec<String>,
    AppError,
>)
    ensures
        match r {
            Ok(out) => missing_member(contacts@) is None && views(out@) == member_uris(
                contacts@,
                users@,
            ),
            Err(e) => missing_member(contacts@) matches Some(id) && e@ == Failure::BadRequest(
                "member contact "@ + id_text(id) + " not found"@,
            ),
        },
{
    let ghost all = member_uris(contacts@, users@);
    let mut out: Vec<String> = Vec::new();
    let mut i: usize = 0;
    assert(views(out@) =~= all.take(0));
    while i < contacts.len()
        invariant
            i <= contacts@.len(),
            all == member_uris(contacts@, users@),
            out@.len() == i,
            views(out@) == all.take(i as int),
            missing_member(contacts@.take(i as int)) is None,
        decreases contacts@.len() - i,
    {
        assert(contacts@.take(i + 1).drop_last() =~= contacts@.take(i as int));
        match &contacts[i].uid {
            Some(uid) => {
                let uri = "urn:uuid:".to_owned().concat(uid.as_str());
                assert(uri@ == all[i as int]);
                out.push(uri);
                assert(views(out@) =~= all.take(i + 1));
            },
            None => {
                proof {
                    missing_member_stays(contacts@, i + 1);
                }
                let id = id_string(contacts[i].id);
                return Err(
                    AppError::bad_request(
                        "member contact ".to_owned().concat(id.as_str()).concat(" not found"),
                    ),
                );
            },
        }
        i = i + 1;
    }
    assert(contacts@.take(contacts@.len() as int) =~= contacts@);
    let n: usize = contacts.len();
    let mut k: usize = 0;
    while k < users.len()
        invariant
            k <= users@.len(),
            n == contacts@.len(),
            all == member_uris(contacts@, users@),
            out@.len() == n + k,
            views(out@) == all.take(n + k),
        decreases users@.len() - k,
    {
        let id = id_string(users[k]);
        let uri = "urn:uuid:".to_owned().concat(id.as_str());
        assert(uri@ == all[n + k]);
        out.push(uri);
        assert(views(out@) =~= all.take(n + k + 1));
        k = k + 1;
    }
    assert(all.take(all.len() as int) =~= all);
    Ok(out)
}

/// A member of the directory.
#[derive(Debug)]
pub struct DirectoryEntry {
    pub user_id: u128,
    pub username: String,
    pub email: String,
    pub display_name: Option<String>,
    pub updated_at: Instant,
}

/// Whether a member of the directory answers to what was typed, by name,
/// address or display name, case aside.
pub open spec fn answers_to(e: DirectoryEntry, q: Seq<char>) -> bool {
    let needle = unicode_lower(q);
    ||| occurs(unicode_lower(e.username@), needle)
    ||| occurs(unicode_lower(e.email@), needle)
    ||| e.display_name matches Some(n) && occurs(unicode_lower(n@), needle)
}

/// The places of the first members that answer to what was typed, at most so
/// many.
pub open spec fn answering(list: Seq<DirectoryEntry>, q: Seq<char>, limit: int) -> Seq<int>
    decreases list.len(),
{
    if list.len() == 0 {
        Seq::empty()
    } else {
        let lead = answering(list.drop_last(), q, limit);
        if lead.len() < limit && answers_to(list.last(), q) {
            lead.push(list.len() - 1)
        } else {
            lead
        }
    }
}

/// Whether a member of the directory answers to what was typed.
fn entry_answers(e: &DirectoryEntry, needle: &str) -> (r: bool)
    ensures
        r == (occurs(unicode_lower(e.username@), needle@) || occurs(
            unicode_lower(e.email@),
            needle@,
        ) || (e.display_name matches Some(n) && occurs(unicode_lower(n@), needle@))),
{
    let username = to_unicode_lower(e.username.as_str());
    let email = to_unicode_lower(e.email.as_str());
    let by_name = match &e.display_name {
        Some(n) => {
            let name = to_unicode_lower(n.as_str());
            contains(name.as_str(), needle)
        },
        None => false,
    };
    contains(username.as_str(), needle) || contains(email.as_str(), needle) || by_name
}

/// The places of the first ten members of the directory that answer to what
/// was typed.
pub fn autocomplete(list: &Vec<DirectoryEntry>, q: &str) -> (r: Vec<usize>)
    ensures
        Seq::new(r@.len(), |i: int| r@[i] as int) == answering(list@, q@, 10),
        r@.len() <= 10,
{
    let needle = to_unicode_lower(q);
    let mut out: Vec<usize> = Vec::new();
    let mut i: usize = 0;
    assert(Seq::new(out@.len(), |k: int| out@[k] as int) =~= answering(list@.take(0), q@, 10));
    while i < list.len()
        invariant
            i <= list@.len(),
            needle@ == unicode_lower(q@),
            out@.len() <= 10,
            Seq::new(out@.len(), |k: int| out@[k] as int) == answering(
                list@.take(i as int),
                q@,
                10,
            ),
        decreases list@.len() - i,
    {
        assert(list@.take(i + 1).drop_last() =~= list@.take(i as int));
        let ghost lead = Seq::new(out@.len(), |k: int| out@[k] as int);
        if out.len() < 10 && entry_answers(&list[i], needle.as_str()) {
            out.push(i);
            assert(Seq::new(out@.len(), |k: int| out@[k] as int) =~= lead.push(i as int));
        }
        i = i + 1;
    }
    assert(list@.take(list@.len() as int) =~= list@);
    out
}

/// A member of the directory, as views show them.
pub open spec fn directory_value(e: DirectoryEntry) -> Value {
    empty_object()
        .set("id"@, Value::Text(id_text(e.user_id)))
        .set("user_id"@, Value::Text(id_text(e.user_id)))
        .set("kind"@, Value::Text("individual"@))
        .set("directory"@, Value::Bool(true))
        .set(
            "full_name"@,
            Value::Text(
                match e.display_name {
                    Some(n) => n@,
                    None => e.username@,
                },
            ),
        )
        .set(
            "emails"@,
            Value::Array(
                seq![
                    empty_object().set("email"@, Value::Text(e.email@)).set(
                        "kind"@,
                        Value::Text("work"@),
                    ).set("is_primary"@, Value::Bool(true)),
                ],
            ),
        )
        .set("tels"@, Value::Array(Seq::empty()))
        .set("members"@, Value::Array(Seq::empty()))
        .set("updated_at"@, Value::Text(json_instant(e.updated_at)))
}

/// An empty list.
fn no_items() -> (r: Json)
    ensures
        r@ == Value::Array(Seq::empty()),
{
    let none: Vec<Json> = Vec::new();
    assert(values(none@) =~= Seq::<Value>::empty());
    Json::Array(none)
}

/// A member of the directory, as views show them.
pub fn directory_entry_json(e: &DirectoryEntry) -> (r: Json)
    requires
        e.updated_at.wf(),
    ensures
        r@ == directory_value(*e),
{
    let full_name = match &e.display_name {
        Some(n) => n.clone(),
        None => e.username.clone(),
    };
    let mut emails: Vec<Json> = Vec::new();
    let email = Json::object().with("email", Json::Text(e.email.clone())).with(
        "kind",
        Json::string("work"),
    ).with("is_primary", Json::Bool(true));
    emails.push(email);
    assert(values(emails@) =~= seq![email@]);
    Json::object()
        .with("id", Json::Text(id_string(e.user_id)))
        .with("user_id", Json::Text(id_string(e.user_id)))
        .with("kind", Json::string("individual"))
        .with("directory", Json::Bool(true))
        .with("full_name", Json::Text(full_name))
        .with("emails", Json::Array(emails))
        .with("tels", no_items())
        .with("members", no_items())
        .with("updated_at", Json::Text(json_instant_of(e.updated_at)))
}

/// A stored contact.
#[derive(Debug)]
pub struct ContactRow {
    pub id: u128,
    pub address_book_id: u128,
    pub uid: String,
    pub kind: String,
    pub full_name: String,
    pub given_name: Option<String>,
    pub family_name: Option<String>,
    pub org: Option<String>,
    pub title: Option<String>,
    pub street_address: Option<String>,
    pub locality: Option<String>,
    pub region: Option<String>,
    pub postal_code: Option<String>,
    pub country: Option<String>,
    pub photo_mime: Option<String>,
    pub etag: String,
    pub updated_at: Instant,
}

/// An address of a contact.
#[derive(Debug)]
pub struct ContactEmail {
    pub email: String,
    pub kind: Option<String>,
    pub is_primary: bool,
}

/// A telephone number of a contact.
#[derive(Debug)]
pub struct ContactTel {
    pub number: String,
    pub kind: Option<String>,
    pub is_mobile: bool,
    pub is_primary: bool,
}

/// A member of a group.
#[derive(Debug)]
pub struct ContactMember {
    pub contact_id: Option<u128>,
    pub user_id: Option<u128>,
    pub full_name: String,
}

/// An address of a contact, as views show it.
pub open spec fn email_value(e: ContactEmail) -> Value {
    empty_object().set("email"@, Value::Text(e.email@)).set(
        "kind"@,
        text_or_null(opt_view(e.kind)),
    ).set("is_primary"@, Value::Bool(e.is_primary))
}

/// A telephone number of a contact, as views show it.
pub open spec fn tel_value(t: ContactTel) -> Value {
    empty_object().set("number"@, Value::Text(t.number@)).set(
        "kind"@,
        text_or_null(opt_view(t.kind)),
    ).set("is_mobile"@, Value::Bool(t.is_mobile)).set("is_primary"@, Value::Bool(t.is_primary))
}

/// A member of a group, as views show them.
pub open spec fn member_value(m: ContactMember) -> Value {
    empty_object().set("contact_id"@, id_or_null(m.contact_id)).set(
        "user_id"@,
        id_or_null(m.user_id),
    ).set("full_name"@, Value::Text(m.full_name@))
}

/// A contact, as views show it.
pub open spec fn contact_value(
    c: ContactRow,
    emails: Seq<ContactEmail>,
    tels: Seq<ContactTel>,
    members: Seq<ContactMember>,
) -> Value {
    empty_object()
        .set("id"@, Value::Text(id_text(c.id)))
        .set("address_book_id"@, Value::Text(id_text(c.address_book_id)))
        .set("uid"@, Value::Text(c.uid@))
        .set("kind"@, Value::Text(c.kind@))
        .set("full_name"@, Value::Text(c.full_name@))
        .set("given_name"@, text_or_null(opt_view(c.given_name)))
        .set("family_name"@, text_or_null(opt_view(c.family_name)))
        .set("org"@, text_or_null(opt_view(c.org)))
        .set("title"@, text_or_null(opt_view(c.title)))
        .set("street_address"@, text_or_null(opt_view(c.street_address)))
        .set("locality"@, text_or_null(opt_view(c.locality)))
        .set("region"@, text_or_null(opt_view(c.region)))
        .set("postal_code"@, text_or_null(opt_view(c.postal_code)))
        .set("country"@, text_or_null(opt_view(c.country)))
        .set("has_photo"@, Value::Bool(c.photo_mime is Some))
        .set("etag"@, Value::Text(c.etag@))
        .set("updated_at"@, Value::Text(json_instant(c.updated_at)))
        .set("emails"@, Value::Array(Seq::new(emails.len(), |i: int| email_value(emails[i]))))
        .set("tels"@, Value::Array(Seq::new(tels.len(), |i: int| tel_value(tels[i]))))
        .set("members"@, Value::Array(Seq::new(members.len(), |i: int| member_value(members[i]))))
}

fn emails_json(list: &Vec<ContactEmail>) -> (r: Json)
    ensures
        r@ == Value::Array(Seq::new(list@.len(), |i: int| email_value(list@[i]))),
{
    let mut items: Vec<Json> = Vec::new();
    let mut i: usize = 0;
    while i < list.len()
        invariant
            i <= list@.len(),
            items@.len() == i,
            forall|j: int| 0 <= j < i ==> (#[trigger] items@[j])@ == email_value(list@[j]),
        decreases list@.len() - i,
    {
        let e = &list[i];
        items.push(
            Json::object().with("email", Json::Text(e.email.clone())).with(
                "kind",
                json_or_null(&e.kind),
            ).with("is_primary", Json::Bool(e.is_primary)),
        );
        i = i + 1;
    }
    assert(values(items@) =~= Seq::new(list@.len(), |i: int| email_value(list@[i])));
    Json::Array(items)
}

fn tels_json(list: &Vec<ContactTel>) -> (r: Json)
    ensures
        r@ == Value::Array(Seq::new(list@.len(), |i: int| tel_value(list@[i]))),
{
    let mut items: Vec<Json> = Vec::new();
    let mut i: usize = 0;
    while i < list.len()
        invariant
            i <= list@.len(),
            items@.len() == i,
            forall|j: int| 0 <= j < i ==> (#[trigger] items@[j])@ == tel_value(list@[j]),
        decreases list@.len() - i,
    {
        let t = &list[i];
        items.push(
            Json::object().with("number", Json::Text(t.number.clone())).with(
                "kind",
                json_or_null(&t.kind),
            ).with("is_mobile", Json::Bool(t.is_mobile)).with(
                "is_primary",
                Json::Bool(t.is_primary),
            ),
        );
        i = i + 1;
    }
    assert(values(items@) =~= Seq::new(list@.len(), |i: int| tel_value(list@[i])));
    Json::Array(items)
}

fn members_json(list: &Vec<ContactMember>) -> (r: Json)
    ensures
        r@ == Value::Array(Seq::new(list@.len(), |i: int| member_value(list@[i]))),
{
    let mut items: Vec<Json> = Vec::new();
    let mut i: usize = 0;
    while i < list.len()
        invariant
            i <= list@.len(),
            items@.len() == i,
            forall|j: int| 0 <= j < i ==> (#[trigger] items@[j])@ == member_value(list@[j]),
        decreases list@.len() - i,
    {
        let m = &list[i];
        items.push(
            Json::object().with("contact_id", json_opt_id(m.contact_id)).with(
                "user_id",
                json_opt_id(m.user_id),
            ).with("full_name", Json::Text(m.full_name.clone())),
        );
        i = i + 1;
    }
    assert(values(items@) =~= Seq::new(list@.len(), |i: int| member_value(list@[i])));
    Json::Array(items)
}

/// A contact, as views show it.
pub fn contact_json(
    c: &ContactRow,
    emails: &Vec<ContactEmail>,
    tels: &Vec<ContactTel>,
    members: &Vec<ContactMember>,
) -> (r: Json)
    requires
        c.updated_at.wf(),
    ensures
        r@ == contact_value(*c, emails@, tels@, members@),
{
    Json::object()
        .with("id", Json::Text(id_string(c.id)))
        .with("address_book_id", Json::Text(id_string(c.address_book_id)))
        .with("uid", Json::Text(c.uid.clone()))
        .with("kind", Json::Text(c.kind.clone()))
        .with("full_name", Json::Text(c.full_name.clone()))
        .with("given_name", json_or_null(&c.given_name))
        .with("family_name", json_or_null(&c.family_name))
        .with("org", json_or_null(&c.org))
        .with("title", json_or_null(&c.title))
        .with("street_address", json_or_null(&c.street_address))
        .with("locality", json_or_null(&c.locality))
        .with("region", json_or_null(&c.region))
        .with("postal_code", json_or_null(&c.postal_code))
        .with("country", json_or_null(&c.country))
        .with("has_photo", Json::Bool(c.photo_mime.is_some()))
        .with("etag", Json::Text(c.etag.clone()))
        .with("updated_at", Json::Text(json_instant_of(c.updated_at)))
        .with("emails", emails_json(emails))
        .with("tels", tels_json(tels))
        .with("members", members_json(members))
}

/// The lines of an address book's report: every contact, then every contact
/// that was deleted.
pub open spec fn book_lines(contacts: Seq<(String, String)>, deleted: Seq<String>) -> Seq<
    SyncChangeSpec,
> {
    Seq::new(
        contacts.len(),
        |i: int|
            SyncChangeSpec {
                href_suffix: contacts[i].0@ + ".vcf"@,
                etag: Some(contacts[i].1@),
                deleted: false,
            },
    ) + Seq::new(
        deleted.len(),
        |i: int|
            SyncChangeSpec { href_suffix: deleted[i]@ + ".vcf"@, etag: None, deleted: true },
    )
}

/// The lines of an address book's report, from the UIDs and tags of its
/// contacts and the identifiers of the deleted ones.
pub fn book_changes(contacts: &Vec<(String, String)>, deleted: &Vec<String>) -> (r: Vec<SyncChange>)
    ensures
        change_views(r@) == book_lines(contacts@, deleted@),
{
    let ghost all = book_lines(contacts@, deleted@);
    let mut out: Vec<SyncChange> = Vec::new();
    let mut i: usize = 0;
    assert(change_views(out@) =~= all.take(0));
    while i < contacts.len()
        invariant
            i <= contacts@.len(),
            all == book_lines(contacts@, deleted@),
            out@.len() == i,
            change_views(out@) == all.take(i as int),
        decreases contacts@.len() - i,
    {
        let change = SyncChange {
            href_suffix: contacts[i].0.clone().concat(".vcf"),
            etag: Some(contacts[i].1.clone()),
            deleted: false,
        };
        assert(change@ == all[i as int]);
        out.push(change);
        assert(change_views(out@) =~= all.take(i + 1));
        i = i + 1;
    }
    let n: usize = contacts.len();
    let mut k: usize = 0;
    while k < deleted.len()
        invariant
            k <= deleted@.len(),
            n == contacts@.len(),
            all == book_lines(contacts@, deleted@),
            out@.len() == n + k,
            change_views(out@) == all.take(n + k),
        decreases deleted@.len() - k,
    {
        let change = SyncChange {
            href_suffix: deleted[k].clone().concat(".vcf"),
            etag: None,
            deleted: true,
        };
        assert(change@ == all[n + k]);
        out.push(change);
        assert(change_views(out@) =~= all.take(n + k + 1));
        k = k + 1;
    }
    assert(all.take(all.len() as int) =~= all);
    out
}

/// The lines of the directory's report: every member, tagged by the second of
/// their last change.
pub open spec fn directory_lines(people: Seq<DirectoryEntry>) -> Seq<SyncChangeSpec> {
    Seq::new(
        people.len(),
        |i: int|
            SyncChangeSpec {
                href_suffix: id_text(people[i].user_id) + ".vcf"@,
                etag: Some("\"dir-"@ + integer_text(people[i].updated_at.secs as int) + "\""@),
                deleted: false,
            },
    )
}

/// The lines of the directory's report.
pub fn directory_changes(people: &Vec<DirectoryEntry>) -> (r: Vec<SyncChange>)
    ensures
        change_views(r@) == directory_lines(people@),
{
    let ghost all = directory_lines(people@);
    let mut out: Vec<SyncChange> = Vec::new();
    let mut i: usize = 0;
    assert(change_views(out@) =~= all.take(0));
    while i < people.len()
        invariant
            i <= people@.len(),
            all == directory_lines(people@),
            out@.len() == i,
            change_views(out@) == all.take(i as int),
        decreases people@.len() - i,
    {
        let id = id_string(people[i].user_id);
        let secs = integer_of(people[i].updated_at.secs);
        let change = SyncChange {
            href_suffix: id.concat(".vcf"),
            etag: Some("\"dir-".to_owned().concat(secs.as_str()).concat("\"")),
            deleted: false,
        };
        assert(change@ == all[i as int]);
        out.push(change);
        assert(change_views(out@) =~= all.take(i + 1));
        i = i + 1;
    }
    assert(all.take(all.len() as int) =~= all);
    out
}

/// The number behind the last hyphen of the directory's tag, or zero.
pub open spec fn tag_number(tag: Option<Seq<char>>) -> int {
    match tag {
        Some(t) => match integer_value(split(t, '-').last()) {
            Some(n) => if i64::MIN <= n <= i64::MAX {
                n
            } else {
                0
            },
            None => 0,
        },
        None => 0,
    }
}

/// The number that the directory's report is at.
pub fn directory_token(tag: &Option<String>) -> (r: i64)
    ensures
        r == tag_number(opt_view(*tag)),
{
    match tag {
        Some(t) => {
            let pieces = split_on(t.as_str(), '-');
            assert(views(pieces@)[pieces@.len() - 1] == pieces@[pieces@.len() - 1]@);
            assert(split(t@, '-').last() == pieces@[pieces@.len() - 1]@);
            match parse_i64(pieces[pieces.len() - 1].as_str()) {
                Some(n) => n,
                None => 0,
            }
        },
        None => 0,
    }
}

/// What a stored contact is; anything but a group is an individual.
pub open spec fn stored_kind(kind: Seq<char>) -> ContactKind {
    if kind == "group"@ {
        ContactKind::Group
    } else {
        ContactKind::Individual
    }
}

/// What a stored contact is.
pub fn kind_of(kind: &str) -> (r: ContactKind)
    ensures
        r == stored_kind(kind@),
{
    if same(kind, "group") {
        ContactKind::Group
    } else {
        ContactKind::Individual
    }
}

/// The addresses of the members that a contact is stored with: only a group
/// has any.
pub fn stored_members(
    kind: ContactKind,
    contacts: &Vec<MemberContact>,
    users: &Vec<u128>,
) -> (r: Result<Vec<String>, AppError>)
    ensures
        match kind {
            ContactKind::Individual => r matches Ok(out) && out@.len() == 0,
            ContactKind::Group => match r {
                Ok(out) => missing_member(contacts@) is None && views(out@) == member_uris(
                    contacts@,
                    users@,
                ),
                Err(e) => missing_member(contacts@) matches Some(id) && e@ == Failure::BadRequest(
                    "member contact "@ + id_text(id) + " not found"@,
                ),
            },
        },
{
    match kind {
        ContactKind::Individual => Ok(Vec::new()),
        ContactKind::Group => group_member_uris(contacts, users),
    }
}

/// An address book.
#[derive(Debug)]
pub struct AddressBook {
    pub id: u128,
    pub slug: String,
    pub name: String,
    pub ctag: i64,
}

/// An address book, as the list shows it.
pub open spec fn book_value(
    id: u128,
    slug: Seq<char>,
    name: Seq<char>,
    kind: Seq<char>,
    ctag: i64,
) -> Value {
    empty_object()
        .set("id"@, Value::Text(id_text(id)))
        .set("slug"@, Value::Text(slug))
        .set("name"@, Value::Text(name))
        .set("kind"@, Value::Text(kind))
        .set("ctag"@, int_value(ctag))
}

/// An address book, as the list shows it.
fn book_view(id: u128, slug: &str, name: &str, kind: &str, ctag: i64) -> (r: Json)
    ensures
        r@ == book_value(id, slug@, name@, kind@, ctag),
{
    Json::object()
        .with("id", Json::Text(id_string(id)))
        .with("slug", Json::string(slug))
        .with("name", Json::string(name))
        .with("kind", Json::string(kind))
        .with("ctag", json_int(ctag))
}

/// The books of a user, as the list shows them.
pub open spec fn own_books(books: Seq<AddressBook>) -> Seq<Value> {
    Seq::new(
        books.len(),
        |i: int|
            book_value(books[i].id, books[i].slug@, books[i].name@, "personal"@, books[i].ctag),
    )
}

/// The list of address books: those of the user, then the directory, which
/// is stored nowhere.
pub fn list_address_books(books: &Vec<AddressBook>, directory_id: u128, directory_slug: &str) -> (r:
    Json)
    ensures
        r@ == Value::Array(
            own_books(books@).push(
                book_value(directory_id, directory_slug@, "Directory"@, "directory"@, 0),
            ),
        ),
{
    let mut out: Vec<Json> = Vec::new();
    let mut i: usize = 0;
    while i < books.len()
        invariant
            i <= books@.len(),
            out@.len() == i,
            forall|k: int| 0 <= k < i ==> (#[trigger] out@[k])@ == own_books(books@)[k],
        decreases books@.len() - i,
    {
        let b = &books[i];
        out.push(book_view(b.id, b.slug.as_str(), b.name.as_str(), "personal", b.ctag));
        i = i + 1;
    }
    out.push(book_view(directory_id, directory_slug, "Directory", "directory", 0));
    assert(values(out@) =~= own_books(books@).push(
        book_value(directory_id, directory_slug@, "Directory"@, "directory"@, 0),
    ));
    Json::Array(out)
}

} // verus!
