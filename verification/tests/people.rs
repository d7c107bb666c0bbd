//! Contacts, accounts, passkeys and attachments.

use calstack::admin::{admin_user_view, update_user, AdminUserRow};
use calstack::attachments::{create_attachment, decode_data, download_disposition};
use calstack::categories::{
    require_row_manager, validate_category_body, validate_category_patch,
};
use calstack::contacts::{
    autocomplete, book_changes, check_book_slug, contact_json, create_contact, directory_changes,
    directory_entry_json, directory_token, group_member_uris, require_owner, ContactEmail,
    ContactKind, ContactMember, ContactRow, ContactTel, DirectoryEntry, MemberContact,
};
use calstack::encoding::hex;
use calstack::error::AppError;
use calstack::json::Json;
use calstack::passkeys::{authentication, registration, Ceremony, PasskeyStore};
use calstack::time::Instant;

fn at(secs: i64) -> Instant {
    Instant { secs, nanos: 0 }
}

fn some(s: &str) -> Option<String> {
    Some(s.to_string())
}

fn message(e: AppError) -> String {
    e.response_parts().1
}

#[test]
fn contacts_are_individuals_or_groups() {
    assert_eq!(create_contact("A", &None).unwrap(), ContactKind::Individual);
    assert_eq!(create_contact("A", &some("individual")).unwrap().name(), "individual");
    assert_eq!(create_contact("A", &some("group")).unwrap(), ContactKind::Group);
    assert_eq!(message(create_contact(" ", &None).unwrap_err()), "full_name is required");
    assert_eq!(
        message(create_contact("A", &some("robot")).unwrap_err()),
        "kind must be individual or group"
    );
    assert!(require_owner(1, 1).is_ok());
    assert!(matches!(require_owner(1, 2), Err(AppError::Forbidden)));
    assert!(check_book_slug(None, "mine", "directory").is_ok());
    assert_eq!(
        message(check_book_slug(None, "directory", "directory").unwrap_err()),
        "that slug is reserved"
    );
    assert_eq!(message(check_book_slug(some("bad"), "directory", "directory").unwrap_err()), "bad");
}

#[test]
fn groups_address_their_members() {
    let found = |id: u128, uid: Option<&str>| MemberContact { id, uid: uid.map(str::to_string) };
    assert_eq!(
        group_member_uris(&vec![found(1, Some("u1"))], &vec![2]).unwrap(),
        vec!["urn:uuid:u1", "urn:uuid:00000000-0000-0000-0000-000000000002"]
    );
    let missing = group_member_uris(&vec![found(1, Some("u1")), found(3, None)], &vec![]);
    assert_eq!(
        message(missing.unwrap_err()),
        "member contact 00000000-0000-0000-0000-000000000003 not found"
    );
}

fn person(id: u128, username: &str, display_name: Option<&str>) -> DirectoryEntry {
    DirectoryEntry {
        user_id: id,
        username: username.to_string(),
        email: format!("{username}@x.test"),
        display_name: display_name.map(str::to_string),
        updated_at: at(60 + id as i64),
    }
}

#[test]
fn the_directory_answers_to_what_is_typed() {
    let list = vec![person(1, "ann", Some("Ännchen")), person(2, "bob", None), person(3, "ann2", None)];
    assert_eq!(autocomplete(&list, "ANN"), vec![0, 2]);
    assert_eq!(autocomplete(&list, "änn"), vec![0]);
    assert_eq!(autocomplete(&list, "x.test"), vec![0, 1, 2]);
    let many: Vec<DirectoryEntry> = (0..15).map(|i| person(i, "zed", None)).collect();
    assert_eq!(autocomplete(&many, "zed").len(), 10);
    let v = directory_entry_json(&list[1]);
    assert_eq!(v.get_text("full_name").unwrap(), "bob");
    assert!(matches!(v.get("directory"), Some(Json::Bool(true))));
    assert_eq!(directory_entry_json(&list[0]).get_text("full_name").unwrap(), "Ännchen");
}

#[test]
fn address_books_report_everything() {
    let lines = book_changes(&vec![("u1".into(), "e1".into())], &vec!["gone".into()]);
    assert_eq!(lines[0].href_suffix, "u1.vcf");
    assert_eq!(lines[0].etag.as_deref(), Some("e1"));
    assert_eq!(lines[1].href_suffix, "gone.vcf");
    assert!(lines[1].deleted && lines[1].etag.is_none());
    let people = directory_changes(&vec![person(2, "bob", None)]);
    assert_eq!(people[0].href_suffix, "00000000-0000-0000-0000-000000000002.vcf");
    assert_eq!(people[0].etag.as_deref(), Some("\"dir-62\""));
    assert_eq!(directory_token(&some("dir-5-17")), 17);
    assert_eq!(directory_token(&some("dir")), 0);
    assert_eq!(directory_token(&None), 0);
}

#[test]
fn contacts_are_shown() {
    let c = ContactRow {
        id: 1,
        address_book_id: 2,
        uid: "u".into(),
        kind: "group".into(),
        full_name: "Team".into(),
        given_name: None,
        family_name: None,
        org: None,
        title: None,
        street_address: None,
        locality: None,
        region: None,
        postal_code: None,
        country: None,
        photo_mime: some("image/png"),
        etag: "e".into(),
        updated_at: at(0),
    };
    let v = contact_json(
        &c,
        &vec![ContactEmail { email: "t@x".into(), kind: None, is_primary: true }],
        &vec![ContactTel { number: "1".into(), kind: some("cell"), is_mobile: true, is_primary: false }],
        &vec![ContactMember { contact_id: None, user_id: Some(4), full_name: "Al".into() }],
    );
    assert!(matches!(v.get("has_photo"), Some(Json::Bool(true))));
    match (v.get("emails"), v.get("tels"), v.get("members")) {
        (Some(Json::Array(e)), Some(Json::Array(t)), Some(Json::Array(m))) => {
            assert_eq!(e[0].get_text("email").unwrap(), "t@x");
            assert_eq!(t[0].get_text("kind").unwrap(), "cell");
            assert_eq!(m[0].get_text("full_name").unwrap(), "Al");
        }
        _ => panic!("three lists are shown"),
    }
}

#[test]
fn categories_are_checked_and_managed() {
    assert!(validate_category_body(None, None, "Work").is_ok());
    assert_eq!(message(validate_category_body(None, None, "  ").unwrap_err()), "name is required");
    assert_eq!(message(validate_category_body(some("s"), some("c"), "").unwrap_err()), "s");
    assert_eq!(message(validate_category_body(None, some("c"), "").unwrap_err()), "c");
    assert!(validate_category_patch(None, None).is_ok());
    assert_eq!(message(validate_category_patch(some("c"), some("s")).unwrap_err()), "c");
    assert_eq!(message(validate_category_patch(None, some("s")).unwrap_err()), "s");
    assert!(require_row_manager(None, true).is_ok());
    assert!(matches!(require_row_manager(None, false), Err(AppError::Forbidden)));
    assert!(require_row_manager(Some(Ok(())), false).is_ok());
    assert!(matches!(
        require_row_manager(Some(Err(AppError::NotFound)), true),
        Err(AppError::NotFound)
    ));
}

#[test]
fn attachments_are_decoded_up_to_a_cap() {
    assert_eq!(create_attachment(1, 1, "aGk=", 2).unwrap(), b"hi");
    assert!(matches!(create_attachment(1, 2, "aGk=", 2), Err(AppError::NotFound)));
    assert_eq!(
        message(create_attachment(1, 1, "aGk=", 1).unwrap_err()),
        "attachment exceeds the 1 byte cap"
    );
    assert_eq!(message(decode_data("?", "photo", 9).unwrap_err()), "data is not valid base64");
    assert_eq!(message(decode_data("aGk=", "photo", 0).unwrap_err()), "photo exceeds the 0 byte cap");
    assert_eq!(download_disposition("a\"b\".pdf"), "attachment; filename=\"ab.pdf\"");
    assert_eq!(hex(&[0, 0x1f, 0xff]), "001fff");
    assert_eq!(hex(&[]), "");
}

#[test]
fn challenges_are_used_once_within_ten_minutes() {
    let mut store: PasskeyStore<Ceremony<u8, u16>> = PasskeyStore::new();
    store.insert_at(1, Ceremony::Register(7), at(1000));
    store.insert_at(2, Ceremony::Login(8), at(1001));
    assert!(matches!(registration(store.take_at(1, at(1002))), Ok(7)));
    assert_eq!(
        message(registration(store.take_at(1, at(1002))).unwrap_err()),
        "unknown or expired challenge"
    );
    assert!(matches!(authentication(store.take_at(2, at(1600))), Ok(8)));
    store.insert_at(3, Ceremony::Register(7), at(1000));
    assert!(store.take_at(3, at(1600)).is_none());
    store.insert_at(4, Ceremony::Register(7), at(1000));
    store.insert_at(5, Ceremony::Login(9), at(1500));
    store.insert_at(6, Ceremony::Login(9), at(1700));
    assert!(store.take_at(4, at(1100)).is_none());
    assert_eq!(
        message(registration(store.take_at(5, at(1700))).unwrap_err()),
        "challenge is not a registration"
    );
    store.insert_at(7, Ceremony::Register(7), at(1700));
    assert_eq!(
        message(authentication(store.take_at(7, at(1700))).unwrap_err()),
        "challenge is not a login"
    );
}

#[test]
fn challenges_go_by_the_clock() {
    let mut store: PasskeyStore<Ceremony<u8, u16>> = PasskeyStore::new();
    let first = store.insert(Ceremony::Register(7));
    let second = store.insert(Ceremony::Login(8));
    assert_ne!(first, second);
    assert_eq!(first >> 76 & 0xf, 4);
    assert_eq!(first >> 62 & 3, 2);
    assert!(matches!(registration(store.take(first)), Ok(7)));
    assert!(store.take(first).is_none());
    assert!(matches!(authentication(store.take(second)), Ok(8)));
}

#[test]
fn administrators_leave_themselves_alone() {
    assert!(update_user(true, 1, 2).is_ok());
    assert!(matches!(update_user(false, 1, 2), Err(AppError::Forbidden)));
    assert_eq!(
        message(update_user(true, 1, 1).unwrap_err()),
        "cannot change your own admin/disabled status"
    );
    let v = admin_user_view(&AdminUserRow {
        id: 1,
        username: "u".into(),
        email: "u@x".into(),
        display_name: None,
        is_admin: true,
        disabled_at: Some(at(5)),
        created_at: at(0),
    });
    assert!(matches!(v.get("disabled"), Some(Json::Bool(true))));
    assert_eq!(v.get_text("created_at").unwrap(), "1970-01-01T00:00:00Z");
}
