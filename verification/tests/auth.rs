//! Who may do what.

use calstack::auth::{
    accept_basic, admin_page_guard, app_password_create_view, app_password_view,
    check_password_change, check_registration, check_scopes, constant_time_eq, cookie_value,
    login_session_view, require_admin, require_csrf, require_session, require_session_mutation,
    resolve_auth, scope_allows, set_session_cookie, share_opens_calendar, share_token,
    token_create_view, token_scope_guard, token_view, user_view, Credentials, ScopeError, UserRow,
};
use calstack::error::{AppError, AuthExtractError, StoreError};
use calstack::json::{same_json, Json};
use calstack::login::{
    clear_login_failures, failure_log, login, login_gate, prune, record_login_failure,
    verify_totp_gate, Account, LoginVerdict, LOGIN_MAX_FAILURES, LOGIN_WINDOW,
};
use calstack::time::Instant;

fn scopes(values: &[&str]) -> Vec<String> {
    values.iter().map(|s| s.to_string()).collect()
}

fn text(s: &str) -> Option<String> {
    Some(s.to_string())
}

#[test]
fn empty_scopes_are_full_access() {
    assert!(scope_allows(&scopes(&[]), "read"));
    assert!(scope_allows(&scopes(&[]), "write"));
}

#[test]
fn full_scope_grants_everything() {
    assert!(scope_allows(&scopes(&["full"]), "read"));
    assert!(scope_allows(&scopes(&["full"]), "write"));
}

#[test]
fn read_scope_denies_writes() {
    assert!(scope_allows(&scopes(&["read"]), "read"));
    assert!(!scope_allows(&scopes(&["read"]), "write"));
}

#[test]
fn write_scope_implies_read() {
    assert!(scope_allows(&scopes(&["write"]), "write"));
    assert!(scope_allows(&scopes(&["write"]), "read"));
}

#[test]
fn unknown_scopes_grant_nothing() {
    assert!(!scope_allows(&scopes(&["admin"]), "read"));
    assert!(!scope_allows(&scopes(&["admin"]), "write"));
}

#[test]
fn gate_allows_then_locks_after_max_failures() {
    let mut log = failure_log();
    for i in 0..LOGIN_MAX_FAILURES {
        login_gate(&mut log, "gate-test", i as u64).unwrap();
        record_login_failure(&mut log, "gate-test", i as u64);
    }
    assert!(matches!(login_gate(&mut log, "gate-test", 10), Err(AppError::Forbidden)));
}

#[test]
fn successful_login_clears_the_failure_log() {
    let mut log = failure_log();
    for i in 0..LOGIN_MAX_FAILURES - 1 {
        record_login_failure(&mut log, "gate-clear", i as u64);
    }
    clear_login_failures(&mut log, "gate-clear");
    login_gate(&mut log, "gate-clear", 20).unwrap();
    record_login_failure(&mut log, "gate-clear", 21);
    login_gate(&mut log, "gate-clear", 22).unwrap();
}

#[test]
fn keys_are_case_insensitive() {
    let mut log = failure_log();
    let user = "gate-case";
    record_login_failure(&mut log, &user.to_uppercase(), 1);
    record_login_failure(&mut log, user, 2);
    assert_eq!(log.failures(user), Some(2));
}

#[test]
fn failures_drain_with_the_window() {
    let mut log = failure_log();
    for i in 0..10 {
        record_login_failure(&mut log, "drain", i);
    }
    assert!(login_gate(&mut log, "drain", LOGIN_WINDOW - 1).is_err());
    login_gate(&mut log, "drain", LOGIN_WINDOW).unwrap();
    assert_eq!(log.failures("drain"), Some(9));
    assert_eq!(log.failures("other"), None);
    let mut times = vec![0, 5, 600];
    prune(600, 604, &mut times);
    assert_eq!(times, vec![5, 600]);
    let mut ahead = vec![700];
    prune(600, 604, &mut ahead);
    assert_eq!(ahead, vec![700]);
}

#[test]
fn logins_count_what_they_should() {
    let found = |disabled, has_password, password_ok| Account::Found {
        disabled,
        has_password,
        password_ok,
    };
    let mut log = failure_log();
    let missing = login(&mut log, "a", 1, Account::Missing, Ok(()));
    assert!(matches!(
        missing,
        LoginVerdict::Refused { error: AppError::Unauthorized, audited: false }
    ));
    assert_eq!(log.failures("a"), None);
    let failed = login(&mut log, "a", 1, Account::Failed(AppError::NotFound), Ok(()));
    assert!(matches!(failed, LoginVerdict::Refused { error: AppError::NotFound, .. }));
    for account in [found(true, true, true), found(false, false, true), found(false, true, false)] {
        let r = login(&mut log, "a", 1, account, Ok(()));
        assert!(matches!(
            r,
            LoginVerdict::Refused { error: AppError::Unauthorized, audited: true }
        ));
    }
    assert_eq!(log.failures("a"), Some(3));
    let second = login(&mut log, "A", 1, found(false, true, true), Err(AppError::Unauthorized));
    assert!(matches!(second, LoginVerdict::Refused { audited: false, .. }));
    assert_eq!(log.failures("a"), Some(4));
    let ok = login(&mut log, "a", 1, found(false, true, true), Ok(()));
    assert!(matches!(ok, LoginVerdict::Accepted));
    assert_eq!(log.failures("a"), None);
}

#[test]
fn second_factors_fail_closed() {
    assert!(verify_totp_gate(false, false, None, None).is_ok());
    assert!(verify_totp_gate(true, true, None, None).is_ok());
    assert!(matches!(
        verify_totp_gate(true, false, None, Some(true)),
        Err(AppError::Unauthorized)
    ));
    assert!(matches!(
        verify_totp_gate(true, false, Some(Err("bad key".to_string())), Some(true)),
        Err(AppError::Internal(m)) if m == "bad key"
    ));
    assert!(verify_totp_gate(true, false, Some(Ok(())), Some(true)).is_ok());
    assert!(verify_totp_gate(true, false, Some(Ok(())), Some(false)).is_err());
    assert!(verify_totp_gate(true, false, Some(Ok(())), None).is_err());
}

#[test]
fn secrets_compare_by_all_their_bytes() {
    assert!(constant_time_eq(b"abc", b"abc"));
    assert!(!constant_time_eq(b"abc", b"abd"));
    assert!(!constant_time_eq(b"abc", b"ab"));
    assert!(constant_time_eq(b"", b""));
    assert!(!constant_time_eq(&[1, 2], &[2, 1]));
}

#[test]
fn cookies_are_found_by_name() {
    assert_eq!(cookie_value("a=1; session=x=y ; b=2", "session").unwrap(), "x=y");
    assert_eq!(cookie_value("session; session=late", "session").unwrap(), "late");
    assert_eq!(cookie_value("sessions=1", "session"), None);
    assert_eq!(cookie_value("", "session"), None);
}

#[test]
fn credentials_come_in_three_forms() {
    let cookie = resolve_auth(&text("session=abc"), &text("Bearer t")).unwrap();
    assert!(matches!(cookie, Credentials::Session(s) if s == "abc"));
    let bearer = resolve_auth(&text("other=1"), &text("Bearer t t")).unwrap();
    assert!(matches!(bearer, Credentials::Bearer(s) if s == "t t"));
    let basic = resolve_auth(&None, &text("Basic YW5uOnA6dw==")).unwrap();
    assert!(matches!(
        basic,
        Credentials::Basic { username, password } if username == "ann" && password == "p:w"
    ));
    for bad in ["Basic ???", "Basic YW5u", "Basic /////w==", "Digest x", "bearer t"] {
        assert!(matches!(
            resolve_auth(&None, &text(bad)),
            Err(AppError::Unauthorized)
        ));
    }
    assert!(resolve_auth(&None, &None).is_err());
}

#[test]
fn share_tokens_stand_in_the_user_name() {
    assert_eq!(share_token(&text("Basic dG9rOmFueXRoaW5n")).unwrap(), "tok");
    assert_eq!(share_token(&text("Basic dG9r")).unwrap(), "tok");
    assert_eq!(share_token(&text("Bearer dG9r")), None);
    assert_eq!(share_token(&None), None);
    assert!(share_opens_calendar(true, false));
    assert!(!share_opens_calendar(true, true));
    assert!(!share_opens_calendar(false, false));
}

#[test]
fn app_passwords_belong_to_their_user() {
    assert!(accept_basic("ann", "ann", true).is_ok());
    assert!(accept_basic("ann", "bob", true).is_err());
    assert!(accept_basic("ann", "ann", false).is_err());
}

#[test]
fn sessions_show_their_token() {
    assert!(require_csrf(&None, &None).is_ok());
    assert!(require_csrf(&text("t"), &text("t")).is_ok());
    assert!(matches!(require_csrf(&text("t"), &text("u")), Err(AppError::Unauthorized)));
    assert!(require_csrf(&text("t"), &None).is_err());
    assert!(require_session(&text("t")).is_ok());
    assert!(matches!(require_session(&None), Err(AppError::Forbidden)));
    assert!(matches!(require_session_mutation(&None, &text("t")), Err(AppError::Forbidden)));
    assert!(matches!(
        require_session_mutation(&text("t"), &None),
        Err(AppError::Unauthorized)
    ));
    assert!(require_session_mutation(&text("t"), &text("t")).is_ok());
    assert!(require_admin(true).is_ok());
    assert!(matches!(require_admin(false), Err(AppError::Forbidden)));
}

#[test]
fn tokens_are_scoped_by_method() {
    let read = Some(scopes(&["read"]));
    assert!(token_scope_guard(true, &read, "GET").is_ok());
    assert!(token_scope_guard(true, &read, "HEAD").is_ok());
    for method in ["POST", "PUT", "DELETE", "PATCH", "REPORT", "OPTIONS"] {
        assert!(matches!(token_scope_guard(true, &read, method), Err(ScopeError::Forbidden)));
    }
    assert!(token_scope_guard(true, &Some(scopes(&["write"])), "PUT").is_ok());
    assert!(matches!(token_scope_guard(true, &None, "GET"), Err(ScopeError::Unauthorized)));
    assert!(token_scope_guard(false, &None, "DELETE").is_ok());
    assert_eq!(ScopeError::Unauthorized.response_parts(), (401, "unauthorized"));
    assert_eq!(
        ScopeError::Forbidden.response_parts(),
        (403, "token scope does not permit this operation")
    );
}

#[test]
fn administrators_pages_are_guarded() {
    assert_eq!(admin_page_guard("/admin/", None), Some("/login"));
    assert_eq!(admin_page_guard("/rules", Some(false)), Some("/"));
    assert_eq!(admin_page_guard("/providers", Some(true)), None);
    assert_eq!(admin_page_guard("/credentials//", Some(false)), Some("/"));
    assert_eq!(admin_page_guard("/categories", None), None);
}

#[test]
fn cookies_of_sessions_can_be_secure() {
    assert_eq!(
        set_session_cookie("t", false),
        "session=t; Path=/; HttpOnly; SameSite=Lax"
    );
    assert_eq!(
        set_session_cookie("t", true),
        "session=t; Path=/; HttpOnly; SameSite=Lax; Secure"
    );
}

fn message(e: AppError) -> String {
    e.response_parts().1
}

#[test]
fn accounts_need_sound_credentials() {
    assert!(check_registration(None, None, "12345678").is_ok());
    assert!(check_registration(None, None, "ééé").is_err());
    assert_eq!(
        message(check_registration(None, None, "1234567").unwrap_err()),
        "password must be at least 8 characters"
    );
    assert_eq!(message(check_registration(text("u"), text("e"), "").unwrap_err()), "u");
    assert_eq!(message(check_registration(None, text("e"), "").unwrap_err()), "e");
    assert!(check_password_change(Some(true), "12345678").is_ok());
    assert_eq!(
        message(check_password_change(Some(false), "12345678").unwrap_err()),
        "incorrect current password"
    );
    assert!(check_password_change(None, "12345678").is_err());
    assert!(check_password_change(Some(true), "short").is_err());
    assert!(check_scopes(&scopes(&["read", "write", "full"])).is_ok());
    assert_eq!(
        message(check_scopes(&scopes(&["read", "admin"])).unwrap_err()),
        "unknown scope; allowed: read, write, full"
    );
}

#[test]
fn failures_have_a_status_and_a_message() {
    let parts = |e: AppError| e.response_parts();
    assert_eq!(parts(AppError::bad_request("m".to_string())), (400, "m".to_string()));
    assert_eq!(parts(AppError::unauthorized()), (401, "unauthorized".to_string()));
    assert_eq!(parts(AppError::Forbidden), (403, "forbidden".to_string()));
    assert_eq!(parts(AppError::NotFound), (404, "not found".to_string()));
    assert_eq!(parts(AppError::conflict("c")), (409, "c".to_string()));
    assert_eq!(parts(AppError::TooLarge("t".to_string())), (413, "t".to_string()));
    assert_eq!(parts(AppError::internal("i".to_string())), (500, "i".to_string()));
    assert_eq!(AppError::conflict("c").description(), "conflict: c");
    assert_eq!(AppError::internal("i".to_string()).description(), "internal error: i");
    assert_eq!(AppError::NotFound.description(), "not found");
    assert!(matches!(AppError::from_store(StoreError::NotFound), AppError::Unauthorized));
    assert!(matches!(
        AppError::from_store(StoreError::Conflict("c".to_string())),
        AppError::Conflict(m) if m == "c"
    ));
    assert!(matches!(
        AppError::from_store(StoreError::Other("o".to_string())),
        AppError::Internal(m) if m == "o"
    ));
    assert!(matches!(
        AppError::from_auth(AuthExtractError::Unauthorized),
        AppError::Unauthorized
    ));
    assert!(matches!(
        AppError::from_auth(AuthExtractError::Other("o".to_string())),
        AppError::Internal(_)
    ));
}

/// A JSON text as a value of the library.
fn json(s: &str) -> Json {
    fn convert(v: serde_json::Value) -> Json {
        match v {
            serde_json::Value::Null => Json::Null,
            serde_json::Value::Bool(b) => Json::Bool(b),
            serde_json::Value::Number(n) => {
                Json::Number(calstack::json::Num::Unsigned(n.as_u64().unwrap()))
            }
            serde_json::Value::String(s) => Json::Text(s),
            serde_json::Value::Array(a) => Json::Array(a.into_iter().map(convert).collect()),
            serde_json::Value::Object(m) => {
                Json::Object(m.into_iter().map(|(k, v)| (k, convert(v))).collect())
            }
        }
    }
    convert(serde_json::from_str(s).unwrap())
}

#[test]
fn converted_views_keep_their_legacy_shapes() {
    let at = Instant { secs: 1_789_992_000, nanos: 0 };
    let nil = "00000000-0000-0000-0000-000000000000";
    let user = |display_name: Option<String>| UserRow {
        id: 0,
        username: "u".into(),
        email: "e@x.test".into(),
        display_name,
        is_admin: false,
        notify_email: true,
        notify_sms: false,
        notify_push: true,
    };
    let expected_user = |display_name: &str| {
        format!(
            r#"{{"id": "{nil}", "username": "u", "email": "e@x.test",
                "display_name": {display_name}, "is_admin": false,
                "notify_email": true, "notify_sms": false, "notify_push": true}}"#
        )
    };
    assert!(same_json(&user_view(&user(None)), &json(&expected_user("null"))));
    assert!(same_json(&user_view(&user(Some("n".into()))), &json(&expected_user("\"n\""))));
    assert!(same_json(
        &login_session_view("c", &user(None)),
        &json(&format!(r#"{{"csrf_token": "c", "user": {}}}"#, expected_user("null")))
    ));
    assert!(same_json(
        &token_create_view(0, "t", "s", &scopes(&["read"]), Some(at)),
        &json(&format!(
            r#"{{"id": "{nil}", "name": "t", "secret": "s", "scopes": ["read"],
                "expires_at": "2026-09-21T12:00:00Z"}}"#
        ))
    ));
    assert!(same_json(
        &token_view(0, "t", &vec![], None, at),
        &json(&format!(
            r#"{{"id": "{nil}", "name": "t", "scopes": [], "expires_at": null,
                "created_at": "2026-09-21T12:00:00Z"}}"#
        ))
    ));
    assert!(same_json(
        &app_password_create_view(0, "a", "p"),
        &json(&format!(r#"{{"id": "{nil}", "name": "a", "password": "p"}}"#))
    ));
    assert!(same_json(
        &app_password_view(0, "a", at, None, Some(at)),
        &json(&format!(
            r#"{{"id": "{nil}", "name": "a", "created_at": "2026-09-21T12:00:00Z",
                "last_used_at": null, "expires_at": "2026-09-21T12:00:00Z"}}"#
        ))
    ));
    assert!(!same_json(&user_view(&user(None)), &json(&expected_user("\"n\""))));
}

#[test]
fn a_window_of_no_length_drops_everything() {
    let mut times = vec![0, 604, 700];
    prune(0, 604, &mut times);
    assert!(times.is_empty());
    let mut edge = vec![4, 5];
    prune(600, 604, &mut edge);
    assert_eq!(edge, vec![5]);
}
