use okr_tracker::config::Config;
use okr_tracker::handlers::{
    allocation_failure, bootstrap_admin, bootstrap_data, bootstrap_open, challenge_for, live_challenge,
    challenge_expires_at, login_account, login_cookie, MAX_ALLOCATION_ATTEMPTS,
    new_credential, new_reg_code, new_session, plan_create_group, plan_create_okr, plan_create_user,
    plan_delete_update, plan_edit_group, plan_edit_okr, plan_edit_update, plan_patch_me, plan_patch_user,
    plan_post_update, plan_push_subscription, plan_revert_group, plan_revert_okr, plan_set_assignees,
    plan_set_done, push_enabled, rate_limit_verdict, rate_window_start, registration_data, require_actor,
    session_verdict,
    str_field, user_verdict, validate_md, validate_update_body, valid_group_versions, version_state,
    ChallengeRow, SessionVerdict, UserVerdict,
};
use okr_tracker::model::{Actor, Group, GroupVersion, Okr, OkrVersion, Session, Update, User, UserStatus};
use okr_tracker::webauthn::RegistrationResult;
use okr_tracker::handlers::{
    allocation_step, bootstrap_admission, bootstrap_challenge, notifications_for, AllocationStep,
};
use okr_tracker::model::NotificationKind;
use okr_tracker::DomainError;

fn admin() -> Actor {
    Actor { user_id: "adm".into(), is_admin: true }
}

fn member(id: &str) -> Actor {
    Actor { user_id: id.into(), is_admin: false }
}

fn user(status: UserStatus) -> User {
    User {
        id: "u1".into(),
        name: "Ann".into(),
        short_name: "CDFGH".into(),
        webauthn_handle: "h".into(),
        is_admin: false,
        status,
        created_at: 5,
    }
}

fn group(current: u64, counter: u64) -> Group {
    Group { id: "g1".into(), human_ref: "GRP-2345".into(), current_version: current, next_version_counter: counter, created_at: 1 }
}

fn gv(version: u64, valid: bool) -> GroupVersion {
    GroupVersion {
        group_id: "g1".into(),
        version,
        name: "n".into(),
        description_md: "d".into(),
        valid,
        author_id: "adm".into(),
        created_at: 1,
    }
}

fn okr(current: u64, counter: u64) -> Okr {
    Okr { id: "o1".into(), human_ref: "OKR-2345".into(), group_id: "g1".into(), current_version: current, next_version_counter: counter, created_at: 1 }
}

fn ov(version: u64, valid: bool) -> OkrVersion {
    OkrVersion {
        okr_id: "o1".into(),
        version,
        objective_md: "o".into(),
        key_results_md: "k".into(),
        valid,
        author_id: "adm".into(),
        created_at: 1,
    }
}

fn update(author: &str) -> Update {
    Update { id: "up1".into(), okr_id: "o1".into(), version: 2, author_id: author.into(), body_md: "old".into(), created_at: 3, edited_at: None }
}

fn invalid(m: &str) -> DomainError {
    DomainError::Invalid(m.to_string())
}

#[test]
fn sessions_and_actors() {
    let s = Session { id: "s".into(), user_id: "u1".into(), created_at: 0, expires_at: 100 };
    assert_eq!(session_verdict(&None, 50), SessionVerdict::Missing);
    assert_eq!(session_verdict(&Some(s.clone()), 99), SessionVerdict::Live);
    assert_eq!(session_verdict(&Some(s), 100), SessionVerdict::Expired);
    assert!(matches!(user_verdict(&None), UserVerdict::Gone));
    assert!(matches!(user_verdict(&Some(user(UserStatus::Deleted))), UserVerdict::Inactive));
    match user_verdict(&Some(User { is_admin: true, ..user(UserStatus::Active) })) {
        UserVerdict::Acting(a) => assert_eq!(a, Actor { user_id: "u1".into(), is_admin: true }),
        _ => panic!("an active user acts"),
    }
    assert_eq!(require_actor(None), Err(DomainError::Unauthenticated));
    assert_eq!(require_actor(Some(admin())), Ok(admin()));
}

#[test]
fn rate_limit_and_bootstrap() {
    assert_eq!(rate_limit_verdict(30), Ok(()));
    assert_eq!(rate_limit_verdict(31), Err(DomainError::RateLimited));
    assert_eq!(bootstrap_open(0), Ok(()));
    assert_eq!(bootstrap_open(1), Err(DomainError::SetupClosed));
}

#[test]
fn new_sessions_and_codes() {
    let s = new_session("sid".into(), "u1", 1_000);
    assert_eq!(s, Session { id: "sid".into(), user_id: "u1".into(), created_at: 1_000, expires_at: 1_000 + 604_800_000 });
    let c = new_reg_code("ABCD-EFGH", "u1", 10);
    assert_eq!(c.code, "ABCDEFGH");
    assert_eq!(c.expires_at, 10 + 86_400_000);
    assert_eq!(c.used_at, None);
}

fn row(id: &str, kind: &str, expires_at: i64) -> ChallengeRow {
    ChallengeRow {
        id: id.into(),
        kind: kind.into(),
        challenge: "c".into(),
        user_id: "".into(),
        data: "".into(),
        expires_at,
    }
}

#[test]
fn challenges_are_single_use_and_typed() {
    let rows = vec![row("a", "login", 10), row("", "login", 100), row("b", "login", 100)];
    assert_eq!(live_challenge(&rows, 10), Some(2));
    assert_eq!(live_challenge(&rows, 100), None);
    assert_eq!(live_challenge(&vec![], 0), None);
    let c = challenge_for(Some(row("a", "register", 10)), "register", DomainError::Unauthenticated);
    assert_eq!(c.ok().map(|r| r.id), Some("a".to_string()));
    let c = challenge_for(Some(row("a", "login", 10)), "register", invalid("challenge expired"));
    assert_eq!(c.err(), Some(invalid("challenge expired")));
    assert_eq!(challenge_for(None, "login", DomainError::Unauthenticated).err(), Some(DomainError::Unauthenticated));
}

#[test]
fn login_needs_an_active_account() {
    assert_eq!(login_account(None), Err(DomainError::Unauthenticated));
    assert_eq!(login_account(Some(user(UserStatus::Deleted))), Err(DomainError::Unauthenticated));
    assert_eq!(login_account(Some(user(UserStatus::Active))), Ok(user(UserStatus::Active)));
}

#[test]
fn ceremony_data() {
    let d = bootstrap_data("aGFuZGxl", "CDFGH");
    assert_eq!(d, r#"{"handle":"aGFuZGxl","is_admin":true,"short_name":"CDFGH"}"#);
    let u = bootstrap_admin("id1".into(), &d, 77);
    assert_eq!(u.name, "Administrator");
    assert_eq!(u.short_name, "CDFGH");
    assert_eq!(u.webauthn_handle, "aGFuZGxl");
    assert!(u.is_admin);
    assert_eq!(u.status, UserStatus::Active);
    assert_eq!(u.created_at, 77);
    assert_eq!(registration_data("AB\"C"), r#"{"code":"AB\"C"}"#);
    assert_eq!(str_field(&registration_data("XYZ"), "code"), "XYZ");
    assert_eq!(str_field("not json", "code"), "");
    assert_eq!(str_field(r#"{"code":5}"#, "code"), "");
}

#[test]
fn markdown_and_update_bodies() {
    assert_eq!(validate_md("# hi"), Ok("# hi".to_string()));
    assert_eq!(validate_md(&"x".repeat(50_001)), Err(invalid("markdown too long")));
    assert_eq!(validate_md(&"é".repeat(25_001)), Err(invalid("markdown too long")));
    assert_eq!(validate_update_body(" \n\t "), Err(invalid("update body must not be empty")));
    assert_eq!(validate_update_body(" done "), Ok(" done ".to_string()));
}

#[test]
fn group_lifecycle_plans() {
    let (g, v) = plan_create_group(&admin(), "  Team A ", "desc", "g1".into(), "GRP-2345".into(), 9).unwrap();
    assert_eq!(g, Group { id: "g1".into(), human_ref: "GRP-2345".into(), current_version: 1, next_version_counter: 2, created_at: 9 });
    assert_eq!(v.version, 1);
    assert_eq!(v.name, "Team A");
    assert_eq!(v.author_id, "adm");
    assert!(v.valid);
    assert_eq!(plan_create_group(&member("u"), "A", "", "g".into(), "r".into(), 0), Err(DomainError::Forbidden));
    assert_eq!(plan_create_group(&admin(), " ", "", "g".into(), "r".into(), 0), Err(invalid("name must not be empty")));

    let versions = vec![gv(1, true), gv(2, false), gv(3, true)];
    let (g2, v2) = plan_edit_group(&admin(), Some(group(3, 4)), &versions, "B", "d2", 20).unwrap();
    assert_eq!(g2.current_version, 4);
    assert_eq!(g2.next_version_counter, 5);
    assert_eq!(v2.version, 4);
    assert_eq!(v2.created_at, 20);
    assert_eq!(plan_edit_group(&admin(), None, &versions, "B", "", 0), Err(DomainError::NotFound("group".into())));
    assert_eq!(
        plan_edit_group(&admin(), Some(group(3, 4)), &versions, "B", &"x".repeat(50_001), 0),
        Err(invalid("markdown too long"))
    );

    let (g3, burned) = plan_revert_group(&admin(), Some(group(3, 4)), &versions, 1).unwrap();
    assert_eq!(g3.current_version, 1);
    assert_eq!(g3.next_version_counter, 4);
    assert_eq!(burned, vec![3]);
    assert_eq!(
        plan_revert_group(&admin(), Some(group(3, 4)), &versions, 2),
        Err(DomainError::Conflict("cannot revert to version 2: not a valid version".into()))
    );
    assert_eq!(plan_revert_group(&member("x"), Some(group(3, 4)), &versions, 1), Err(DomainError::Forbidden));
    assert_eq!(valid_group_versions(&versions), vec![1, 3]);
    let st = version_state(3, 4, &vec![3, 1, 3]);
    assert_eq!(st.valid_versions.iter().copied().collect::<Vec<u64>>(), vec![1, 3]);
}

#[test]
fn okr_lifecycle_plans() {
    let (o, v) = plan_create_okr(&admin(), true, "g1".into(), "obj", "kr", "o1".into(), "OKR-2345".into(), 4).unwrap();
    assert_eq!(o, Okr { id: "o1".into(), human_ref: "OKR-2345".into(), group_id: "g1".into(), current_version: 1, next_version_counter: 2, created_at: 4 });
    assert_eq!((v.objective_md.as_str(), v.key_results_md.as_str(), v.version), ("obj", "kr", 1));
    assert_eq!(
        plan_create_okr(&admin(), false, "g9".into(), "", "", "o".into(), "r".into(), 0),
        Err(DomainError::NotFound("group".into()))
    );
    let versions = vec![ov(1, true), ov(2, true)];
    let (o2, v2) = plan_edit_okr(&admin(), Some(okr(2, 3)), &versions, "o2", "k2", 8).unwrap();
    assert_eq!((o2.current_version, o2.next_version_counter, v2.version), (3, 4, 3));
    assert_eq!(plan_edit_okr(&admin(), None, &versions, "", "", 0), Err(DomainError::NotFound("okr".into())));
    let (o3, burned) = plan_revert_okr(&admin(), Some(okr(2, 3)), &versions, 1).unwrap();
    assert_eq!((o3.current_version, burned), (1, vec![2]));
    assert_eq!(
        plan_revert_okr(&admin(), Some(okr(2, 3)), &versions, 2),
        Err(DomainError::Conflict("version 2 is already current".into()))
    );
}

#[test]
fn contribution_plans() {
    let assignees = vec!["alice".to_string()];
    let d = plan_set_done(&member("alice"), Some(okr(2, 3)), "o1", assignees.clone(), true, 50).unwrap();
    assert_eq!((d.okr_id.as_str(), d.version, d.done, d.set_by.as_str(), d.set_at), ("o1", 2, true, "alice", 50));
    assert_eq!(plan_set_done(&admin(), Some(okr(2, 3)), "o1", assignees.clone(), true, 50), Err(DomainError::Forbidden));
    assert_eq!(plan_set_done(&admin(), None, "o1", assignees.clone(), true, 50), Err(DomainError::NotFound("okr".into())));

    let u = plan_post_update(&member("alice"), Some(okr(2, 3)), "o1", assignees.clone(), "progress", "up9".into(), 60).unwrap();
    assert_eq!(u, Update { id: "up9".into(), okr_id: "o1".into(), version: 2, author_id: "alice".into(), body_md: "progress".into(), created_at: 60, edited_at: None });
    assert_eq!(
        plan_post_update(&member("alice"), Some(okr(2, 3)), "o1", assignees.clone(), "  ", "x".into(), 0),
        Err(invalid("update body must not be empty"))
    );
    assert_eq!(plan_post_update(&member("bob"), Some(okr(2, 3)), "o1", assignees, "x", "x".into(), 0), Err(DomainError::Forbidden));

    let e = plan_edit_update(&member("alice"), Some(update("alice")), "new", 70).unwrap();
    assert_eq!(e, Update { body_md: "new".into(), edited_at: Some(70), ..update("alice") });
    assert!(plan_edit_update(&admin(), Some(update("alice")), "new", 70).is_ok());
    assert_eq!(plan_edit_update(&member("bob"), Some(update("alice")), "new", 70), Err(DomainError::Forbidden));
    assert_eq!(plan_edit_update(&member("bob"), None, "new", 70), Err(DomainError::NotFound("update".into())));
    assert_eq!(plan_delete_update(&member("alice"), &Some(update("alice"))), Ok(()));
    assert_eq!(plan_delete_update(&member("bob"), &Some(update("alice"))), Err(DomainError::Forbidden));
    assert_eq!(plan_delete_update(&admin(), &None), Err(DomainError::NotFound("update".into())));
}

#[test]
fn assignment_notifies_only_new_assignees() {
    let requested = vec!["a".to_string(), "b".to_string(), "c".to_string(), "b".to_string()];
    let before = vec!["b".to_string(), "z".to_string()];
    assert_eq!(plan_set_assignees(&admin(), true, &requested, &before), Ok(vec!["a".to_string(), "c".to_string()]));
    assert_eq!(plan_set_assignees(&admin(), false, &requested, &before), Err(DomainError::NotFound("okr".into())));
    assert_eq!(plan_set_assignees(&member("a"), true, &requested, &before), Err(DomainError::Forbidden));
}

#[test]
fn user_management_plans() {
    let u = plan_create_user(&admin(), " Bob ", true, "u2".into(), "KMNPQ".into(), "hh".into(), 3).unwrap();
    assert_eq!(u, User { id: "u2".into(), name: "Bob".into(), short_name: "KMNPQ".into(), webauthn_handle: "hh".into(), is_admin: true, status: UserStatus::Active, created_at: 3 });
    assert_eq!(plan_create_user(&member("x"), "Bob", false, "u".into(), "s".into(), "h".into(), 0), Err(DomainError::Forbidden));

    let base = user(UserStatus::Active);
    let p = plan_patch_user(&admin(), Some(base.clone()), Some(" Anna "), None).unwrap();
    assert_eq!(p, User { name: "Anna".into(), ..base.clone() });
    let p = plan_patch_user(&admin(), Some(base.clone()), None, Some(true)).unwrap();
    assert_eq!(p, User { is_admin: true, ..base.clone() });
    assert_eq!(plan_patch_user(&admin(), Some(base.clone()), Some(""), Some(true)), Err(invalid("name must not be empty")));
    assert_eq!(plan_patch_user(&admin(), None, None, None), Err(DomainError::NotFound("user".into())));
    assert_eq!(plan_patch_user(&member("u1"), Some(base.clone()), None, None), Err(DomainError::Forbidden));

    assert_eq!(plan_patch_me(Some(base.clone()), "Zoe"), Ok(User { name: "Zoe".into(), ..base.clone() }));
    assert_eq!(plan_patch_me(None, "Zoe"), Err(DomainError::Unauthenticated));
}

#[test]
fn subscriptions_and_credentials() {
    let s = plan_push_subscription(&member("u1"), "p1".into(), "https://push.example/x", "k", "a", 4).unwrap();
    assert_eq!((s.id.as_str(), s.user_id.as_str(), s.endpoint.as_str(), s.p256dh.as_str(), s.auth.as_str(), s.created_at), ("p1", "u1", "https://push.example/x", "k", "a", 4));
    assert_eq!(plan_push_subscription(&member("u1"), "p".into(), "", "k", "a", 4), Err(invalid("missing endpoint")));
    let reg = RegistrationResult { credential_id: "cid".into(), public_key_sec1: "pk".into(), sign_count: 3, aaguid: "00".into() };
    let c = new_credential("c1".into(), "u1", &reg, 9);
    assert_eq!((c.webauthn_credential_id.as_str(), c.public_key.as_str(), c.sign_count, c.aaguid.as_str()), ("cid", "pk", 3, "00"));
    assert!(c.transports.is_empty());
    let cfg = |a: &str, b: &str| Config {
        rp_id: "r".into(),
        rp_origin: "o".into(),
        setup_secret: "".into(),
        vapid_public_key: a.into(),
        vapid_private_key: b.into(),
    };
    assert!(push_enabled(&cfg("pub", "priv")));
    assert!(!push_enabled(&cfg("", "priv")));
    assert!(!push_enabled(&cfg("pub", "")));
}

#[test]
fn rate_limit_windows() {
    assert_eq!(rate_window_start(1_000_123, 60_000), 960_000);
    assert_eq!(rate_window_start(60_000, 60_000), 60_000);
    // Rust's remainder keeps the sign of the time.
    assert_eq!(rate_window_start(-5, 3), -3);
    // A window under a millisecond counts as one.
    assert_eq!(rate_window_start(7, 0), 7);
    assert_eq!(rate_window_start(i64::MIN, 60_000), i64::MIN - (i64::MIN % 60_000));
}

#[test]
fn allocation_and_login_cookie() {
    assert_eq!(MAX_ALLOCATION_ATTEMPTS, 20);
    assert_eq!(allocation_failure("ref"), DomainError::Internal("ref allocation failed".into()));
    assert_eq!(
        login_cookie("abc"),
        "okr_session=abc; HttpOnly; Secure; SameSite=Strict; Path=/; Max-Age=604800"
    );
}

#[test]
fn challenges_live_five_minutes() {
    assert_eq!(challenge_expires_at(1_000), 301_000);
}

#[test]
fn allocation_retries_until_attempts_are_spent() {
    assert_eq!(allocation_step(1, false), AllocationStep::Use);
    assert_eq!(allocation_step(1, true), AllocationStep::Retry);
    assert_eq!(allocation_step(19, true), AllocationStep::Retry);
    assert_eq!(allocation_step(20, true), AllocationStep::GiveUp);
    assert_eq!(allocation_step(20, false), AllocationStep::Use);
    assert_eq!(MAX_ALLOCATION_ATTEMPTS, 20);
}

#[test]
fn bootstrap_admission_and_challenge() {
    assert_eq!(bootstrap_admission(1, "s3cret", "s3cret"), Err(DomainError::SetupClosed));
    assert_eq!(bootstrap_admission(0, "nope", "s3cret"), Err(DomainError::Forbidden));
    assert_eq!(bootstrap_admission(0, "", ""), Err(DomainError::Forbidden));
    assert_eq!(bootstrap_admission(0, "s3cret", "s3cret"), Ok(()));
    let row = bootstrap_challenge("cid".into(), "chal".into(), "aGFuZGxl", "ABCDE", 1_000);
    assert_eq!(row.id, "cid");
    assert_eq!(row.kind, "bootstrap");
    assert_eq!(row.challenge, "chal");
    assert_eq!(row.user_id, None);
    assert_eq!(row.data, Some(bootstrap_data("aGFuZGxl", "ABCDE")));
    assert_eq!(row.data.unwrap(), "{\"handle\":\"aGFuZGxl\",\"is_admin\":true,\"short_name\":\"ABCDE\"}");
    assert_eq!(row.expires_at, 301_000);
}

#[test]
fn one_notification_per_recipient() {
    let users = vec!["u1".to_string(), "u2".to_string()];
    let payload = serde_json::Value::String("OKR-7H2K".into());
    let ns = notifications_for(&users, NotificationKind::OkrChanged, &payload, 42);
    assert_eq!(ns.len(), 2);
    for (n, u) in ns.iter().zip(&users) {
        assert_eq!(&n.user_id, u);
        assert_eq!(n.kind, NotificationKind::OkrChanged);
        assert_eq!(n.created_at, 42);
        assert_eq!(n.read_at, None);
        assert_eq!(n.id.len(), 36);
        assert_eq!(n.payload, payload);
    }
    assert_ne!(ns[0].id, ns[1].id);
    assert!(notifications_for(&Vec::new(), NotificationKind::OkrAssigned, &payload, 0).is_empty());
}

#[test]
fn pending_data_quotes_like_serde_json() {
    for s in ["plain", "q\"uo\\te", "tab\tnl\ncr\rbs\u{8}ff\u{c}", "ctl\u{1}\u{1f}\u{7f}", "ünï€😀", ""] {
        let quoted = serde_json::Value::String(s.to_string()).to_string();
        assert_eq!(registration_data(s), format!("{{\"code\":{}}}", quoted));
    }
    assert_eq!(registration_data("a\u{1}"), "{\"code\":\"a\\u0001\"}");
}
