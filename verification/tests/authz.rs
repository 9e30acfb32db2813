use okr_tracker::authz::{allows, require, Capability};
use okr_tracker::model::Actor;
use okr_tracker::DomainError;

fn admin() -> Actor {
    Actor { user_id: "admin".into(), is_admin: true }
}

fn user(id: &str) -> Actor {
    Actor { user_id: id.into(), is_admin: false }
}

#[test]
fn read_is_open_to_all_authenticated() {
    assert!(allows(&user("u"), &Capability::Read));
    assert!(allows(&admin(), &Capability::Read));
}

#[test]
fn management_is_admin_only() {
    assert!(allows(&admin(), &Capability::ManageOkrs));
    assert!(allows(&admin(), &Capability::ManageUsers));
    assert!(!allows(&user("u"), &Capability::ManageOkrs));
    assert!(!allows(&user("u"), &Capability::ManageUsers));
}

#[test]
fn contribute_requires_assignment_even_for_admins() {
    let cap = || Capability::ContributeToOkr { assignees: vec!["alice".into(), "bob".into()] };
    assert!(allows(&user("alice"), &cap()));
    assert!(!allows(&user("carol"), &cap()));
    // An admin who is not assigned cannot contribute.
    assert!(!allows(&admin(), &cap()));
    // An admin assigned to the OKR can.
    let cap_admin = Capability::ContributeToOkr { assignees: vec!["admin".into()] };
    assert!(allows(&admin(), &cap_admin));
}

#[test]
fn update_modification_is_author_or_admin() {
    let cap = Capability::ModifyUpdate { author_id: "alice".into() };
    assert!(allows(&user("alice"), &cap));
    assert!(allows(&admin(), &cap));
    assert!(!allows(&user("bob"), &cap));
}

#[test]
fn require_returns_forbidden() {
    assert!(matches!(require(&user("u"), Capability::ManageUsers), Err(DomainError::Forbidden)));
    assert!(require(&admin(), Capability::ManageUsers).is_ok());
}

#[test]
fn own_profile_and_credentials_are_open() {
    assert!(allows(&user("u"), &Capability::EditOwnName));
    assert!(allows(&user("u"), &Capability::ManageOwnAuth));
    assert!(require(&user("u"), Capability::Read).is_ok());
}
