use okr_tracker::model::{Credential, GroupVersion, NotificationKind, OkrDone, OkrVersion, User, UserStatus};
use okr_tracker::rows::{
    credential_from_row, kind_from_text, kind_text, notification_from_row, status_text, CredRow, GvRow, NotifRow,
    OdRow, OvRow, UserRow,
};

#[test]
fn user_rows() {
    let row = |is_admin: i64, status: &str| UserRow {
        id: "u".into(),
        name: "n".into(),
        short_name: "s".into(),
        webauthn_handle: "h".into(),
        is_admin,
        status: status.into(),
        created_at: 4,
    };
    let u = User::from(row(1, "active"));
    assert!(u.is_admin);
    assert_eq!(u.status, UserStatus::Active);
    let u = User::from(row(0, "deleted"));
    assert!(!u.is_admin);
    assert_eq!(u.status, UserStatus::Deleted);
    assert_eq!(User::from(row(-3, "other")).status, UserStatus::Active);
    assert!(User::from(row(-3, "other")).is_admin);
    assert_eq!(status_text(UserStatus::Deleted), "deleted");
    assert_eq!(status_text(UserStatus::Active), "active");
}

#[test]
fn credential_rows() {
    let row = |sign_count: i64, transports: &str| CredRow {
        id: "c".into(),
        user_id: "u".into(),
        webauthn_credential_id: "w".into(),
        public_key: "p".into(),
        sign_count,
        aaguid: "a".into(),
        transports: transports.into(),
        created_at: 1,
    };
    let c: Credential = credential_from_row(row(5, "[\"usb\",\"nfc\"]"));
    assert_eq!(c.transports, vec!["usb".to_string(), "nfc".to_string()]);
    assert_eq!(c.sign_count, 5);
    assert!(credential_from_row(row(5, "garbage")).transports.is_empty());
    // The stored count is read back as 32 bits.
    assert_eq!(credential_from_row(row((1i64 << 32) + 9, "[]")).sign_count, 9);
}

#[test]
fn version_and_done_rows() {
    let g = GroupVersion::from(GvRow {
        group_id: "g".into(),
        version: 3,
        name: "n".into(),
        description_md: "d".into(),
        valid: 0,
        author_id: "a".into(),
        created_at: 2,
    });
    assert_eq!((g.version, g.valid), (3, false));
    let o = OkrVersion::from(OvRow {
        okr_id: "o".into(),
        version: 4,
        objective_md: "x".into(),
        key_results_md: "y".into(),
        valid: 1,
        author_id: "a".into(),
        created_at: 2,
    });
    assert_eq!((o.version, o.valid), (4, true));
    let d = OkrDone::from(OdRow { okr_id: "o".into(), version: 2, done: 1, set_by: "u".into(), set_at: 8 });
    assert_eq!((d.version, d.done, d.set_at), (2, true, 8));
}

#[test]
fn notification_rows() {
    assert_eq!(kind_from_text("okr_assigned"), NotificationKind::OkrAssigned);
    assert_eq!(kind_from_text("okr_changed"), NotificationKind::OkrChanged);
    assert_eq!(kind_from_text("anything"), NotificationKind::UpdatePosted);
    assert_eq!(kind_text(NotificationKind::UpdatePosted), "update_posted");
    let n = notification_from_row(NotifRow {
        id: "n".into(),
        user_id: "u".into(),
        kind: "okr_changed".into(),
        payload: "{\"humanRef\":\"OKR-2345\"}".into(),
        created_at: 3,
        read_at: Some(4),
    });
    assert_eq!(n.kind, NotificationKind::OkrChanged);
    assert_eq!(n.payload["humanRef"], "OKR-2345");
    assert_eq!(n.read_at, Some(4));
    let n = notification_from_row(NotifRow {
        id: "n".into(),
        user_id: "u".into(),
        kind: "x".into(),
        payload: "not json".into(),
        created_at: 3,
        read_at: None,
    });
    assert!(n.payload.is_null());
}
