use okr_tracker::config::{get, get_secret, Config, EnvBindings};

fn env(vars: &[(&str, &str)], secrets: &[(&str, &str)]) -> EnvBindings {
    EnvBindings {
        vars: vars.iter().map(|(a, b)| (a.to_string(), b.to_string())).collect(),
        secrets: secrets.iter().map(|(a, b)| (a.to_string(), b.to_string())).collect(),
    }
}

#[test]
fn config_reads_vars_and_secrets() {
    let e = env(
        &[("RP_ID", "okr.example"), ("RP_ORIGIN", "https://okr.example"), ("VAPID_PUBLIC_KEY", "pub")],
        &[("SETUP_SECRET", "s3cr3t"), ("VAPID_PRIVATE_KEY", "priv")],
    );
    let c: Config = Config::load(&e).ok().unwrap();
    assert_eq!(c.rp_id, "okr.example");
    assert_eq!(c.rp_origin, "https://okr.example");
    assert_eq!(c.setup_secret, "s3cr3t");
    assert_eq!(c.vapid_public_key, "pub");
    assert_eq!(c.vapid_private_key, "priv");
}

#[test]
fn config_requires_rp_id_and_origin() {
    let e = env(&[("RP_ORIGIN", "https://okr.example")], &[]);
    assert_eq!(Config::load(&e).err(), Some("RP_ID".to_string()));
    let e = env(&[("RP_ID", "okr.example")], &[]);
    assert_eq!(Config::load(&e).err(), Some("RP_ORIGIN".to_string()));
    // Required values may come from secrets; optional ones default to empty.
    let e = env(&[], &[("RP_ID", "a"), ("RP_ORIGIN", "b")]);
    let c = Config::load(&e).ok().unwrap();
    assert_eq!(c.rp_id, "a");
    assert_eq!(c.setup_secret, "");
    assert_eq!(c.vapid_public_key, "");
}

#[test]
fn vars_win_for_values_and_secrets_win_for_secrets() {
    let e = env(&[("K", "var")], &[("K", "secret")]);
    assert_eq!(get(&e, "K"), Some("var".to_string()));
    assert_eq!(get_secret(&e, "K"), Some("secret".to_string()));
    let e = env(&[("K", "var")], &[]);
    assert_eq!(get_secret(&e, "K"), Some("var".to_string()));
    assert_eq!(get(&e, "missing"), None);
}
