//! Deployment configuration, read from the plain-text vars and secrets bound to
//! the deployment.
use vstd::prelude::*;

use crate::text::{str_eq, string_of};

verus! {

/// The name/value bindings a deployment provides: plain vars and secrets.
pub struct EnvBindings {
    pub vars: Vec<(String, String)>,
    pub secrets: Vec<(String, String)>,
}

/// Deployment configuration.
pub struct Config {
    pub rp_id: String,
    pub rp_origin: String,
    pub setup_secret: String,
    pub vapid_public_key: String,
    pub vapid_private_key: String,
}

/// The value bound to `name` (the first binding with that name).
pub open spec fn lookup(list: Seq<(String, String)>, name: Seq<char>) -> Option<Seq<char>>
    decreases list.len(),
{
    if list.len() == 0 {
        None
    } else if list[0].0@ == name {
        Some(list[0].1@)
    } else {
        lookup(list.drop_first(), name)
    }
}

/// A required value: the var, else the secret.
pub open spec fn spec_get(env: EnvBindings, name: Seq<char>) -> Option<Seq<char>> {
    match lookup(env.vars@, name) {
        Some(v) => Some(v),
        None => lookup(env.secrets@, name),
    }
}

/// A secret: the secret, else a var of the same name (previews may inject some
/// secrets as vars).
pub open spec fn spec_get_secret(env: EnvBindings, name: Seq<char>) -> Option<Seq<char>> {
    match lookup(env.secrets@, name) {
        Some(v) => Some(v),
        None => lookup(env.vars@, name),
    }
}

/// The value or, when absent, the empty text.
pub open spec fn or_empty(v: Option<Seq<char>>) -> Seq<char> {
    match v {
        Some(s) => s,
        None => Seq::empty(),
    }
}

fn lookup_in(list: &Vec<(String, String)>, name: &str) -> (r: Option<String>)
    ensures
        match lookup(list@, name@) {
            Some(v) => r matches Some(s) && s@ == v,
            None => r is None,
        },
{
    let mut i: usize = 0;
    assert(list@.skip(0) =~= list@);
    while i < list.len()
        invariant
            i <= list@.len(),
            lookup(list@, name@) == lookup(list@.skip(i as int), name@),
        decreases list.len() - i,
    {
        assert(list@.skip(i as int)[0] == list@[i as int]);
        assert(list@.skip(i as int).drop_first() =~= list@.skip(i + 1));
        if str_eq(list[i].0.as_str(), name) {
            return Some(list[i].1.clone());
        }
        i += 1;
    }
    None
}

/// A required value: the var named `name`, else the secret.
pub fn get(env: &EnvBindings, name: &str) -> (r: Option<String>)
    ensures
        match spec_get(*env, name@) {
            Some(v) => r matches Some(s) && s@ == v,
            None => r is None,
        },
{
    match lookup_in(&env.vars, name) {
        Some(v) => Some(v),
        None => lookup_in(&env.secrets, name),
    }
}

/// A secret: the secret named `name`, else a var of that name.
pub fn get_secret(env: &EnvBindings, name: &str) -> (r: Option<String>)
    ensures
        match spec_get_secret(*env, name@) {
            Some(v) => r matches Some(s) && s@ == v,
            None => r is None,
        },
{
    match lookup_in(&env.secrets, name) {
        Some(v) => Some(v),
        None => lookup_in(&env.vars, name),
    }
}

fn or_empty_string(v: Option<String>) -> (r: String)
    ensures
        r@ == or_empty(
            match v {
                Some(s) => Some(s@),
                None => None,
            },
        ),
{
    match v {
        Some(s) => s,
        None => String::new(),
    }
}

impl Config {
    /// Read the configuration. `RP_ID` and `RP_ORIGIN` are required (a var or
    /// a secret); a missing one is reported by name. The setup secret and the
    /// VAPID keys default to empty.
    pub fn load(env: &EnvBindings) -> (r: Result<Config, String>)
        ensures
            spec_get(*env, "RP_ID"@) is None ==> (r matches Err(m) && m@ == "RP_ID"@),
            spec_get(*env, "RP_ID"@) is Some && spec_get(*env, "RP_ORIGIN"@) is None ==> (r matches Err(
                m,
            ) && m@ == "RP_ORIGIN"@),
            r matches Ok(c) ==> {
                &&& Some(c.rp_id@) == spec_get(*env, "RP_ID"@)
                &&& Some(c.rp_origin@) == spec_get(*env, "RP_ORIGIN"@)
                &&& c.setup_secret@ == or_empty(spec_get_secret(*env, "SETUP_SECRET"@))
                &&& c.vapid_public_key@ == or_empty(spec_get(*env, "VAPID_PUBLIC_KEY"@))
                &&& c.vapid_private_key@ == or_empty(spec_get_secret(*env, "VAPID_PRIVATE_KEY"@))
            },
            (spec_get(*env, "RP_ID"@) is Some && spec_get(*env, "RP_ORIGIN"@) is Some) ==> r is Ok,
    {
        let rp_id = match get(env, "RP_ID") {
            Some(v) => v,
            None => return Err(string_of("RP_ID")),
        };
        let rp_origin = match get(env, "RP_ORIGIN") {
            Some(v) => v,
            None => return Err(string_of("RP_ORIGIN")),
        };
        Ok(Config {
            rp_id,
            rp_origin,
            setup_secret: or_empty_string(get_secret(env, "SETUP_SECRET")),
            vapid_public_key: or_empty_string(get(env, "VAPID_PUBLIC_KEY")),
            vapid_private_key: or_empty_string(get_secret(env, "VAPID_PRIVATE_KEY")),
        })
    }
}

} // verus!
