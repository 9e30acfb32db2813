//! Authorization matrix. Every check takes the `Actor` derived from a validated
//! session, never a client-supplied role flag.
use vstd::prelude::*;

use crate::error::{DomainError, DomainResult};
use crate::model::Actor;

verus! {

/// A discrete capability a request may require.
#[derive(Debug, Clone, PartialEq, Eq)]
pub enum Capability {
    /// Read groups/OKRs/updates/history: everyone authenticated.
    Read,
    /// Create/edit/delete groups and OKRs, revert, assign: admin only.
    ManageOkrs,
    /// Create/edit/delete users, issue codes, promote/demote: admin only.
    ManageUsers,
    /// Post an update or toggle done on an OKR: gated on assignment for
    /// everyone, admins included. `assignees` is the OKR's current assignee set.
    ContributeToOkr { assignees: Vec<String> },
    /// Edit the actor's own display name: everyone.
    EditOwnName,
    /// Manage the actor's own passkeys / push subscription: everyone.
    ManageOwnAuth,
    /// Edit or delete a specific update: its author or an admin.
    ModifyUpdate { author_id: String },
}

/// `user` is one of `ids`.
pub open spec fn listed(ids: Seq<String>, user: Seq<char>) -> bool {
    exists|i: int| 0 <= i < ids.len() && (#[trigger] ids[i])@ == user
}

/// Whether `actor` holds `cap`.
pub open spec fn permits(actor: Actor, cap: Capability) -> bool {
    match cap {
        Capability::Read | Capability::EditOwnName | Capability::ManageOwnAuth => true,
        Capability::ManageOkrs | Capability::ManageUsers => actor.is_admin,
        Capability::ContributeToOkr { assignees } => listed(assignees@, actor.user_id@),
        Capability::ModifyUpdate { author_id } => actor.is_admin || author_id@ == actor.user_id@,
    }
}

fn is_listed(ids: &Vec<String>, user: &String) -> (r: bool)
    ensures
        r == listed(ids@, user@),
{
    let mut i: usize = 0;
    while i < ids.len()
        invariant
            i <= ids@.len(),
            forall|k: int| 0 <= k < i ==> (#[trigger] ids@[k])@ != user@,
        decreases ids.len() - i,
    {
        if ids[i] == *user {
            return true;
        }
        i += 1;
    }
    false
}

/// Returns `true` if `actor` holds `cap`. Pure and total.
pub fn allows(actor: &Actor, cap: &Capability) -> (r: bool)
    ensures
        r == permits(*actor, *cap),
{
    match cap {
        Capability::Read | Capability::EditOwnName | Capability::ManageOwnAuth => true,
        Capability::ManageOkrs | Capability::ManageUsers => actor.is_admin,
        Capability::ContributeToOkr { assignees } => is_listed(assignees, &actor.user_id),
        Capability::ModifyUpdate { author_id } => actor.is_admin || *author_id == actor.user_id,
    }
}

/// `Ok(())` when permitted, `Forbidden` otherwise.
pub fn require(actor: &Actor, cap: Capability) -> (r: DomainResult<()>)
    ensures
        r is Ok <==> permits(*actor, cap),
        r is Err ==> r == Err::<(), DomainError>(DomainError::Forbidden),
{
    if allows(actor, &cap) {
        Ok(())
    } else {
        Err(DomainError::Forbidden)
    }
}

/// Reading, and editing one's own profile and credentials, is open to every
/// actor; managing OKRs or users is exactly the admin flag.
pub proof fn law_open_and_admin_capabilities(actor: Actor)
    ensures
        permits(actor, Capability::Read),
        permits(actor, Capability::EditOwnName),
        permits(actor, Capability::ManageOwnAuth),
        permits(actor, Capability::ManageOkrs) == actor.is_admin,
        permits(actor, Capability::ManageUsers) == actor.is_admin,
{
}

/// Contributing to an OKR depends on assignment alone: the admin flag neither
/// grants nor removes it.
pub proof fn law_contribution_ignores_admin_flag(user_id: String, assignees: Vec<String>)
    ensures
        permits(Actor { user_id, is_admin: true }, Capability::ContributeToOkr { assignees })
            == permits(Actor { user_id, is_admin: false }, Capability::ContributeToOkr { assignees }),
        permits(Actor { user_id, is_admin: false }, Capability::ContributeToOkr { assignees })
            == listed(assignees@, user_id@),
{
}

/// An update can be modified by its author and by any admin, and by nobody else.
pub proof fn law_update_author_or_admin(actor: Actor, author_id: String)
    ensures
        permits(actor, Capability::ModifyUpdate { author_id }) <==> (actor.is_admin
            || author_id@ == actor.user_id@),
        actor.is_admin ==> permits(actor, Capability::ModifyUpdate { author_id }),
{
}

} // verus!
