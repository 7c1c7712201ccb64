//! Authorization gate: whether an actor may issue comment commands.
//! Collaborators and above always may; anyone may on their own issue.

use vstd::prelude::*;

use crate::privilege::PrivilegeTier;

verus! {

/// An actor may issue commands if their tier is at least collaborator,
/// or if they authored the issue themselves.
pub open spec fn spec_command_allowed(tier: PrivilegeTier, commenter_id: u64, author_id: u64) -> bool {
    tier.spec_level() >= 1 || commenter_id == author_id
}

/// Decides whether comment commands from this actor are to be obeyed.
pub fn command_allowed(tier: PrivilegeTier, commenter_id: u64, author_id: u64) -> (b: bool)
    ensures
        b == spec_command_allowed(tier, commenter_id, author_id),
{
    tier.level() >= 1 || commenter_id == author_id
}

} // verus!
