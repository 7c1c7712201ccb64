//! Privilege classification: maps a commenter's relationship to the
//! repository (the forge's author-association field) to a trust tier.

use vstd::prelude::*;

verus! {

/// The forge's classification of a commenter's relationship to the
/// repository, as carried in the event payload. `Other` stands for the
/// forge's free-text catch-all and any value not otherwise recognized.
#[derive(Debug, Clone, Copy, PartialEq, Eq, Structural)]
pub enum Association {
    Owner,
    Member,
    Collaborator,
    Contributor,
    FirstTimer,
    FirstTimeContributor,
    Mannequin,
    NoAssociation,
    Other,
}

/// Ordered trust tier derived from an `Association`; never persisted,
/// recomputed for every event.
#[derive(Debug, Clone, Copy, PartialEq, Eq, Structural)]
pub enum PrivilegeTier {
    Untrusted,
    Collaborator,
    Maintainer,
}

impl PrivilegeTier {
    /// Numeric rank of the tier: 0, 1 or 2.
    pub open spec fn spec_level(self) -> int {
        match self {
            PrivilegeTier::Untrusted => 0,
            PrivilegeTier::Collaborator => 1,
            PrivilegeTier::Maintainer => 2,
        }
    }

    /// Numeric rank of the tier, for callers that compare tiers.
    pub fn level(&self) -> (r: u8)
        ensures
            r as int == self.spec_level(),
    {
        match self {
            PrivilegeTier::Untrusted => 0,
            PrivilegeTier::Collaborator => 1,
            PrivilegeTier::Maintainer => 2,
        }
    }
}

/// The tier an association maps to: owners and members are maintainers,
/// collaborators stand alone, everyone else is untrusted.
pub open spec fn spec_classify(a: Association) -> PrivilegeTier {
    match a {
        Association::Owner => PrivilegeTier::Maintainer,
        Association::Member => PrivilegeTier::Maintainer,
        Association::Collaborator => PrivilegeTier::Collaborator,
        _ => PrivilegeTier::Untrusted,
    }
}

/// Derives the privilege tier from the raw author association. Total:
/// every association yields a tier, unknown ones the lowest.
pub fn classify(a: Association) -> (t: PrivilegeTier)
    ensures
        t == spec_classify(a),
{
    match a {
        Association::Owner => PrivilegeTier::Maintainer,
        Association::Member => PrivilegeTier::Maintainer,
        Association::Collaborator => PrivilegeTier::Collaborator,
        Association::Contributor => PrivilegeTier::Untrusted,
        Association::FirstTimer => PrivilegeTier::Untrusted,
        Association::FirstTimeContributor => PrivilegeTier::Untrusted,
        Association::Mannequin => PrivilegeTier::Untrusted,
        Association::NoAssociation => PrivilegeTier::Untrusted,
        Association::Other => PrivilegeTier::Untrusted,
    }
}

} // verus!
