use vstd::prelude::*;

use crate::power_levels::PowerLevel;

verus! {

/// Role of a room member, like admin or moderator.
#[derive(Clone, Copy, Debug, PartialEq, Eq, Structural)]
pub enum MemberRole {
    ADMIN,
    MOD,
    PEASANT,
}

/// The role that a power level grants: admin from 100 up, moderator from 50
/// below 100, normal user below 50.
pub open spec fn role_for_level(power_level: int) -> MemberRole {
    if power_level >= 100 {
        MemberRole::ADMIN
    } else if 50 <= power_level < 100 {
        MemberRole::MOD
    } else {
        MemberRole::PEASANT
    }
}

/// The rank of a role: a normal user below a moderator below an admin.
pub open spec fn role_rank(role: MemberRole) -> int {
    match role {
        MemberRole::PEASANT => 0,
        MemberRole::MOD => 1,
        MemberRole::ADMIN => 2,
    }
}

impl MemberRole {
    pub fn is_admin(&self) -> (b: bool)
        ensures
            b == (*self == MemberRole::ADMIN),
    {
        matches!(*self, MemberRole::ADMIN)
    }

    pub fn is_mod(&self) -> (b: bool)
        ensures
            b == (*self == MemberRole::MOD),
    {
        matches!(*self, MemberRole::MOD)
    }

    pub fn is_peasant(&self) -> (b: bool)
        ensures
            b == (*self == MemberRole::PEASANT),
    {
        matches!(*self, MemberRole::PEASANT)
    }

    /// The role of a member with the given power level.
    pub fn from_power_level(power_level: PowerLevel) -> (role: MemberRole)
        ensures
            role == role_for_level(power_level as int),
    {
        if power_level >= 100 {
            MemberRole::ADMIN
        } else if power_level >= 50 {
            MemberRole::MOD
        } else {
            MemberRole::PEASANT
        }
    }

    /// The bits that stand for this role among the member-role flags.
    pub fn bits(&self) -> (bits: u32)
        ensures
            bits == match *self {
                MemberRole::ADMIN => 1u32,
                MemberRole::MOD => 2u32,
                MemberRole::PEASANT => 0u32,
            },
    {
        match *self {
            MemberRole::ADMIN => 1,
            MemberRole::MOD => 2,
            MemberRole::PEASANT => 0,
        }
    }

    /// The untranslated label that names this role to the user.
    pub fn label_msgid(&self) -> (label: &'static str)
        ensures
            *self == MemberRole::ADMIN ==> label@ == "Admin"@,
            *self == MemberRole::MOD ==> label@ == "Moderator"@,
            *self == MemberRole::PEASANT ==> label@ == "Normal user"@,
    {
        match *self {
            MemberRole::ADMIN => "Admin",
            MemberRole::MOD => "Moderator",
            MemberRole::PEASANT => "Normal user",
        }
    }
}

/// Exactly one of `is_admin`, `is_mod` and `is_peasant` holds of a role.
pub proof fn lemma_role_predicates_exclusive(role: MemberRole)
    ensures
        (role == MemberRole::ADMIN) as int + (role == MemberRole::MOD) as int + (role
            == MemberRole::PEASANT) as int == 1,
{
}

/// A higher power level never gives a lower role.
pub proof fn lemma_role_monotone(low: int, high: int)
    requires
        low <= high,
    ensures
        role_rank(role_for_level(low)) <= role_rank(role_for_level(high)),
{
}

} // verus!
