//! Permission levels of room members and the checks that commands run.

use vstd::prelude::*;

use crate::structures::{CheckFailed, CheckResult};

verus! {

/// The permission tiers a room member can hold.
#[derive(Debug, Clone, Copy, PartialEq, Eq, Structural)]
pub enum CommandPermission {
    OWNER,
    ADMIN,
    MODERATOR,
    USER,
    NONE,
}

/// The power level that stands for each tier.
pub open spec fn permission_level(p: CommandPermission) -> int {
    match p {
        CommandPermission::OWNER => i64::MAX as int,
        CommandPermission::ADMIN => 100,
        CommandPermission::MODERATOR => 50,
        CommandPermission::USER => 0,
        CommandPermission::NONE => i64::MIN as int,
    }
}

impl CommandPermission {
    /// The power level of this tier.
    pub fn level(&self) -> (r: i64)
        ensures
            r as int == permission_level(*self),
    {
        match self {
            CommandPermission::OWNER => i64::MAX,
            CommandPermission::ADMIN => 100,
            CommandPermission::MODERATOR => 50,
            CommandPermission::USER => 0,
            CommandPermission::NONE => i64::MIN,
        }
    }

    /// Whether this tier is at least as powerful as `perm`.
    pub fn dominates(&self, perm: CommandPermission) -> (r: bool)
        ensures
            r == (permission_level(*self) >= permission_level(perm)),
    {
        self.level() >= perm.level()
    }
}

/// Lets through senders whose power level reaches that of an ordinary user.
pub fn verify_user(power: i64) -> (r: CheckResult)
    ensures
        r is Ok <==> power >= permission_level(CommandPermission::USER),
{
    if power < CommandPermission::USER.level() {
        return Err(CheckFailed);
    }
    Ok(())
}

/// Lets through senders whose power level reaches that of an administrator.
pub fn verify_owner(power: i64) -> (r: CheckResult)
    ensures
        r is Ok <==> power >= permission_level(CommandPermission::ADMIN),
{
    if power < CommandPermission::ADMIN.level() {
        return Err(CheckFailed);
    }
    Ok(())
}

/// `dominates` is a total preorder: every tier dominates itself, domination
/// chains, and of any two tiers one dominates the other.
pub proof fn lemma_dominates_total_preorder(
    a: CommandPermission,
    b: CommandPermission,
    c: CommandPermission,
)
    ensures
        permission_level(a) >= permission_level(a),
        permission_level(a) >= permission_level(b) && permission_level(b) >= permission_level(c)
            ==> permission_level(a) >= permission_level(c),
        permission_level(a) >= permission_level(b) || permission_level(b) >= permission_level(a),
{
}

/// The tiers are strictly ordered: owner above admin above moderator above
/// user above none, so distinct tiers never dominate each other both ways.
pub proof fn lemma_tiers_strictly_ordered(a: CommandPermission, b: CommandPermission)
    ensures
        permission_level(CommandPermission::OWNER) > permission_level(CommandPermission::ADMIN),
        permission_level(CommandPermission::ADMIN) > permission_level(
            CommandPermission::MODERATOR,
        ),
        permission_level(CommandPermission::MODERATOR) > permission_level(
            CommandPermission::USER,
        ),
        permission_level(CommandPermission::USER) > permission_level(CommandPermission::NONE),
        permission_level(a) == permission_level(b) ==> a == b,
{
}

/// Whoever passes the administrator check also passes the user check.
pub proof fn lemma_owner_check_implies_user_check(power: i64)
    ensures
        power >= permission_level(CommandPermission::ADMIN) ==> power >= permission_level(
            CommandPermission::USER,
        ),
{
}

} // verus!
