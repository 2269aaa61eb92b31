use vstd::prelude::*;

verus! {

/// Privilege levels, ordered from least to most privileged. `NoRole` travels in tokens as `"None"`.
#[derive(Debug, Clone, Copy, PartialEq, Eq, Structural, PartialOrd, Ord)]
pub enum Role {
    NoRole,
    ReadAll,
    WriteAll,
    Admin,
}

/// Position of a role in the privilege order.
pub open spec fn rank(r: Role) -> nat {
    match r {
        Role::NoRole => 0,
        Role::ReadAll => 1,
        Role::WriteAll => 2,
        Role::Admin => 3,
    }
}

impl Role {
    pub fn rank(&self) -> (r: u8)
        ensures
            r as nat == rank(*self),
    {
        match self {
            Role::NoRole => 0,
            Role::ReadAll => 1,
            Role::WriteAll => 2,
            Role::Admin => 3,
        }
    }
}

/// Whether `role` is at least as privileged as `threshold`.
pub fn has_at_least(role: Role, threshold: Role) -> (r: bool)
    ensures
        r == (rank(role) >= rank(threshold)),
{
    role.rank() >= threshold.rank()
}

/// The privilege order is `None < ReadAll < WriteAll < Admin`, and comparing
/// two roles with `has_at_least` follows exactly that order: it is a total
/// order in which distinct roles never reach each other in both directions.
pub proof fn lemma_role_order()
    ensures
        rank(Role::NoRole) < rank(Role::ReadAll),
        rank(Role::ReadAll) < rank(Role::WriteAll),
        rank(Role::WriteAll) < rank(Role::Admin),
        forall|a: Role, b: Role| #![auto] rank(a) >= rank(b) || rank(b) >= rank(a),
        forall|a: Role, b: Role| #![auto] rank(a) >= rank(b) && rank(b) >= rank(a) ==> a == b,
        forall|a: Role| #[trigger] rank(a) >= rank(Role::NoRole) && rank(Role::Admin) >= rank(a),
{
}

} // verus!
