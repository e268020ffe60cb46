//! User roles with the strict order Viewer < Operator < Admin < Owner.

use vstd::prelude::*;
use std::cmp::Ordering;
use vstd::std_specs::cmp::PartialOrdSpecImpl;
use crate::text::{chars_of, str_eq, string_of};

verus! {

/// User role with strict ordering: Viewer < Operator < Admin < Owner.
#[derive(Debug, Clone, Copy, PartialEq, Eq, Structural, Ord)]
pub enum Role {
    Viewer,
    Operator,
    Admin,
    Owner,
}

/// The rank of a role in the order.
pub open spec fn spec_rank(r: Role) -> u8 {
    match r {
        Role::Viewer => 0,
        Role::Operator => 1,
        Role::Admin => 2,
        Role::Owner => 3,
    }
}

/// The lowercase name of a role.
pub open spec fn spec_role_name(r: Role) -> Seq<char> {
    match r {
        Role::Viewer => "viewer"@,
        Role::Operator => "operator"@,
        Role::Admin => "admin"@,
        Role::Owner => "owner"@,
    }
}

/// What `Role::parse_name` makes of a string.
pub open spec fn spec_parse_role(s: Seq<char>) -> Option<Role> {
    if s == "viewer"@ { Some(Role::Viewer) }
    else if s == "operator"@ { Some(Role::Operator) }
    else if s == "admin"@ { Some(Role::Admin) }
    else if s == "owner"@ { Some(Role::Owner) }
    else { None }
}

/// The order of ranks, as an `Ordering`.
pub open spec fn rank_order(a: Role, b: Role) -> Ordering {
    if spec_rank(a) < spec_rank(b) {
        Ordering::Less
    } else if spec_rank(a) == spec_rank(b) {
        Ordering::Equal
    } else {
        Ordering::Greater
    }
}

impl Role {
    /// The rank of the role.
    pub fn rank(self) -> (r: u8)
        ensures
            r == spec_rank(self),
    {
        match self {
            Role::Viewer => 0,
            Role::Operator => 1,
            Role::Admin => 2,
            Role::Owner => 3,
        }
    }

    /// Whether this role is at least `minimum`.
    pub fn at_least(self, minimum: Role) -> (r: bool)
        ensures
            r == (spec_rank(self) >= spec_rank(minimum)),
    {
        self.rank() >= minimum.rank()
    }

    /// The lowercase name of the role (its `Display` form).
    pub fn to_text(&self) -> (r: String)
        ensures
            r@ == spec_role_name(*self),
    {
        let s = match self {
            Role::Viewer => "viewer",
            Role::Operator => "operator",
            Role::Admin => "admin",
            Role::Owner => "owner",
        };
        s.to_string()
    }

    /// Parse a lowercase role name.
    pub fn parse_name(s: &str) -> (r: Result<Role, String>)
        ensures
            r is Ok <==> spec_parse_role(s@) is Some,
            r matches Ok(role) ==> spec_parse_role(s@) == Some(role),
            r matches Err(msg) ==> msg@ == "unknown role: "@ + s@,
    {
        if str_eq(s, "viewer") { Ok(Role::Viewer) }
        else if str_eq(s, "operator") { Ok(Role::Operator) }
        else if str_eq(s, "admin") { Ok(Role::Admin) }
        else if str_eq(s, "owner") { Ok(Role::Owner) }
        else {
            let mut msg = chars_of("unknown role: ");
            let mut tail = chars_of(s);
            msg.append(&mut tail);
            Err(string_of(msg.as_slice()))
        }
    }
}

impl PartialOrd for Role {
    fn partial_cmp(&self, other: &Role) -> (r: Option<Ordering>) {
        let a = self.rank();
        let b = other.rank();
        if a < b {
            Some(Ordering::Less)
        } else if a == b {
            Some(Ordering::Equal)
        } else {
            Some(Ordering::Greater)
        }
    }
}

impl PartialOrdSpecImpl for Role {
    open spec fn obeys_partial_cmp_spec() -> bool {
        true
    }

    open spec fn partial_cmp_spec(&self, other: &Role) -> Option<Ordering> {
        Some(rank_order(*self, *other))
    }
}

impl std::str::FromStr for Role {
    type Err = String;

    /// The role a name spells (`Role::parse_name`).
    fn from_str(s: &str) -> (r: Result<Role, String>)
        ensures
            r is Ok <==> spec_parse_role(s@) is Some,
            r matches Ok(role) ==> spec_parse_role(s@) == Some(role),
            r matches Err(msg) ==> msg@ == "unknown role: "@ + s@,
    {
        Role::parse_name(s)
    }
}

/// The rank order is strict and total: distinct roles have distinct ranks.
pub proof fn lemma_rank_injective(a: Role, b: Role)
    ensures
        (spec_rank(a) == spec_rank(b)) == (a == b),
{
}

/// A role's name parses back to the role.
pub proof fn lemma_role_roundtrip(r: Role)
    ensures
        spec_parse_role(spec_role_name(r)) == Some(r),
{
    reveal_strlit("viewer");
    reveal_strlit("operator");
    reveal_strlit("admin");
    reveal_strlit("owner");
    assert("viewer"@[0] == 'v' && "operator"@[0] == 'o' && "admin"@[0] == 'a' && "owner"@[0] == 'o');
    assert("operator"@[1] == 'p' && "owner"@[1] == 'w');
    assert("viewer"@ != "operator"@);
    assert("viewer"@ != "admin"@);
    assert("operator"@ != "admin"@);
    assert("viewer"@ != "owner"@);
    assert("operator"@ != "owner"@);
    assert("admin"@ != "owner"@);
}

} // verus!
