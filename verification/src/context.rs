//! The authenticated request context and its scope and role checks.

use vstd::prelude::*;
use crate::error::CasperError;
use crate::role::{Role, spec_rank, spec_role_name};
use crate::scope::{Scope, ScopeV, has_scope, scope_error_message, spec_has_scope, spec_parse_scope};
use crate::text::{chars_of, concat_str, string_of};
use crate::types::{CorrelationId, Subject, TenantId, spec_subject_text};

verus! {

/// Authenticated request context.
pub struct TenantContext {
    pub tenant_id: TenantId,
    pub subject: Subject,
    pub role: Role,
    pub scopes: Vec<Scope>,
    pub token_id: String,
    pub correlation_id: CorrelationId,
}

/// The views of a list of scopes.
pub open spec fn scopes_view(s: Seq<Scope>) -> Seq<ScopeV> {
    s.map_values(|x: Scope| x@)
}

impl TenantContext {
    /// Check that the caller has a specific scope: `Ok` when one of its scopes
    /// grants it, `Forbidden` when none does, `Internal` when the requested
    /// scope is malformed.
    pub fn require_scope(&self, requested: &str) -> (r: Result<(), CasperError>)
        ensures
            spec_parse_scope(requested@) is None ==> (r matches Err(CasperError::Internal(m))
                && m@ == "invalid scope: "@ + scope_error_message(requested@)),
            spec_parse_scope(requested@) matches Some(req) ==> {
                if spec_has_scope(scopes_view(self.scopes@), req) {
                    r is Ok
                } else {
                    r matches Err(CasperError::Forbidden(m)) && m@ == "Token lacks scope "@ + requested@
                }
            },
    {
        match Scope::parse(requested) {
            Err(e) => Err(CasperError::Internal(concat_str("invalid scope: ", &e))),
            Ok(req) => {
                if has_scope(self.scopes.as_slice(), &req) {
                    Ok(())
                } else {
                    Err(CasperError::Forbidden(concat_str("Token lacks scope ", requested)))
                }
            }
        }
    }

    /// Check that the caller has at least the given role.
    pub fn require_role(&self, minimum: Role) -> (r: Result<(), CasperError>)
        ensures
            spec_rank(self.role) >= spec_rank(minimum) ==> r is Ok,
            spec_rank(self.role) < spec_rank(minimum) ==> (r matches Err(CasperError::Forbidden(m))
                && m@ == "Role "@ + spec_role_name(self.role) + " insufficient, need at least "@ + spec_role_name(minimum)),
    {
        if self.role.at_least(minimum) {
            Ok(())
        } else {
            let mut msg = chars_of("Role ");
            let mut a = chars_of(&self.role.to_text());
            let mut b = chars_of(" insufficient, need at least ");
            let mut c = chars_of(&minimum.to_text());
            msg.append(&mut a);
            msg.append(&mut b);
            msg.append(&mut c);
            Err(CasperError::Forbidden(string_of(msg.as_slice())))
        }
    }

    /// The subject as a display string (for audit/logging).
    pub fn actor(&self) -> (r: String)
        ensures
            r@ == spec_subject_text(self.subject@),
    {
        self.subject.to_text()
    }
}

} // verus!
