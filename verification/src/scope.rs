//! Three-part scopes `resource[:identifier]:action` and the rules by which
//! one scope grants another.
//!
//! - Exact: `agents:triage:run` grants `agents:triage:run`
//! - Two-part grants all identifiers: `agents:run` grants `agents:triage:run`
//! - Wildcard: `agents:*:run` grants `agents:triage:run`
//! - `admin:*` grants everything

use vstd::prelude::*;
use crate::text::{chars_of, join_with, lemma_join_split, lemma_split_on_append, lemma_split_on_no_sep, split_chars, split_on, str_eq, string_of};

verus! {

/// A parsed scope.
#[derive(Debug)]
pub struct Scope {
    pub resource: String,
    pub identifier: Option<String>,
    pub action: String,
}

/// The abstract value of a scope: its three parts as character sequences.
pub struct ScopeV {
    pub resource: Seq<char>,
    pub identifier: Option<Seq<char>>,
    pub action: Seq<char>,
}

impl View for Scope {
    type V = ScopeV;

    open spec fn view(&self) -> ScopeV {
        ScopeV {
            resource: self.resource@,
            identifier: match self.identifier {
                Some(id) => Some(id@),
                None => None,
            },
            action: self.action@,
        }
    }
}

/// What `Scope::parse` makes of a string: two pieces give a scope without
/// identifier, three pieces a scope with one, anything else nothing.
pub open spec fn spec_parse_scope(s: Seq<char>) -> Option<ScopeV> {
    let parts = split_on(s, ':');
    if parts.len() == 2 {
        Some(ScopeV { resource: parts[0], identifier: None, action: parts[1] })
    } else if parts.len() == 3 {
        Some(ScopeV { resource: parts[0], identifier: Some(parts[1]), action: parts[2] })
    } else {
        None
    }
}

/// The message of a refused scope string.
pub open spec fn scope_error_message(s: Seq<char>) -> Seq<char> {
    "invalid scope format: "@ + s
}

/// The textual form of a scope (`Display`).
pub open spec fn spec_scope_text(sc: ScopeV) -> Seq<char> {
    match sc.identifier {
        Some(id) => sc.resource.push(':') + id.push(':') + sc.action,
        None => sc.resource.push(':') + sc.action,
    }
}

/// Whether `grant` is the all-powerful `admin:*`.
pub open spec fn is_admin_star(grant: ScopeV) -> bool {
    grant.resource == "admin"@ && grant.action == "*"@
}

/// Whether the scope `grant` grants the scope `req`.
pub open spec fn spec_grants(grant: ScopeV, req: ScopeV) -> bool {
    if is_admin_star(grant) {
        true
    } else {
        &&& grant.resource == req.resource
        &&& (grant.action == "*"@ || grant.action == req.action)
        &&& match grant.identifier {
            None => true,
            Some(id) => id == "*"@ || req.identifier == Some(id),
        }
    }
}

/// Whether some scope of `scopes` grants `req`.
pub open spec fn spec_has_scope(scopes: Seq<ScopeV>, req: ScopeV) -> bool {
    exists|i: int| 0 <= i < scopes.len() && spec_grants(#[trigger] scopes[i], req)
}

/// Whether no part of the scope holds a `:`.
pub open spec fn colon_free(sc: ScopeV) -> bool {
    &&& !sc.resource.contains(':')
    &&& !sc.action.contains(':')
    &&& match sc.identifier {
        Some(id) => !id.contains(':'),
        None => true,
    }
}

impl Scope {
    /// Parse a scope string like "agents:run", "agents:triage:run", or "admin:*".
    pub fn parse(s: &str) -> (r: Result<Scope, String>)
        ensures
            r is Ok <==> spec_parse_scope(s@) is Some,
            r matches Ok(sc) ==> Some(sc@) == spec_parse_scope(s@),
            r matches Err(msg) ==> msg@ == scope_error_message(s@),
    {
        let v = chars_of(s);
        let parts = split_chars(&v, ':');
        if parts.len() == 2 {
            Ok(Scope {
                resource: string_of(parts[0].as_slice()),
                identifier: None,
                action: string_of(parts[1].as_slice()),
            })
        } else if parts.len() == 3 {
            Ok(Scope {
                resource: string_of(parts[0].as_slice()),
                identifier: Some(string_of(parts[1].as_slice())),
                action: string_of(parts[2].as_slice()),
            })
        } else {
            let mut msg = chars_of("invalid scope format: ");
            let mut rest = v;
            msg.append(&mut rest);
            Err(string_of(msg.as_slice()))
        }
    }

    /// Check if this scope grants the requested scope.
    pub fn grants(&self, requested: &Scope) -> (r: bool)
        ensures
            r == spec_grants(self@, requested@),
    {
        // admin:* grants everything
        if str_eq(&self.resource, "admin") && str_eq(&self.action, "*") {
            return true;
        }
        // Resource must match
        if !str_eq(&self.resource, &requested.resource) {
            return false;
        }
        // Action must match (or grant is wildcard)
        if !str_eq(&self.action, "*") && !str_eq(&self.action, &requested.action) {
            return false;
        }
        // Identifier matching
        match (&self.identifier, &requested.identifier) {
            // Two-part grant (no identifier) grants all identifiers
            (None, _) => true,
            (Some(id), req) => {
                if str_eq(id, "*") {
                    // Explicit wildcard grants all identifiers
                    true
                } else {
                    match req {
                        // Exact match
                        Some(req_id) => str_eq(id, req_id),
                        // Three-part grant, two-part request
                        None => false,
                    }
                }
            }
        }
    }

    /// The textual form `resource[:identifier]:action`.
    pub fn to_text(&self) -> (s: String)
        ensures
            s@ == spec_scope_text(self@),
    {
        let mut out = chars_of(&self.resource);
        out.push(':');
        match &self.identifier {
            Some(id) => {
                let mut idc = chars_of(id);
                out.append(&mut idc);
                out.push(':');
            }
            None => {}
        }
        let mut act = chars_of(&self.action);
        out.append(&mut act);
        let ghost g = self@;
        proof {
            match g.identifier {
                Some(id) => {
                    assert(out@ =~= g.resource.push(':') + id.push(':') + g.action);
                }
                None => {
                    assert(out@ =~= g.resource.push(':') + g.action);
                }
            }
        }
        string_of(out.as_slice())
    }
}

/// Convenience: check if any scope in a list grants the requested scope.
pub fn has_scope(scopes: &[Scope], requested: &Scope) -> (r: bool)
    ensures
        r == spec_has_scope(scopes@.map_values(|s: Scope| s@), requested@),
{
    let ghost views = scopes@.map_values(|s: Scope| s@);
    let mut i: usize = 0;
    while i < scopes.len()
        invariant
            i <= scopes.len(),
            views == scopes@.map_values(|s: Scope| s@),
            forall|k: int| 0 <= k < i ==> !spec_grants(#[trigger] views[k], requested@),
        decreases scopes.len() - i,
    {
        if scopes[i].grants(requested) {
            assert(spec_grants(views[i as int], requested@));
            return true;
        }
        i += 1;
    }
    false
}

/// Parse a list of scope strings into scopes; the first refused string
/// makes the whole list refused.
pub fn parse_scopes(strings: &[String]) -> (r: Result<Vec<Scope>, String>)
    ensures
        r is Ok <==> forall|i: int| 0 <= i < strings.len() ==> (#[trigger] spec_parse_scope(strings@[i]@)) is Some,
        r matches Ok(v) ==> v.len() == strings.len() && forall|i: int| 0 <= i < strings.len() ==>
            Some((#[trigger] v@[i])@) == spec_parse_scope(strings@[i]@),
        r matches Err(msg) ==> exists|i: int| 0 <= i < strings.len()
            && (#[trigger] spec_parse_scope(strings@[i]@)) is None
            && msg@ == scope_error_message(strings@[i]@)
            && forall|k: int| 0 <= k < i ==> (#[trigger] spec_parse_scope(strings@[k]@)) is Some,
{
    let mut out: Vec<Scope> = Vec::new();
    let mut i: usize = 0;
    while i < strings.len()
        invariant
            i <= strings.len(),
            out.len() == i,
            forall|k: int| 0 <= k < i ==> Some((#[trigger] out@[k])@) == spec_parse_scope(strings@[k]@),
        decreases strings.len() - i,
    {
        match Scope::parse(&strings[i]) {
            Ok(sc) => out.push(sc),
            Err(msg) => {
                assert forall|k: int| 0 <= k < i implies (#[trigger] spec_parse_scope(strings@[k]@)) is Some by {
                    assert(Some(out@[k]@) == spec_parse_scope(strings@[k]@));
                }
                return Err(msg);
            }
        }
        i += 1;
    }
    assert forall|k: int| 0 <= k < strings.len() implies (#[trigger] spec_parse_scope(strings@[k]@)) is Some by {
        assert(Some(out@[k]@) == spec_parse_scope(strings@[k]@));
    }
    Ok(out)
}

/// Every scope string that parses is given back by the scope's textual form.
pub proof fn lemma_text_of_parse(s: Seq<char>)
    requires
        spec_parse_scope(s) is Some,
    ensures
        spec_scope_text(spec_parse_scope(s)->0) == s,
{
    let parts = split_on(s, ':');
    lemma_join_split(s, ':');
    if parts.len() == 2 {
        assert(parts.drop_last().len() == 1);
        assert(join_with(parts.drop_last(), ':') == parts[0]);
        assert(parts.last() == parts[1]);
    } else {
        let p2 = parts.drop_last();
        assert(p2.drop_last().len() == 1);
        assert(join_with(p2.drop_last(), ':') == parts[0]);
        assert(p2.last() == parts[1]);
        assert(join_with(p2, ':') == parts[0].push(':') + parts[1]);
        assert(parts[0].push(':') + parts[1].push(':') + parts[2] =~= (parts[0].push(':') + parts[1]).push(':') + parts[2]);
    }
}

/// A scope whose parts hold no `:` parses back from its textual form.
pub proof fn lemma_parse_of_text(sc: ScopeV)
    requires
        colon_free(sc),
    ensures
        spec_parse_scope(spec_scope_text(sc)) == Some(sc),
{
    lemma_split_on_no_sep(sc.resource, ':');
    match sc.identifier {
        Some(id) => {
            lemma_split_on_append(sc.resource, ':', id);
            let x = sc.resource.push(':') + id;
            lemma_split_on_append(x, ':', sc.action);
            assert(spec_scope_text(sc) =~= x.push(':') + sc.action);
        }
        None => {
            lemma_split_on_append(sc.resource, ':', sc.action);
        }
    }
}

/// Every scope grants itself.
pub proof fn lemma_grants_reflexive(sc: ScopeV)
    ensures
        spec_grants(sc, sc),
{
}

/// Granting is transitive: whatever is granted by a scope that `a` grants is granted by `a`.
pub proof fn lemma_grants_transitive(a: ScopeV, b: ScopeV, c: ScopeV)
    requires
        spec_grants(a, b),
        spec_grants(b, c),
    ensures
        spec_grants(a, c),
{
}

/// `admin:*` grants every scope.
pub proof fn lemma_admin_star_grants_all(grant: ScopeV, req: ScopeV)
    requires
        grant.resource == "admin"@,
        grant.action == "*"@,
    ensures
        spec_grants(grant, req),
{
}

/// A scope with an identifier other than `*` never grants a scope without one,
/// unless it is `admin:*`.
pub proof fn lemma_three_part_not_two_part(grant: ScopeV, req: ScopeV)
    requires
        !is_admin_star(grant),
        grant.identifier matches Some(id) && id != "*"@,
        req.identifier is None,
    ensures
        !spec_grants(grant, req),
{
}

} // verus!
