//! Tenant-managed MCP server connections: which API keys are sealed when a
//! connection is created or updated, the connection names an agent's tools
//! list, and connections resolved with their keys opened for the engine.

use vstd::prelude::*;
use vstd::string::StringSliceAdditionalSpecFns;
use vstd::utf8::{encode_utf8, valid_utf8};
use crate::connection::sealed_for;
use crate::error::CasperError;
use crate::json::{jget, Json, JsonV};
use crate::text::str_eq;
use crate::types::{str_from_utf8, utf8_error_text, TenantId};
use crate::text::{push_chars, string_of};
use crate::vault::{colon_free, combined_ok, sealed_text, spec_aes256gcm_seal, spec_base64_encode, tenant_key, Vault};

verus! {

/// The auth type of a connection created without one.
pub fn default_auth_type() -> (r: String)
    ensures
        r@ == "none"@,
{
    "none".to_string()
}

/// Request to register an MCP server connection.
pub struct CreateMcpConnectionRequest {
    pub name: String,
    pub display_name: String,
    pub url: String,
    pub auth_type: String,
    pub api_key: Option<String>,
    pub auth_provider: Option<String>,
}

/// Request to change an MCP server connection; absent fields stay.
pub struct UpdateMcpConnectionRequest {
    pub display_name: Option<String>,
    pub url: Option<String>,
    pub auth_type: Option<String>,
    pub api_key: Option<String>,
    pub auth_provider: Option<String>,
    pub is_active: Option<bool>,
}

/// Resolved MCP connection with decrypted secrets, ready for the agent engine.
pub struct ResolvedMcpConnection {
    pub name: String,
    pub url: String,
    pub api_key: Option<String>,
    pub auth_type: String,
    pub auth_provider: Option<String>,
}

/// The key a new connection stores: a non-empty API key of a `bearer`
/// connection; any other connection stores none.
pub open spec fn spec_key_to_seal(req: CreateMcpConnectionRequest) -> Option<Seq<char>> {
    match req.api_key {
        Some(k) => if req.auth_type@ == "bearer"@ && k@.len() > 0 { Some(k@) } else { None },
        None => None,
    }
}

/// The sealed API key a new connection stores, if it stores one. It fails
/// only for a key too long to seal.
pub fn sealed_api_key(vault: &Vault, tenant_id: TenantId, req: &CreateMcpConnectionRequest) -> (r: Result<Option<String>, CasperError>)
    ensures
        spec_key_to_seal(*req) is None ==> r matches Ok(None),
        spec_key_to_seal(*req) matches Some(k) ==> (encode_utf8(k).len() <= 0x10_0000_0000 ==> r is Ok),
        spec_key_to_seal(*req) matches Some(k) ==> (r matches Ok(o) ==> (o matches Some(t)
            && sealed_for(vault@, tenant_id, encode_utf8(k), t@))),
        r matches Err(e) ==> e is Internal,
{
    match &req.api_key {
        Some(k) => {
            if str_eq(req.auth_type.as_str(), "bearer") && !k.as_str().is_empty() {
                let t = vault.encrypt_value(tenant_id, k.as_str().as_bytes())?;
                Ok(Some(t))
            } else {
                Ok(None)
            }
        },
        None => Ok(None),
    }
}

/// The stored key after an update that sets `api_key`: an empty key clears
/// it, any other is sealed. It fails only for a key too long to seal.
pub fn updated_api_key(vault: &Vault, tenant_id: TenantId, api_key: &str) -> (r: Result<Option<String>, CasperError>)
    ensures
        api_key@.len() == 0 ==> r matches Ok(None),
        api_key@.len() > 0 ==> (encode_utf8(api_key@).len() <= 0x10_0000_0000 ==> r is Ok),
        api_key@.len() > 0 ==> (r matches Ok(o) ==> (o matches Some(t) && sealed_for(vault@, tenant_id, encode_utf8(api_key@), t@))),
        r matches Err(e) ==> e is Internal,
{
    if api_key.is_empty() {
        Ok(None)
    } else {
        let t = vault.encrypt_value(tenant_id, api_key.as_bytes())?;
        Ok(Some(t))
    }
}

/// The connection names an agent's tools config lists under `mcp`: its
/// string items, in order; nothing when `mcp` is not an array.
pub open spec fn spec_mcp_names(tools: JsonV) -> Seq<Seq<char>> {
    match jget(tools, "mcp"@) {
        Some(JsonV::Array(items)) => strings_in(items),
        _ => Seq::empty(),
    }
}

/// The strings among JSON values, in order.
pub open spec fn strings_in(items: Seq<JsonV>) -> Seq<Seq<char>>
    decreases items.len(),
{
    if items.len() == 0 {
        Seq::empty()
    } else {
        match items.last() {
            JsonV::Str(s) => strings_in(items.drop_last()).push(s),
            _ => strings_in(items.drop_last()),
        }
    }
}

/// Extract MCP connection names from an agent's tools JSON (`tools.mcp`, an
/// array of strings).
pub fn extract_mcp_names(tools: &Json) -> (r: Vec<String>)
    ensures
        r@.map_values(|s: String| s@) == spec_mcp_names(tools@),
{
    let mut out: Vec<String> = Vec::new();
    let items = match tools.get("mcp") {
        Some(m) => match m.as_array() {
            Some(a) => a,
            None => {
                assert(out@.map_values(|s: String| s@) =~= spec_mcp_names(tools@));
                return out;
            },
        },
        None => {
            assert(out@.map_values(|s: String| s@) =~= spec_mcp_names(tools@));
            return out;
        },
    };
    let ghost view = items@.map_values(|j: Json| j@);
    assert(jget(tools@, "mcp"@) == Some(JsonV::Array(view)));
    let mut i: usize = 0;
    while i < items.len()
        invariant
            i <= items.len(),
            view == items@.map_values(|j: Json| j@),
            out@.map_values(|s: String| s@) == strings_in(view.take(i as int)),
        decreases items.len() - i,
    {
        assert(view.take(i as int + 1).drop_last() =~= view.take(i as int));
        let ghost before = out@.map_values(|s: String| s@);
        assert(view[i as int] == items@[i as int]@);
        match items[i].as_str() {
            Some(s) => {
                out.push(s.clone());
                assert(out@.map_values(|s: String| s@) =~= before.push(s@));
            },
            None => {},
        }
        i += 1;
    }
    assert(view.take(items.len() as int) =~= view);
    out
}


/// A stored MCP connection, its API key sealed.
pub struct McpConnectionRow {
    pub name: String,
    pub url: String,
    pub auth_type: String,
    pub api_key_enc: Option<String>,
    pub auth_provider: Option<String>,
}

/// Whether a row stores a sealed key (a non-empty one).
pub open spec fn has_sealed_key(row: McpConnectionRow) -> bool {
    row.api_key_enc matches Some(enc) && enc@.len() > 0
}

/// Whether a row's key opens: none is stored, or it is text the vault sealed
/// for the tenant from UTF-8 text.
pub open spec fn key_opens(master: Seq<u8>, tenant: TenantId, row: McpConnectionRow) -> bool {
    !has_sealed_key(row) || exists|pt: Seq<u8>| valid_utf8(pt)
        && #[trigger] sealed_for(master, tenant, pt, row.api_key_enc->0@)
}

/// `row` resolved into `c`: the same name, URL, auth type and provider, and
/// the opened key: none when none is stored, the sealed text otherwise.
pub open spec fn resolves(master: Seq<u8>, tenant: TenantId, row: McpConnectionRow, c: ResolvedMcpConnection) -> bool {
    &&& c.name@ == row.name@
    &&& c.url@ == row.url@
    &&& c.auth_type@ == row.auth_type@
    &&& (match c.auth_provider { Some(p) => Some(p@), None => None::<Seq<char>> })
        == (match row.auth_provider { Some(p) => Some(p@), None => None::<Seq<char>> })
    &&& !has_sealed_key(row) ==> c.api_key is None
    &&& forall|pt: Seq<u8>| #[trigger] sealed_for(master, tenant, pt, row.api_key_enc->0@) && has_sealed_key(row)
        ==> (c.api_key matches Some(k) && encode_utf8(k@) == pt)
}

/// Resolves one stored connection, opening its key. `None` stands for a
/// sealed key whose nonce does not decode to 12 bytes, on which AES-GCM
/// cannot be called.
pub fn resolve_connection(vault: &Vault, tenant_id: TenantId, row: McpConnectionRow) -> (r: Option<Result<ResolvedMcpConnection, CasperError>>)
    ensures
        r is None <==> has_sealed_key(row) && !combined_ok(row.api_key_enc->0@),
        key_opens(vault@, tenant_id, row) ==> (r matches Some(Ok(c)) && resolves(vault@, tenant_id, row, c)),
        r matches Some(Ok(c)) ==> resolves(vault@, tenant_id, row, c),
        r matches Some(Err(e)) ==> e is Internal,
{
    let McpConnectionRow { name, url, auth_type, api_key_enc, auth_provider } = row;
    let api_key = match api_key_enc {
        Some(enc) => {
            if enc.as_str().is_empty() {
                None
            } else {
                match vault.try_decrypt_value(tenant_id, enc.as_str()) {
                    None => return None,
                    Some(Err(e)) => {
                        proof {
                            assert forall|pt: Seq<u8>| #[trigger] sealed_for(vault@, tenant_id, pt, enc@) implies false by {
                                let n = choose|n: Seq<u8>| n.len() == 12 && colon_free(spec_base64_encode(n))
                                    && enc@ == sealed_text(n, spec_aes256gcm_seal(tenant_key(vault@, tenant_id), n, pt));
                            }
                        }
                        return Some(Err(e));
                    },
                    Some(Ok(secret)) => {
                        proof {
                            assert forall|pt: Seq<u8>| #[trigger] sealed_for(vault@, tenant_id, pt, enc@) implies secret@ == pt by {
                                let n = choose|n: Seq<u8>| n.len() == 12 && colon_free(spec_base64_encode(n))
                                    && enc@ == sealed_text(n, spec_aes256gcm_seal(tenant_key(vault@, tenant_id), n, pt));
                            }
                        }
                        match str_from_utf8(secret.expose()) {
                            Ok(s) => {
                                proof { vstd::utf8::decode_utf8_encode_utf8(secret@); }
                                Some(s.to_owned())
                            },
                            Err(e) => {
                                let mut v: Vec<char> = Vec::new();
                                push_chars(&mut v, "invalid api_key encoding: ");
                                push_chars(&mut v, utf8_error_text(&e).as_str());
                                return Some(Err(CasperError::Internal(string_of(v.as_slice()))));
                            },
                        }
                    },
                }
            }
        },
        None => None,
    };
    Some(Ok(ResolvedMcpConnection { name, url, api_key, auth_type, auth_provider }))
}


fn opt_clone(o: &Option<String>) -> (r: Option<String>)
    ensures
        match r { Some(x) => Some(x@), None => None::<Seq<char>> } == match *o { Some(x) => Some(x@), None => None::<Seq<char>> },
        r is Some <==> o is Some,
{
    match o {
        Some(s) => Some(s.clone()),
        None => None,
    }
}

/// Resolves the stored connections in order; the first failure to open a
/// key fails the whole resolution. `None` stands for a sealed key, before
/// any failure, whose nonce does not decode to 12 bytes.
pub fn resolve_connections(vault: &Vault, tenant_id: TenantId, rows: &Vec<McpConnectionRow>)
    -> (r: Option<Result<Vec<ResolvedMcpConnection>, CasperError>>)
    ensures
        (forall|k: int| 0 <= k < rows@.len() ==> key_opens(vault@, tenant_id, #[trigger] rows@[k])) ==> r matches Some(Ok(_)),
        r matches Some(Ok(v)) ==> v@.len() == rows@.len()
            && forall|k: int| 0 <= k < rows@.len() ==> resolves(vault@, tenant_id, rows@[k], #[trigger] v@[k]),
        r is None ==> exists|k: int| 0 <= k < rows@.len() && has_sealed_key(#[trigger] rows@[k])
            && !combined_ok(rows@[k].api_key_enc->0@),
        r matches Some(Err(e)) ==> e is Internal,
{
    let mut out: Vec<ResolvedMcpConnection> = Vec::new();
    let mut i: usize = 0;
    while i < rows.len()
        invariant
            i <= rows.len(),
            out@.len() == i,
            forall|k: int| 0 <= k < i ==> resolves(vault@, tenant_id, rows@[k], #[trigger] out@[k]),
        decreases rows.len() - i,
    {
        let row = &rows[i];
        let copy = McpConnectionRow {
            name: row.name.clone(),
            url: row.url.clone(),
            auth_type: row.auth_type.clone(),
            api_key_enc: opt_clone(&row.api_key_enc),
            auth_provider: opt_clone(&row.auth_provider),
        };
        assert(has_sealed_key(copy) == has_sealed_key(*row));
        match resolve_connection(vault, tenant_id, copy) {
            None => {
                assert(has_sealed_key(rows@[i as int]) && !combined_ok(rows@[i as int].api_key_enc->0@));
                return None;
            },
            Some(Err(e)) => {
                return Some(Err(e));
            },
            Some(Ok(c)) => {
                assert(resolves(vault@, tenant_id, rows@[i as int], c));
                out.push(c);
            },
        }
        i += 1;
    }
    Some(Ok(out))
}

} // verus!
