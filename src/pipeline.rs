//! How a request is handled before its domain sees it: the checks a body
//! passes before dispatch, the idempotency key of mutating methods, and
//! the routing of a method to its family.
use vstd::prelude::*;

use crate::errors::{ApiError, RpcErrorCode};
use crate::idempotency::IdempotencyCheck;
use crate::protocol::{is_known_method, is_mutating_method, known_methods, mutating_methods};
use crate::text::str_eq;

verus! {

/// The request id used in errors: the given one, or `unknown` when it is
/// missing or empty.
pub open spec fn context_id(id: Option<Seq<char>>) -> Seq<char> {
    match id {
        Some(i) => if i.len() > 0 {
            i
        } else {
            "unknown"@
        },
        None => "unknown"@,
    }
}

pub open spec fn opt_view(o: Option<&str>) -> Option<Seq<char>> {
    match o {
        Some(s) => Some(s@),
        None => None,
    }
}

pub open spec fn opt_string_view(o: Option<String>) -> Option<Seq<char>> {
    match o {
        Some(s) => Some(s@),
        None => None,
    }
}

/// An error carrying the request's context, with the status of its code.
pub open spec fn context_error(e: ApiError, code: RpcErrorCode, id: Option<&str>, method: Option<Seq<char>>) -> bool {
    &&& e.has_code(code)
    &&& e.request_id@ == context_id(opt_view(id))
    &&& opt_string_view(e.method) == method
}

/// The id and method of a raw request, for error context.
pub fn request_context(id: Option<&str>, method: Option<&str>) -> (r: (String, Option<String>))
    ensures
        r.0@ == context_id(opt_view(id)),
        opt_string_view(r.1) == opt_view(method),
{
    let rid = match id {
        Some(i) => {
            if i.unicode_len() > 0 {
                i.to_owned()
            } else {
                "unknown".to_owned()
            }
        },
        None => "unknown".to_owned(),
    };
    let m = match method {
        Some(m) => Some(m.to_owned()),
        None => None,
    };
    (rid, m)
}

/// The checks before dispatch, in order: the body must be a JSON object, name
/// a method, name a known one, and match the request schema. Every error
/// carries the request's id and method.
pub fn admit_request(is_object: bool, id: Option<&str>, method: Option<&str>, schema_valid: bool) -> (r: Result<
    String,
    ApiError,
>)
    ensures
        !is_object ==> (r matches Err(e) && context_error(e, RpcErrorCode::InvalidRequest, id, opt_view(method))),
        is_object && method is None ==> (r matches Err(e) && context_error(
            e,
            RpcErrorCode::InvalidRequest,
            id,
            None,
        )),
        is_object && method is Some && !known_methods().contains(method.unwrap()@) ==> (r matches Err(e)
            && context_error(e, RpcErrorCode::MethodNotFound, id, Some(method.unwrap()@)) && e.detail_text("method"@)
            == Some(method.unwrap()@)),
        is_object && method is Some && known_methods().contains(method.unwrap()@) && !schema_valid ==> (r matches Err(
            e,
        ) && context_error(e, RpcErrorCode::InvalidParams, id, Some(method.unwrap()@))),
        is_object && method is Some && known_methods().contains(method.unwrap()@) && schema_valid ==> (r matches Ok(
            x,
        ) && x@ == method.unwrap()@),
{
    let (rid, m) = request_context(id, method);
    if !is_object {
        return Err(
            ApiError::invalid_request("request body must be a JSON object".to_owned()).with_context(rid, m),
        );
    }
    let name = match method {
        Some(name) => name,
        None => {
            return Err(
                ApiError::invalid_request("missing required field 'method'".to_owned()).with_context(
                    rid,
                    None,
                ),
            );
        },
    };
    if !is_known_method(name) {
        return Err(ApiError::method_not_found(name).with_context(rid, m));
    }
    if !schema_valid {
        return Err(
            ApiError::invalid_params("request does not match rpc-v1 schema".to_owned()).with_context(
                rid,
                m,
            ),
        );
    }
    Ok(name.to_owned())
}

/// The version check after the envelope is read.
pub fn check_api_version(api_version: &str, id: &str, method: &str) -> (r: Result<(), ApiError>)
    ensures
        r is Ok <==> api_version@ == "v1"@,
        r matches Err(e) ==> e.has_code(RpcErrorCode::InvalidRequest) && e.status == 400
            && e.request_id@ == id@ && opt_string_view(e.method) == Some(method@),
{
    if str_eq(api_version, "v1") {
        return Ok(());
    }
    let mut m = "unsupported apiVersion '".to_owned();
    m.append(api_version);
    m.append("'; expected 'v1'");
    Err(ApiError::invalid_request(m).with_context(id.to_owned(), Some(method.to_owned())))
}

/// The key a mutating request must carry; other methods bypass the store.
pub fn idempotency_key_for(method: &str, key: Option<&str>, id: &str) -> (r: Result<Option<String>, ApiError>)
    ensures
        !mutating_methods().contains(method@) ==> (r matches Ok(k) && k is None),
        mutating_methods().contains(method@) && key is None ==> (r matches Err(e) && e.has_code(RpcErrorCode::InvalidParams) && e.status == 400),
        mutating_methods().contains(method@) && key is Some ==> (r matches Ok(x) && x is Some && x.unwrap()@
            == key.unwrap()@),
{
    if !is_mutating_method(method) {
        return Ok(None);
    }
    match key {
        Some(k) => Ok(Some(k.to_owned())),
        None => Err(
            ApiError::invalid_params("mutating methods require meta.idempotencyKey".to_owned()).with_context(
                id.to_owned(),
                Some(method.to_owned()),
            ),
        ),
    }
}

/// What a request handler does with the store's verdict.
#[derive(Debug, Clone)]
pub enum IdempotencyStep {
    /// Send the stored status and envelope unchanged.
    Replay { status: u16, envelope: String },
    /// Fail with this error.
    Reject(ApiError),
    /// Dispatch, then store the outcome.
    Proceed,
}

/// What to do with the store's answer: send the stored response again, fail
/// with an idempotency conflict, or dispatch.
pub fn idempotency_step(check: IdempotencyCheck, id: &str, method: &str, key: &str) -> (r: IdempotencyStep)
    ensures
        check matches IdempotencyCheck::Replay(s) ==> r == (IdempotencyStep::Replay {
            status: s.status,
            envelope: s.envelope,
        }),
        check is Conflict ==> (r matches IdempotencyStep::Reject(e) && e.has_code(RpcErrorCode::IdempotencyConflict)
            && e.status == 409 && e.request_id@ == id@ && opt_string_view(e.method) == Some(method@)
            && e.detail_text("method"@) == Some(method@) && e.detail_text("idempotencyKey"@) == Some(key@)),
        check is New ==> r is Proceed,
{
    match check {
        IdempotencyCheck::Replay(s) => IdempotencyStep::Replay { status: s.status, envelope: s.envelope },
        IdempotencyCheck::Conflict => {
            let e = ApiError::idempotency_conflict(
                "idempotency key was already used with different parameters".to_owned(),
            ).with_context(id.to_owned(), Some(method.to_owned()));
            let e = e.with_text("method", method);
            let e = e.with_text("idempotencyKey", key);
            proof {
                reveal_strlit("method");
                reveal_strlit("idempotencyKey");
                assert("method"@.len() != "idempotencyKey"@.len());
            }
            IdempotencyStep::Reject(e)
        },
        IdempotencyCheck::New => IdempotencyStep::Proceed,
    }
}

/// The handler family of a method.
#[derive(Debug, Clone, Copy, PartialEq, Eq, Structural)]
pub enum MethodFamily {
    System,
    Task,
    Loop,
    Planning,
    Config,
    Preset,
    Collection,
    Stream,
    Unknown,
}

pub open spec fn has_prefix(s: Seq<char>, p: Seq<char>) -> bool {
    s.len() >= p.len() && s.subrange(0, p.len() as int) == p
}

/// The family named by the part of `method` before the first dot.
pub open spec fn family_of(method: Seq<char>) -> MethodFamily {
    if has_prefix(method, "system."@) {
        MethodFamily::System
    } else if has_prefix(method, "task."@) {
        MethodFamily::Task
    } else if has_prefix(method, "loop."@) {
        MethodFamily::Loop
    } else if has_prefix(method, "planning."@) {
        MethodFamily::Planning
    } else if has_prefix(method, "config."@) {
        MethodFamily::Config
    } else if has_prefix(method, "preset."@) {
        MethodFamily::Preset
    } else if has_prefix(method, "collection."@) {
        MethodFamily::Collection
    } else if has_prefix(method, "stream."@) {
        MethodFamily::Stream
    } else {
        MethodFamily::Unknown
    }
}

fn starts_with(s: &str, p: &str) -> (r: bool)
    ensures
        r == has_prefix(s@, p@),
{
    let n = s.unicode_len();
    let m = p.unicode_len();
    if n < m {
        return false;
    }
    str_eq(s.substring_char(0, m), p)
}

/// Routes a method by its prefix.
pub fn method_family(method: &str) -> (r: MethodFamily)
    ensures
        r == family_of(method@),
{
    if starts_with(method, "system.") {
        MethodFamily::System
    } else if starts_with(method, "task.") {
        MethodFamily::Task
    } else if starts_with(method, "loop.") {
        MethodFamily::Loop
    } else if starts_with(method, "planning.") {
        MethodFamily::Planning
    } else if starts_with(method, "config.") {
        MethodFamily::Config
    } else if starts_with(method, "preset.") {
        MethodFamily::Preset
    } else if starts_with(method, "collection.") {
        MethodFamily::Collection
    } else if starts_with(method, "stream.") {
        MethodFamily::Stream
    } else {
        MethodFamily::Unknown
    }
}

/// The `meta` of every response.
#[derive(Debug, Clone)]
pub struct ResponseMeta {
    pub served_by: String,
    pub served_at: String,
}

/// The response meta: who served the request, and when.
pub fn response_meta(served_by: &str, served_at: String) -> (r: ResponseMeta)
    ensures
        r.served_by@ == served_by@,
        r.served_at == served_at,
{
    ResponseMeta { served_by: served_by.to_owned(), served_at }
}

} // verus!
