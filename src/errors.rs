//! The closed error taxonomy of the RPC surface and the error value that
//! every failing operation returns.
use vstd::prelude::*;

verus! {

/// The closed set of error codes.
#[derive(Debug, Clone, Copy, PartialEq, Eq, Structural)]
pub enum RpcErrorCode {
    InvalidRequest,
    MethodNotFound,
    InvalidParams,
    Unauthorized,
    Forbidden,
    NotFound,
    Conflict,
    PreconditionFailed,
    RateLimited,
    Timeout,
    ServiceUnavailable,
    Internal,
    TaskNotFound,
    LoopNotFound,
    PlanningSessionNotFound,
    CollectionNotFound,
    ConfigInvalid,
    IdempotencyConflict,
    BackpressureDropped,
}

impl RpcErrorCode {
    /// The wire name of the code.
    pub open spec fn spec_name(self) -> Seq<char> {
        match self {
            RpcErrorCode::InvalidRequest => "INVALID_REQUEST"@,
            RpcErrorCode::MethodNotFound => "METHOD_NOT_FOUND"@,
            RpcErrorCode::InvalidParams => "INVALID_PARAMS"@,
            RpcErrorCode::Unauthorized => "UNAUTHORIZED"@,
            RpcErrorCode::Forbidden => "FORBIDDEN"@,
            RpcErrorCode::NotFound => "NOT_FOUND"@,
            RpcErrorCode::Conflict => "CONFLICT"@,
            RpcErrorCode::PreconditionFailed => "PRECONDITION_FAILED"@,
            RpcErrorCode::RateLimited => "RATE_LIMITED"@,
            RpcErrorCode::Timeout => "TIMEOUT"@,
            RpcErrorCode::ServiceUnavailable => "SERVICE_UNAVAILABLE"@,
            RpcErrorCode::Internal => "INTERNAL"@,
            RpcErrorCode::TaskNotFound => "TASK_NOT_FOUND"@,
            RpcErrorCode::LoopNotFound => "LOOP_NOT_FOUND"@,
            RpcErrorCode::PlanningSessionNotFound => "PLANNING_SESSION_NOT_FOUND"@,
            RpcErrorCode::CollectionNotFound => "COLLECTION_NOT_FOUND"@,
            RpcErrorCode::ConfigInvalid => "CONFIG_INVALID"@,
            RpcErrorCode::IdempotencyConflict => "IDEMPOTENCY_CONFLICT"@,
            RpcErrorCode::BackpressureDropped => "BACKPRESSURE_DROPPED"@,
        }
    }

    /// The HTTP status that goes with the code.
    pub open spec fn spec_status(self) -> u16 {
        match self {
            RpcErrorCode::InvalidRequest => 400,
            RpcErrorCode::MethodNotFound => 404,
            RpcErrorCode::InvalidParams => 400,
            RpcErrorCode::Unauthorized => 401,
            RpcErrorCode::Forbidden => 403,
            RpcErrorCode::NotFound => 404,
            RpcErrorCode::Conflict => 409,
            RpcErrorCode::PreconditionFailed => 412,
            RpcErrorCode::RateLimited => 429,
            RpcErrorCode::Timeout => 408,
            RpcErrorCode::ServiceUnavailable => 503,
            RpcErrorCode::Internal => 500,
            RpcErrorCode::TaskNotFound => 404,
            RpcErrorCode::LoopNotFound => 404,
            RpcErrorCode::PlanningSessionNotFound => 404,
            RpcErrorCode::CollectionNotFound => 404,
            RpcErrorCode::ConfigInvalid => 400,
            RpcErrorCode::IdempotencyConflict => 409,
            RpcErrorCode::BackpressureDropped => 503,
        }
    }

    /// Whether a client may retry a request that failed with the code.
    pub open spec fn spec_retryable(self) -> bool {
        self == RpcErrorCode::RateLimited || self == RpcErrorCode::Timeout || self
            == RpcErrorCode::ServiceUnavailable || self == RpcErrorCode::BackpressureDropped
    }

    pub fn as_str(self) -> (r: &'static str)
        ensures
            r@ == self.spec_name(),
    {
        match self {
            RpcErrorCode::InvalidRequest => "INVALID_REQUEST",
            RpcErrorCode::MethodNotFound => "METHOD_NOT_FOUND",
            RpcErrorCode::InvalidParams => "INVALID_PARAMS",
            RpcErrorCode::Unauthorized => "UNAUTHORIZED",
            RpcErrorCode::Forbidden => "FORBIDDEN",
            RpcErrorCode::NotFound => "NOT_FOUND",
            RpcErrorCode::Conflict => "CONFLICT",
            RpcErrorCode::PreconditionFailed => "PRECONDITION_FAILED",
            RpcErrorCode::RateLimited => "RATE_LIMITED",
            RpcErrorCode::Timeout => "TIMEOUT",
            RpcErrorCode::ServiceUnavailable => "SERVICE_UNAVAILABLE",
            RpcErrorCode::Internal => "INTERNAL",
            RpcErrorCode::TaskNotFound => "TASK_NOT_FOUND",
            RpcErrorCode::LoopNotFound => "LOOP_NOT_FOUND",
            RpcErrorCode::PlanningSessionNotFound => "PLANNING_SESSION_NOT_FOUND",
            RpcErrorCode::CollectionNotFound => "COLLECTION_NOT_FOUND",
            RpcErrorCode::ConfigInvalid => "CONFIG_INVALID",
            RpcErrorCode::IdempotencyConflict => "IDEMPOTENCY_CONFLICT",
            RpcErrorCode::BackpressureDropped => "BACKPRESSURE_DROPPED",
        }
    }

    pub fn http_status(self) -> (r: u16)
        ensures
            r == self.spec_status(),
    {
        match self {
            RpcErrorCode::InvalidRequest => 400,
            RpcErrorCode::MethodNotFound => 404,
            RpcErrorCode::InvalidParams => 400,
            RpcErrorCode::Unauthorized => 401,
            RpcErrorCode::Forbidden => 403,
            RpcErrorCode::NotFound => 404,
            RpcErrorCode::Conflict => 409,
            RpcErrorCode::PreconditionFailed => 412,
            RpcErrorCode::RateLimited => 429,
            RpcErrorCode::Timeout => 408,
            RpcErrorCode::ServiceUnavailable => 503,
            RpcErrorCode::Internal => 500,
            RpcErrorCode::TaskNotFound => 404,
            RpcErrorCode::LoopNotFound => 404,
            RpcErrorCode::PlanningSessionNotFound => 404,
            RpcErrorCode::CollectionNotFound => 404,
            RpcErrorCode::ConfigInvalid => 400,
            RpcErrorCode::IdempotencyConflict => 409,
            RpcErrorCode::BackpressureDropped => 503,
        }
    }

    pub fn is_retryable(self) -> (r: bool)
        ensures
            r == self.spec_retryable(),
    {
        match self {
            RpcErrorCode::RateLimited
            | RpcErrorCode::Timeout
            | RpcErrorCode::ServiceUnavailable
            | RpcErrorCode::BackpressureDropped => true,
            _ => false,
        }
    }
}

/// The HTTP status for an error code.
pub fn status_for_code(code: RpcErrorCode) -> (r: u16)
    ensures
        r == code.spec_status(),
{
    code.http_status()
}

/// The value of one error detail.
#[derive(Debug, Clone)]
pub enum DetailValue {
    Text(String),
    List(Vec<String>),
    Flag(bool),
}

/// One member of an error's `details` object.
#[derive(Debug, Clone)]
pub struct ErrorDetail {
    pub key: String,
    pub value: DetailValue,
}

/// The value under `key`; a later member overrides an earlier one.
pub open spec fn detail_in(s: Seq<ErrorDetail>, key: Seq<char>) -> Option<DetailValue>
    decreases s.len(),
{
    if s.len() == 0 {
        None
    } else if s.last().key@ == key {
        Some(s.last().value)
    } else {
        detail_in(s.drop_last(), key)
    }
}

fn clone_strings(v: &Vec<String>) -> (r: Vec<String>)
    ensures
        r@ == v@,
{
    let mut out: Vec<String> = Vec::new();
    let mut i: usize = 0;
    while i < v.len()
        invariant
            0 <= i <= v@.len(),
            out@ == v@.subrange(0, i as int),
        decreases v@.len() - i,
    {
        out.push(v[i].clone());
        assert(out@ =~= v@.subrange(0, i + 1));
        i = i + 1;
    }
    assert(out@ =~= v@);
    out
}

impl DetailValue {
    pub fn copy(&self) -> (r: DetailValue)
        ensures
            match (r, *self) {
                (DetailValue::Text(a), DetailValue::Text(b)) => a == b,
                (DetailValue::List(a), DetailValue::List(b)) => a@ == b@,
                (DetailValue::Flag(a), DetailValue::Flag(b)) => a == b,
                _ => false,
            },
    {
        match self {
            DetailValue::Text(t) => DetailValue::Text(t.clone()),
            DetailValue::List(v) => DetailValue::List(clone_strings(v)),
            DetailValue::Flag(b) => DetailValue::Flag(*b),
        }
    }
}

fn clone_details(v: &Vec<ErrorDetail>) -> (r: Vec<ErrorDetail>)
    ensures
        r@.len() == v@.len(),
        forall|i: int| 0 <= i < v@.len() ==> (#[trigger] r@[i]).key == v@[i].key,
{
    let mut out: Vec<ErrorDetail> = Vec::new();
    let mut i: usize = 0;
    while i < v.len()
        invariant
            0 <= i <= v@.len(),
            out@.len() == i,
            forall|j: int| 0 <= j < i ==> (#[trigger] out@[j]).key == v@[j].key,
        decreases v@.len() - i,
    {
        out.push(ErrorDetail { key: v[i].key.clone(), value: v[i].value.copy() });
        i = i + 1;
    }
    out
}

/// An error of the RPC surface, with the request it belongs to and its
/// structured details.
#[derive(Debug, Clone)]
pub struct ApiError {
    pub code: RpcErrorCode,
    pub message: String,
    pub retryable: bool,
    pub status: u16,
    pub request_id: String,
    pub method: Option<String>,
    pub details: Vec<ErrorDetail>,
}

/// The body of an error envelope.
#[derive(Debug, Clone)]
pub struct RpcErrorBody {
    pub code: String,
    pub message: String,
    pub retryable: bool,
    pub details: Vec<ErrorDetail>,
}

impl ApiError {
    /// An error with code `c`, and the HTTP status and retry flag of `c`.
    pub open spec fn has_code(self, c: RpcErrorCode) -> bool {
        &&& self.code == c
        &&& self.status == c.spec_status()
        &&& self.retryable == c.spec_retryable()
    }

    /// An error whose status and retry flag follow from its code.
    pub open spec fn fresh(self, code: RpcErrorCode) -> bool {
        &&& self.code == code
        &&& self.status == code.spec_status()
        &&& self.retryable == code.spec_retryable()
        &&& self.request_id@ == "unknown"@
        &&& self.method.is_none()
        &&& self.details@.len() == 0
    }

    /// The text detail under `key`.
    pub open spec fn detail_text(self, key: Seq<char>) -> Option<Seq<char>> {
        match detail_in(self.details@, key) {
            Some(DetailValue::Text(t)) => Some(t@),
            _ => None,
        }
    }

    /// The list detail under `key`.
    pub open spec fn detail_list(self, key: Seq<char>) -> Option<Seq<Seq<char>>> {
        match detail_in(self.details@, key) {
            Some(DetailValue::List(v)) => Some(v@.map_values(|x: String| x@)),
            _ => None,
        }
    }

    /// The flag detail under `key`.
    pub open spec fn detail_flag(self, key: Seq<char>) -> Option<bool> {
        match detail_in(self.details@, key) {
            Some(DetailValue::Flag(b)) => Some(b),
            _ => None,
        }
    }

    /// Adds a detail; everything else is kept.
    pub fn with_detail(self, key: &str, value: DetailValue) -> (r: ApiError)
        ensures
            r.code == self.code,
            r.message == self.message,
            r.retryable == self.retryable,
            r.status == self.status,
            r.request_id == self.request_id,
            r.method == self.method,
            detail_in(r.details@, key@) == Some(value),
            forall|k: Seq<char>| k != key@ ==> detail_in(r.details@, k) == detail_in(self.details@, k),
    {
        let mut e = self;
        let ghost before = e.details@;
        e.details.push(ErrorDetail { key: key.to_owned(), value });
        proof {
            assert(e.details@.drop_last() =~= before);
        }
        e
    }

    /// Adds a text detail.
    pub fn with_text(self, key: &str, value: &str) -> (r: ApiError)
        ensures
            r.code == self.code,
            r.message == self.message,
            r.retryable == self.retryable,
            r.status == self.status,
            r.request_id == self.request_id,
            r.method == self.method,
            r.detail_text(key@) == Some(value@),
            forall|k: Seq<char>| k != key@ ==> detail_in(r.details@, k) == detail_in(self.details@, k),
    {
        self.with_detail(key, DetailValue::Text(value.to_owned()))
    }

    pub fn new(code: RpcErrorCode, message: String) -> (r: ApiError)
        ensures
            r.fresh(code),
            r.message@ == message@,
    {
        ApiError {
            code,
            message,
            retryable: code.is_retryable(),
            status: code.http_status(),
            request_id: "unknown".to_owned(),
            method: None,
            details: Vec::new(),
        }
    }

    /// Attaches the request id and method that the error belongs to.
    pub fn with_context(self, request_id: String, method: Option<String>) -> (r: ApiError)
        ensures
            r.code == self.code,
            r.message == self.message,
            r.retryable == self.retryable,
            r.status == self.status,
            r.request_id == request_id,
            r.method == method,
            r.details == self.details,
    {
        ApiError { request_id, method, ..self }
    }

    pub fn invalid_request(message: String) -> (r: ApiError)
        ensures
            r.fresh(RpcErrorCode::InvalidRequest),
            r.message@ == message@,
    {
        ApiError::new(RpcErrorCode::InvalidRequest, message)
    }

    /// The error for a method outside the catalog; the message and the
    /// `method` detail name it.
    pub fn method_not_found(method: &str) -> (r: ApiError)
        ensures
            r.has_code(RpcErrorCode::MethodNotFound),
            r.request_id@ == "unknown"@,
            r.method is None,
            r.message@ == "method '"@ + method@ + "' is not supported by rpc v1"@,
            r.detail_text("method"@) == Some(method@),
    {
        let mut message = "method '".to_owned();
        message.append(method);
        message.append("' is not supported by rpc v1");
        ApiError::new(RpcErrorCode::MethodNotFound, message).with_text("method", method)
    }

    pub fn invalid_params(message: String) -> (r: ApiError)
        ensures
            r.fresh(RpcErrorCode::InvalidParams),
            r.message@ == message@,
    {
        ApiError::new(RpcErrorCode::InvalidParams, message)
    }

    pub fn unauthorized(message: String) -> (r: ApiError)
        ensures
            r.fresh(RpcErrorCode::Unauthorized),
            r.message@ == message@,
    {
        ApiError::new(RpcErrorCode::Unauthorized, message)
    }

    pub fn forbidden(message: String) -> (r: ApiError)
        ensures
            r.fresh(RpcErrorCode::Forbidden),
            r.message@ == message@,
    {
        ApiError::new(RpcErrorCode::Forbidden, message)
    }

    pub fn conflict(message: String) -> (r: ApiError)
        ensures
            r.fresh(RpcErrorCode::Conflict),
            r.message@ == message@,
    {
        ApiError::new(RpcErrorCode::Conflict, message)
    }

    pub fn not_found(message: String) -> (r: ApiError)
        ensures
            r.fresh(RpcErrorCode::NotFound),
            r.message@ == message@,
    {
        ApiError::new(RpcErrorCode::NotFound, message)
    }

    pub fn precondition_failed(message: String) -> (r: ApiError)
        ensures
            r.fresh(RpcErrorCode::PreconditionFailed),
            r.message@ == message@,
    {
        ApiError::new(RpcErrorCode::PreconditionFailed, message)
    }

    pub fn task_not_found(message: String) -> (r: ApiError)
        ensures
            r.fresh(RpcErrorCode::TaskNotFound),
            r.message@ == message@,
    {
        ApiError::new(RpcErrorCode::TaskNotFound, message)
    }

    pub fn loop_not_found(message: String) -> (r: ApiError)
        ensures
            r.fresh(RpcErrorCode::LoopNotFound),
            r.message@ == message@,
    {
        ApiError::new(RpcErrorCode::LoopNotFound, message)
    }

    pub fn planning_session_not_found(message: String) -> (r: ApiError)
        ensures
            r.fresh(RpcErrorCode::PlanningSessionNotFound),
            r.message@ == message@,
    {
        ApiError::new(RpcErrorCode::PlanningSessionNotFound, message)
    }

    pub fn collection_not_found(message: String) -> (r: ApiError)
        ensures
            r.fresh(RpcErrorCode::CollectionNotFound),
            r.message@ == message@,
    {
        ApiError::new(RpcErrorCode::CollectionNotFound, message)
    }

    pub fn config_invalid(message: String) -> (r: ApiError)
        ensures
            r.fresh(RpcErrorCode::ConfigInvalid),
            r.message@ == message@,
    {
        ApiError::new(RpcErrorCode::ConfigInvalid, message)
    }

    pub fn idempotency_conflict(message: String) -> (r: ApiError)
        ensures
            r.fresh(RpcErrorCode::IdempotencyConflict),
            r.message@ == message@,
    {
        ApiError::new(RpcErrorCode::IdempotencyConflict, message)
    }

    pub fn service_unavailable(message: String) -> (r: ApiError)
        ensures
            r.fresh(RpcErrorCode::ServiceUnavailable),
            r.message@ == message@,
    {
        ApiError::new(RpcErrorCode::ServiceUnavailable, message)
    }

    pub fn internal(message: String) -> (r: ApiError)
        ensures
            r.fresh(RpcErrorCode::Internal),
            r.message@ == message@,
    {
        ApiError::new(RpcErrorCode::Internal, message)
    }

    /// The `error` member of the error envelope.
    pub fn as_body(&self) -> (r: RpcErrorBody)
        ensures
            r.code@ == self.code.spec_name(),
            r.message@ == self.message@,
            r.retryable == self.retryable,
            r.details@.len() == self.details@.len(),
            forall|i: int| 0 <= i < self.details@.len() ==> (#[trigger] r.details@[i]).key == self.details@[i].key,
    {
        RpcErrorBody {
            code: self.code.as_str().to_owned(),
            message: self.message.clone(),
            retryable: self.retryable,
            details: clone_details(&self.details),
        }
    }
}

} // verus!
