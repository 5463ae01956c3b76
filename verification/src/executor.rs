//! What surrounds one request: the context it is sent in, and how what came
//! back is classified.
//!
//! An HTTP answer is an outcome of its own, whatever its status: a conflict
//! or a server error is reported with the result and is no failure of the
//! action. Only a request that got no usable answer fails.

use crate::credentials::{mirror_login, MirrorLoginView};
use crate::json::JsonValue;
use crate::request::{Field, FieldView};
use crate::views::{optional_views, views};
use vstd::prelude::*;

verus! {

/// The longest time, in milliseconds, that is added at random to the wait
/// for the rate limiter, so that requests that become ready together do not
/// leave together.
pub const MAX_JITTER_MILLIS: u64 = 1;

/// How much is logged.
#[derive(Debug, Clone, Copy, PartialEq, Eq, Structural)]
pub enum LogLevel {
    Error,
    Warn,
    Info,
    Debug,
    Trace,
}

/// The context of a request: the token of the endpoint and the settings of
/// the run. It is made once for an organization and handed, unchanged, to
/// every action of that organization.
#[derive(Debug, PartialEq, Eq)]
pub struct QuayFnArguments {
    /// The token of the endpoint.
    pub token: String,
    pub log_level: LogLevel,
    pub log_verbosity: u8,
    /// The time a request may take, in seconds.
    pub timeout: u64,
    /// Whether the certificate of the registry is verified.
    pub tls_verify: bool,
    /// The logins of the external registries of mirrors.
    pub mirror_login: Option<Vec<mirror_login>>,
}

/// The view of [`QuayFnArguments`].
pub struct QuayFnArgumentsView {
    pub token: Seq<char>,
    pub log_level: LogLevel,
    pub log_verbosity: u8,
    pub timeout: u64,
    pub tls_verify: bool,
    pub mirror_login: Option<Seq<MirrorLoginView>>,
}

impl View for QuayFnArguments {
    type V = QuayFnArgumentsView;

    open spec fn view(&self) -> QuayFnArgumentsView {
        QuayFnArgumentsView {
            token: self.token@,
            log_level: self.log_level,
            log_verbosity: self.log_verbosity,
            timeout: self.timeout,
            tls_verify: self.tls_verify,
            mirror_login: optional_views(self.mirror_login),
        }
    }
}

impl Clone for QuayFnArguments {
    fn clone(&self) -> (copy: Self)
        ensures
            copy@ == self@,
    {
        let mirror_login = match &self.mirror_login {
            Some(list) => {
                let copied = list.clone();
                assert(views(copied@) =~= views(list@));
                Some(copied)
            },
            None => None,
        };
        QuayFnArguments {
            token: self.token.clone(),
            log_level: self.log_level,
            log_verbosity: self.log_verbosity,
            timeout: self.timeout,
            tls_verify: self.tls_verify,
            mirror_login,
        }
    }
}

/// The headers that every request carries: JSON content negotiation and
/// the bearer token.
pub open spec fn request_headers(token: Seq<char>) -> Seq<FieldView> {
    seq![
        FieldView { name: "Content-Type"@, value: "application/json"@ },
        FieldView { name: "accept"@, value: "application/json"@ },
        FieldView { name: "Authorization"@, value: "Bearer "@ + token },
    ]
}

impl QuayFnArguments {
    /// The headers of a request sent in this context.
    pub fn headers(&self) -> (headers: Vec<Field>)
        ensures
            views(headers@) == request_headers(self@.token),
    {
        let mut bearer = String::from_str("Bearer ");
        bearer.append(self.token.as_str());
        let mut headers: Vec<Field> = Vec::new();
        headers.push(Field::new("Content-Type", "application/json"));
        headers.push(Field::new("accept", "application/json"));
        headers.push(Field::new("Authorization", bearer.as_str()));
        assert(views(headers@) =~= request_headers(self@.token));
        headers
    }

    /// Whether a certificate that cannot be verified is accepted all the
    /// same: exactly when verification is switched off.
    pub fn accept_invalid_certs(&self) -> (accept: bool)
        ensures
            accept == !self.tls_verify,
    {
        !self.tls_verify
    }

    /// Whether each answer is logged in full.
    pub fn logs_answers(&self) -> (logs: bool)
        ensures
            logs == (self.log_level == LogLevel::Debug),
    {
        self.log_level == LogLevel::Debug
    }
}

/// The answer of the registry to one request.
#[derive(Debug, PartialEq, Eq)]
pub struct QuayResponse {
    /// The payload of the answer; `Null` where it had none.
    pub response: JsonValue,
    pub status_code: u16,
    /// The description of the request that was answered.
    pub description: String,
}

/// Why a request got no usable answer.
#[derive(Debug, Clone, Copy, PartialEq, Eq, Structural)]
pub enum FailureKind {
    /// No connection: the name did not resolve, the connection was refused
    /// or broke.
    Unreachable,
    /// No answer in the time allowed.
    TimedOut,
    /// An answer whose body is no JSON document.
    MalformedBody,
}

/// The failure of one action.
#[derive(Debug, Clone, PartialEq, Eq)]
pub struct RequestError {
    pub kind: FailureKind,
    /// What the transport said of the failure.
    pub cause: String,
    /// The description of the request that failed.
    pub description: String,
}

/// The outcome of one action.
pub type ActionResult = Result<QuayResponse, RequestError>;

/// The body of an answer as the transport found it.
#[derive(Debug, PartialEq, Eq)]
pub enum Body {
    /// Nothing was sent.
    Empty,
    /// A JSON document.
    Json(JsonValue),
    /// Bytes that are no JSON document, with what the parser said.
    Malformed(String),
}

/// What the transport observed for one request.
#[derive(Debug, PartialEq, Eq)]
pub enum Exchange {
    /// The registry could not be reached; the cause as text.
    Unreachable(String),
    /// The time allowed ran out; the cause as text.
    TimedOut(String),
    /// The registry answered.
    Answered(u16, Body),
}

/// Whether a status is one of success, 200 to 299.
pub open spec fn is_success(status: u16) -> bool {
    200 <= status < 300
}

/// Whether `outcome` is what becomes of `exchange` for a request described
/// by `description`. An answer is a result whatever its status, with its
/// payload, or with `Null` for an empty body. No connection, a timeout and a
/// body that is no JSON are failures.
pub open spec fn classifies(
    exchange: Exchange,
    description: Seq<char>,
    outcome: ActionResult,
) -> bool {
    match exchange {
        Exchange::Unreachable(cause) => {
            &&& outcome matches Err(error)
            &&& error.kind == FailureKind::Unreachable
            &&& error.cause@ == cause@
            &&& error.description@ == description
        },
        Exchange::TimedOut(cause) => {
            &&& outcome matches Err(error)
            &&& error.kind == FailureKind::TimedOut
            &&& error.cause@ == cause@
            &&& error.description@ == description
        },
        Exchange::Answered(status, Body::Empty) => {
            &&& outcome matches Ok(response)
            &&& response.status_code == status
            &&& response.response == JsonValue::Null
            &&& response.description@ == description
        },
        Exchange::Answered(status, Body::Json(payload)) => {
            &&& outcome matches Ok(response)
            &&& response.status_code == status
            &&& response.response == payload
            &&& response.description@ == description
        },
        Exchange::Answered(status, Body::Malformed(cause)) => {
            &&& outcome matches Err(error)
            &&& error.kind == FailureKind::MalformedBody
            &&& error.cause@ == cause@
            &&& error.description@ == description
        },
    }
}

/// Classifies what the transport observed for the request described by
/// `description`.
pub fn classify_exchange(exchange: Exchange, description: &str) -> (outcome: ActionResult)
    ensures
        classifies(exchange, description@, outcome),
{
    let description = String::from_str(description);
    match exchange {
        Exchange::Unreachable(cause) => Err(
            RequestError { kind: FailureKind::Unreachable, cause, description },
        ),
        Exchange::TimedOut(cause) => Err(
            RequestError { kind: FailureKind::TimedOut, cause, description },
        ),
        Exchange::Answered(status, Body::Empty) => Ok(
            QuayResponse { response: JsonValue::Null, status_code: status, description },
        ),
        Exchange::Answered(status, Body::Json(payload)) => Ok(
            QuayResponse { response: payload, status_code: status, description },
        ),
        Exchange::Answered(status, Body::Malformed(cause)) => Err(
            RequestError { kind: FailureKind::MalformedBody, cause, description },
        ),
    }
}

impl QuayResponse {
    /// Whether the status is one of success.
    pub fn succeeded(&self) -> (ok: bool)
        ensures
            ok == is_success(self.status_code),
    {
        200 <= self.status_code && self.status_code < 300
    }
}

} // verus!
