//! Requests to the app server, and where its messages go.

use crate::codex_rpc::account::{
    buckets_right, credits_available, credits_listed, days_right, head_member, limit_of,
    opt_reset_credits, outcome_of, parse_account_rate_limits_result, parse_account_usage_result,
    parse_reset_credit_outcome, summary_of, AccountError, AccountRateLimits, AccountUsage,
    ResetCreditOutcome,
};
use crate::codex_rpc::frame::MAX_PENDING_REQUESTS;
use crate::decimal::{decimal, digits};
use crate::json::{field, member_of_bytes, shown_member, Json};
use crate::text::opt_view;
use vstd::prelude::*;

verus! {

/// Where a message of the app server goes.
#[derive(Debug, Clone, Copy, PartialEq, Eq, Structural)]
pub enum Route {
    /// The answer to the request with this number.
    Response(u64),
    Notification,
    Ignored,
}

/// The unsigned integer that a value holds.
pub open spec fn request_number(j: Option<Json>) -> Option<u64> {
    match j {
        Some(Json::Number(n)) => n.unsigned,
        _ => None,
    }
}

/// Where a message goes: one with a number and a result or an error is an answer; any other one
/// with a method is a notification.
pub open spec fn route_of(message: Json) -> Route {
    let answered = field(message, "result"@) is Some || field(message, "error"@) is Some;
    match request_number(field(message, "id"@)) {
        Some(id) if answered => Route::Response(id),
        _ => if field(message, "method"@) is Some {
            Route::Notification
        } else {
            Route::Ignored
        },
    }
}

/// Where a message goes.
pub fn route(message: &Json) -> (r: Route)
    ensures
        r == route_of(*message),
{
    if message.get("result").is_some() || message.get("error").is_some() {
        if let Some(Json::Number(n)) = message.get("id") {
            if let Some(id) = n.unsigned {
                return Route::Response(id);
            }
        }
    }
    if message.get("method").is_some() {
        Route::Notification
    } else {
        Route::Ignored
    }
}

/// Takes the number of the next request; none where too many requests wait. The number is used up
/// either way.
pub fn begin_request(next_id: &mut u64, pending: usize) -> (r: Option<u64>)
    ensures
        *final(next_id) == (if *old(next_id) == u64::MAX {
            u64::MAX as int
        } else {
            *old(next_id) + 1
        }),
        r == (if pending < MAX_PENDING_REQUESTS {
            Some(*old(next_id))
        } else {
            None::<u64>
        }),
{
    let id: u64 = *next_id;
    *next_id = id.saturating_add(1);
    if pending < MAX_PENDING_REQUESTS {
        Some(id)
    } else {
        None
    }
}

/// A text as a JSON string.
pub uninterp spec fn json_string(text: Seq<char>) -> Option<Seq<char>>;

/// `serde_json::to_string` on a text: the text as a JSON string, `None` where it fails.
#[verifier::external_body]
fn quote(text: &str) -> (r: Option<String>)
    ensures
        opt_view(r) == json_string(text@),
{
    serde_json::to_string(text).ok()
}

/// A request on a line of its own. The method and the parameters are JSON.
pub open spec fn request_text(id: u64, method: Seq<char>, params: Seq<char>) -> Seq<char> {
    "{\"id\":"@ + digits(id as nat) + ",\"method\":"@ + method + ",\"params\":"@ + params + "}\n"@
}

/// A request on a line of its own, with parameters in JSON; none where the method cannot be
/// written.
pub fn request_line(id: u64, method: &str, params: &str) -> (r: Option<String>)
    ensures
        match json_string(method@) {
            Some(name) => opt_view(r) == Some(request_text(id, name, params@)),
            None => r is None,
        },
{
    match quote(method) {
        Some(name) => {
            let mut text = "{\"id\":".to_owned();
            text.append(decimal(id).as_str());
            text.append(",\"method\":");
            text.append(name.as_str());
            text.append(",\"params\":");
            text.append(params);
            text.append("}\n");
            Some(text)
        },
        None => None,
    }
}

/// A notification without parameters, on a line of its own.
pub fn notification_line(method: &str) -> (r: Option<String>)
    ensures
        match json_string(method@) {
            Some(name) => opt_view(r) == Some("{\"method\":"@ + name + "}\n"@),
            None => r is None,
        },
{
    match quote(method) {
        Some(name) => {
            let mut text = "{\"method\":".to_owned();
            text.append(name.as_str());
            text.append("}\n");
            Some(text)
        },
        None => None,
    }
}

/// The parameters with which a client introduces itself.
pub fn initialize_params(version: &str) -> (r: Option<String>)
    ensures
        match json_string(version@) {
            Some(v) => opt_view(r) == Some(
                "{\"clientInfo\":{\"name\":\"comon\",\"title\":\"comon\",\"version\":"@ + v + "}}"@,
            ),
            None => r is None,
        },
{
    match quote(version) {
        Some(v) => {
            let mut text =
                "{\"clientInfo\":{\"name\":\"comon\",\"title\":\"comon\",\"version\":".to_owned();
            text.append(v.as_str());
            text.append("}}");
            Some(text)
        },
        None => None,
    }
}

/// The parameters with which a reset credit is used.
pub fn consume_params(idempotency_key: &str) -> (r: Option<String>)
    ensures
        match json_string(idempotency_key@) {
            Some(key) => opt_view(r) == Some("{\"idempotencyKey\":"@ + key + "}"@),
            None => r is None,
        },
{
    match quote(idempotency_key) {
        Some(key) => {
            let mut text = "{\"idempotencyKey\":".to_owned();
            text.append(key.as_str());
            text.append("}");
            Some(text)
        },
        None => None,
    }
}

/// Why a request has no usable answer.
#[derive(Debug)]
pub enum ReplyError {
    /// The service answered with an error.
    Service,
    /// The result cannot be used.
    Result(AccountError),
}

/// The result of an answer; null where it has none.
pub open spec fn result_of(reply: Json) -> Json {
    match field(reply, "result"@) {
        Some(v) => v,
        None => Json::Null,
    }
}

/// The answer is an error.
pub open spec fn failed(reply: Json) -> bool {
    field(reply, "error"@) is Some
}

/// Whether the answer is an error.
pub fn is_failure(reply: &Json) -> (r: bool)
    ensures
        r == failed(*reply),
{
    reply.get("error").is_some()
}

/// What an answer says went wrong: the JSON text of its error, or nothing.
pub open spec fn error_text(reply: Seq<u8>) -> Seq<char> {
    match shown_member(reply, "error"@) {
        Some(text) => text,
        None => Seq::empty(),
    }
}

/// What the answer in these bytes says went wrong.
pub fn reply_error_text(reply: &Vec<u8>) -> (r: String)
    ensures
        r@ == error_text(reply@),
{
    match member_of_bytes(reply, "error") {
        Some(text) => text,
        None => String::new(),
    }
}

/// Reads the answer to a request for limits.
pub fn account_rate_limits_reply(reply: &Json) -> (r: Result<AccountRateLimits, ReplyError>)
    ensures
        match r {
            Ok(limits) => {
                let result = result_of(*reply);
                &&& !failed(*reply)
                &&& limit_of(head_member(result)) == Some(limits.head())
                &&& limits.reset_credits_available == credits_available(result)
                &&& opt_reset_credits(limits.reset_credits) == credits_listed(result)
                &&& buckets_right(result, limits.buckets@)
            },
            Err(ReplyError::Service) => failed(*reply),
            Err(ReplyError::Result(e)) => !failed(*reply) && limit_of(
                head_member(result_of(*reply)),
            ) is None && e == AccountError::RateLimitsMissing,
        },
{
    if is_failure(reply) {
        return Err(ReplyError::Service);
    }
    let parsed = match reply.get("result") {
        Some(result) => parse_account_rate_limits_result(result),
        None => parse_account_rate_limits_result(&Json::Null),
    };
    match parsed {
        Ok(limits) => Ok(limits),
        Err(e) => Err(ReplyError::Result(e)),
    }
}

/// Reads the answer to a request for usage.
pub fn account_usage_reply(reply: &Json) -> (r: Result<AccountUsage, ReplyError>)
    ensures
        match r {
            Ok(usage) => {
                let result = result_of(*reply);
                &&& !failed(*reply)
                &&& result is Object
                &&& usage.summary == summary_of(result)
                &&& days_right(result, usage.daily_usage_buckets)
            },
            Err(ReplyError::Service) => failed(*reply),
            Err(ReplyError::Result(e)) => !failed(*reply) && !(result_of(*reply) is Object) && e
                == AccountError::UsageMissing,
        },
{
    if is_failure(reply) {
        return Err(ReplyError::Service);
    }
    let parsed = match reply.get("result") {
        Some(result) => parse_account_usage_result(result),
        None => parse_account_usage_result(&Json::Null),
    };
    match parsed {
        Ok(usage) => Ok(usage),
        Err(e) => Err(ReplyError::Result(e)),
    }
}

/// Reads the answer to the use of a reset credit.
pub fn reset_credit_reply(reply: &Json) -> (r: Result<ResetCreditOutcome, ReplyError>)
    ensures
        match r {
            Ok(outcome) => !failed(*reply) && crate::json::opt_text(
                field(result_of(*reply), "outcome"@),
            ) is Some && outcome_of(
                crate::json::opt_text(field(result_of(*reply), "outcome"@))->0,
            ) == Some(outcome),
            Err(ReplyError::Service) => failed(*reply),
            Err(ReplyError::Result(AccountError::UnknownOutcome(word))) => !failed(*reply)
                && crate::json::opt_text(field(result_of(*reply), "outcome"@)) == Some(word@)
                && outcome_of(word@) is None,
            Err(ReplyError::Result(e)) => !failed(*reply) && e == AccountError::OutcomeMissing
                && crate::json::opt_text(field(result_of(*reply), "outcome"@)) is None,
        },
{
    if is_failure(reply) {
        return Err(ReplyError::Service);
    }
    let parsed = match reply.get("result") {
        Some(result) => parse_reset_credit_outcome(result),
        None => parse_reset_credit_outcome(&Json::Null),
    };
    match parsed {
        Ok(outcome) => Ok(outcome),
        Err(e) => Err(ReplyError::Result(e)),
    }
}

} // verus!
