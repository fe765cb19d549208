use comon::codex_rpc::account::{
    is_account_rate_limits_updated_notification, parse_account_rate_limits_result,
    parse_account_usage_result, parse_rate_limits, parse_reset_credit_outcome, AccountError,
    ResetCreditOutcome,
};
use comon::codex_rpc::command::{
    command_candidates, may_search, native_server, resolve_app_server_command, visit_entry,
    AppServerCommand, FoundServers, NativeServer,
};
use comon::codex_rpc::frame::{LineFramer, MAX_RPC_LINE_BYTES};
use comon::codex_rpc::request::{
    account_rate_limits_reply, account_usage_reply, begin_request, consume_params,
    initialize_params, is_failure, notification_line, request_line, reset_credit_reply, route,
    ReplyError, Route,
};
use comon::json::{parse_json, parse_json_bytes, Json};

fn json(text: &str) -> Json {
    parse_json(text).expect("a JSON document")
}

fn bits(value: f64) -> Option<u64> {
    Some(value.to_bits())
}

fn nothing_found() -> FoundServers {
    FoundServers { codex_in_path: None, native: None }
}

#[test]
fn parse_rate_limits_accepts_expected_shapes() {
    let v = json(
        r#"{
            "limitId": "codex",
            "primary": { "usedPercent": 0, "windowDurationMins": 300, "resetsAt": 1770118764 },
            "secondary": { "used_percent": 1.0, "window_minutes": "10080", "resets_at": "1770684472" },
            "credits": { "hasCredits": true, "unlimited": false, "balance": 900.735 }
        }"#,
    );

    let limits = parse_rate_limits(Some(&v)).expect("parse_rate_limits");
    assert_eq!(limits.limit_id.as_deref(), Some("codex"));
    let p = limits.primary.expect("primary");
    assert_eq!(p.used_percent, bits(0.0));
    assert_eq!(p.window_duration_mins, bits(300.0));
    assert_eq!(p.resets_at, Some(1770118764));

    let s = limits.secondary.expect("secondary");
    assert_eq!(s.used_percent, bits(1.0));
    assert_eq!(s.window_duration_mins, bits(10080.0));
    assert_eq!(s.resets_at, Some(1770684472));

    let c = limits.credits.expect("credits");
    assert!(c.has_credits);
    assert!(!c.unlimited);
    assert_eq!(c.balance.as_deref(), Some("900.735"));
}

#[test]
fn parse_account_rate_limits_result_accepts_multi_bucket_response() {
    let v = json(
        r#"{
            "rateLimitResetCredits": {
                "availableCount": 2,
                "credits": [{
                    "id": "credit-1",
                    "resetType": "codexRateLimits",
                    "status": "available",
                    "grantedAt": 1781742782,
                    "expiresAt": 1784334782,
                    "title": "Full reset (Weekly + 5 hr)",
                    "description": "Restores rolling limits"
                }]
            },
            "rateLimits": {
                "limitId": "codex",
                "individualLimit": {
                    "limit": "60000",
                    "remainingPercent": 99,
                    "resetsAt": 1785523200,
                    "used": "564"
                }
            },
            "rateLimitsByLimitId": {
                "codex_extra": {
                    "limitName": "GPT-5.3-Codex-Spark",
                    "primary": { "usedPercent": 30, "windowDurationMins": 300 },
                    "secondary": { "usedPercent": 40, "windowDurationMins": 10080 }
                },
                "codex": {
                    "individualLimit": {
                        "limit": "60000",
                        "remainingPercent": 99,
                        "resetsAt": 1785523200,
                        "used": "564"
                    }
                }
            }
        }"#,
    );

    let limits = parse_account_rate_limits_result(&v).expect("parse_account_rate_limits_result");
    assert_eq!(limits.limit_id.as_deref(), Some("codex"));
    let individual_limit = limits.individual_limit.expect("individual limit");
    assert_eq!(individual_limit.limit.as_deref(), Some("60000"));
    assert_eq!(individual_limit.remaining_percent, bits(99.0));
    assert_eq!(individual_limit.resets_at, Some(1785523200));
    assert_eq!(individual_limit.used.as_deref(), Some("564"));
    assert_eq!(limits.reset_credits_available, Some(2));
    let credit = limits
        .reset_credits
        .as_deref()
        .and_then(|credits| credits.first())
        .expect("reset credit details");
    assert_eq!(credit.id.as_deref(), Some("credit-1"));
    assert_eq!(credit.reset_type.as_deref(), Some("codexRateLimits"));
    assert_eq!(credit.status.as_deref(), Some("available"));
    assert_eq!(credit.granted_at, Some(1781742782));
    assert_eq!(credit.expires_at, Some(1784334782));
    assert_eq!(credit.title.as_deref(), Some("Full reset (Weekly + 5 hr)"));
    assert_eq!(credit.description.as_deref(), Some("Restores rolling limits"));
    assert_eq!(limits.buckets.len(), 2);
    assert_eq!(limits.buckets[0].limit_id.as_deref(), Some("codex"));
    assert_eq!(limits.buckets[1].limit_id.as_deref(), Some("codex_extra"));
    assert_eq!(limits.buckets[1].limit_name.as_deref(), Some("GPT-5.3-Codex-Spark"));
}

#[test]
fn parses_all_reset_credit_outcomes() {
    for (raw, expected) in [
        ("reset", ResetCreditOutcome::Reset),
        ("nothingToReset", ResetCreditOutcome::NothingToReset),
        ("noCredit", ResetCreditOutcome::NoCredit),
        ("alreadyRedeemed", ResetCreditOutcome::AlreadyRedeemed),
    ] {
        assert_eq!(
            parse_reset_credit_outcome(&json(&format!("{{ \"outcome\": \"{raw}\" }}")))
                .expect("outcome"),
            expected
        );
    }
}

#[test]
fn rejects_unknown_or_missing_reset_credit_outcome() {
    assert!(parse_reset_credit_outcome(&json(r#"{ "outcome": "futureValue" }"#)).is_err());
    assert!(parse_reset_credit_outcome(&json("{}")).is_err());
}

#[test]
fn parse_account_usage_result_accepts_summary_and_sorts_daily_buckets() {
    let value = json(
        r#"{
            "summary": {
                "lifetimeTokens": 8206591409,
                "peakDailyTokens": 773124581,
                "longestRunningTurnSec": 42168,
                "currentStreakDays": 2,
                "longestStreakDays": 21
            },
            "dailyUsageBuckets": [
                { "startDate": "2026-07-23", "tokens": 97465847 },
                { "startDate": "2026-07-22", "tokens": 215392194 }
            ]
        }"#,
    );

    let usage = parse_account_usage_result(&value).expect("parse account usage");
    assert_eq!(usage.summary.lifetime_tokens, Some(8_206_591_409));
    assert_eq!(usage.summary.peak_daily_tokens, Some(773_124_581));
    assert_eq!(usage.summary.longest_running_turn_sec, Some(42_168));
    assert_eq!(usage.summary.current_streak_days, Some(2));
    assert_eq!(usage.summary.longest_streak_days, Some(21));
    let buckets = usage.daily_usage_buckets.expect("daily buckets");
    assert_eq!(buckets.len(), 2);
    assert_eq!(buckets[0].start_date, "2026-07-22");
    assert_eq!(buckets[1].tokens, 97_465_847);
}

#[test]
fn parse_account_usage_result_preserves_nullable_optional_fields() {
    let value = json(
        r#"{
            "summary": {
                "lifetimeTokens": null,
                "peak_daily_tokens": 1234
            },
            "dailyUsageBuckets": null
        }"#,
    );

    let usage = parse_account_usage_result(&value).expect("parse account usage");
    assert_eq!(usage.summary.lifetime_tokens, None);
    assert_eq!(usage.summary.peak_daily_tokens, Some(1234));
    assert_eq!(usage.daily_usage_buckets, None);
}

#[test]
fn recognizes_account_rate_limits_updated_notification() {
    let v = json(
        r#"{
            "method": "account/rateLimits/updated",
            "params": { "rateLimits": { "primary": { "usedPercent": 3 } } }
        }"#,
    );
    assert!(is_account_rate_limits_updated_notification(&v));
    assert!(!is_account_rate_limits_updated_notification(&json(r#"{"method":"other"}"#)));
}

#[test]
fn parse_rate_limits_rejects_non_object() {
    let err = parse_rate_limits(Some(&Json::Null)).unwrap_err().message();
    assert!(err.contains("rate limits missing"));
}

#[test]
fn explicit_codex_bin_uses_app_server_subcommand() {
    let command =
        resolve_app_server_command(Some("custom-codex".to_string()), None, nothing_found())
            .expect("command");
    assert_eq!(command.program, "custom-codex");
    assert_eq!(command.args, vec!["app-server".to_string()]);
    assert!(command.is_explicit());
}

#[test]
fn explicit_app_server_bin_is_standalone() {
    let path = "custom-app-server".to_string();
    let command =
        resolve_app_server_command(None, Some(path.clone()), nothing_found()).expect("command");
    assert_eq!(command.program, path);
    assert!(command.args.is_empty());
    assert!(command.is_explicit());
}

#[test]
fn a_server_that_is_found_is_not_explicit() {
    let found = FoundServers { codex_in_path: Some("/usr/bin/codex".to_string()), native: None };
    let command =
        resolve_app_server_command(Some("  ".to_string()), Some(String::new()), found)
            .expect("command");
    assert_eq!(command.display_command(), "/usr/bin/codex app-server");
    assert!(!command.is_explicit());
    assert!(resolve_app_server_command(None, None, nothing_found()).is_none());
    let native = AppServerCommand::standalone("C:\\app-server.exe".to_string(), false);
    let found = FoundServers { codex_in_path: None, native: Some(native) };
    let command = resolve_app_server_command(None, None, found).expect("native");
    assert_eq!(command.display_command(), "C:\\app-server.exe");
}

#[test]
fn errors_say_what_is_missing() {
    assert_eq!(AccountError::RateLimitsMissing.message(), "rate limits missing");
    assert_eq!(AccountError::UsageMissing.message(), "account usage result missing");
    let missing = parse_reset_credit_outcome(&json("{}")).unwrap_err();
    assert_eq!(missing.message(), "reset-credit outcome missing");
    let unknown = parse_reset_credit_outcome(&json(r#"{"outcome":"later"}"#)).unwrap_err();
    assert_eq!(unknown.message(), "unknown reset-credit outcome: later");
    let usage = parse_account_usage_result(&Json::Null).unwrap_err();
    assert_eq!(usage.message(), "account usage result missing");
}

#[test]
fn names_of_native_servers_ignore_case_but_for_the_cli() {
    assert_eq!(native_server("codex.exe"), Some(NativeServer::Codex));
    assert_eq!(native_server("Codex.exe"), None);
    assert_eq!(native_server("APP-Server.exe"), Some(NativeServer::Standalone));
    assert_eq!(native_server("codex-app-server.EXE"), Some(NativeServer::Standalone));
    assert_eq!(native_server("other.exe"), None);
}

#[test]
fn a_search_is_bounded() {
    assert!(may_search(6, 0));
    assert!(!may_search(7, 0));
    assert!(!may_search(0, 2048));
    assert_eq!(visit_entry(0), Some(1));
    assert_eq!(visit_entry(2046), Some(2047));
    assert_eq!(visit_entry(2047), None);
}

#[test]
fn programs_are_looked_for_by_their_endings() {
    assert_eq!(command_candidates("codex", false, false, None), vec!["codex"]);
    assert_eq!(command_candidates("codex.exe", true, true, None), vec!["codex.exe"]);
    assert_eq!(
        command_candidates("codex", true, false, Some(" .EXE ;; .PS1")),
        vec!["codex.EXE", "codex.PS1"]
    );
    assert_eq!(
        command_candidates("codex", true, false, Some(" ; ")),
        vec!["codex.exe", "codex.cmd", "codex.bat", "codex.com"]
    );
}

#[test]
fn lines_are_framed_however_they_are_cut() {
    let mut framer = LineFramer::new();
    let first = framer.feed(&b"{\"a\":1}\n{\"b\"".to_vec());
    assert_eq!(first.messages, vec![b"{\"a\":1}".to_vec()]);
    assert!(!first.stop);
    let second = framer.feed(&b":2}\r\n\n".to_vec());
    assert!(!second.stop);
    let whole = LineFramer::new().feed(&b"{\"a\":1}\n{\"b\":2}\r\n\n".to_vec());
    let mut all = first.messages;
    all.extend(second.messages);
    assert_eq!(all, whole.messages);
}

#[test]
fn an_overlong_line_stops_the_reader() {
    let mut framer = LineFramer::new();
    let chunk = vec![b'x'; MAX_RPC_LINE_BYTES + 1];
    assert!(!framer.feed(&chunk).stop);
    assert!(framer.feed(&b"\n".to_vec()).stop);
    let mut open = LineFramer::new();
    assert!(!open.feed(&vec![b'x'; 2 * MAX_RPC_LINE_BYTES]).stop);
    assert!(open.feed(&b"x".to_vec()).stop);
}

#[test]
fn messages_are_routed_by_their_members() {
    assert_eq!(route(&json(r#"{"id":7,"result":{}}"#)), Route::Response(7));
    assert_eq!(route(&json(r#"{"id":7,"error":{}}"#)), Route::Response(7));
    assert_eq!(route(&json(r#"{"id":7,"method":"x"}"#)), Route::Notification);
    assert_eq!(route(&json(r#"{"id":"7","result":{}}"#)), Route::Ignored);
}

#[test]
fn requests_are_numbered_and_limited() {
    let mut next: u64 = 1;
    assert_eq!(begin_request(&mut next, 0), Some(1));
    assert_eq!(begin_request(&mut next, 63), Some(2));
    assert_eq!(begin_request(&mut next, 64), None);
    assert_eq!(next, 4);
}

#[test]
fn requests_are_json_on_one_line() {
    assert_eq!(
        request_line(3, "account/read \"x\"", "{}").expect("line"),
        "{\"id\":3,\"method\":\"account/read \\\"x\\\"\",\"params\":{}}\n"
    );
    assert_eq!(notification_line("initialized").expect("line"), "{\"method\":\"initialized\"}\n");
    assert_eq!(
        initialize_params("1.2").expect("params"),
        "{\"clientInfo\":{\"name\":\"comon\",\"title\":\"comon\",\"version\":\"1.2\"}}"
    );
    assert_eq!(consume_params("k\n").expect("params"), "{\"idempotencyKey\":\"k\\n\"}");
}

#[test]
fn answers_are_results_or_errors() {
    let failed = json(r#"{"id":1,"error":{"message":"no"}}"#);
    assert!(is_failure(&failed));
    assert!(matches!(account_rate_limits_reply(&failed), Err(ReplyError::Service)));
    assert!(matches!(account_usage_reply(&failed), Err(ReplyError::Service)));
    let empty = json(r#"{"id":1}"#);
    assert!(matches!(
        account_usage_reply(&empty),
        Err(ReplyError::Result(AccountError::UsageMissing))
    ));
    let ok = json(r#"{"id":1,"result":{"outcome":"noCredit"}}"#);
    assert_eq!(reset_credit_reply(&ok).expect("outcome"), ResetCreditOutcome::NoCredit);
    assert!(account_usage_reply(&json(r#"{"result":{"summary":{}}}"#)).is_ok());
}

#[test]
fn bytes_that_are_no_json_are_nothing() {
    assert!(parse_json_bytes(&b"{\"a\":[1,2.5,\"x\",true,null]}".to_vec()).is_some());
    assert!(parse_json_bytes(&vec![0xff, 0xfe]).is_none());
    assert!(parse_json("{").is_none());
}

#[test]
fn the_text_of_an_error_is_its_json() {
    let reply = b"{\"id\":1,\"error\":{\"code\": -1}}".to_vec();
    assert_eq!(comon::codex_rpc::request::reply_error_text(&reply), "{\"code\":-1}");
    assert_eq!(comon::codex_rpc::request::reply_error_text(&b"{\"id\":1}".to_vec()), "");
    assert_eq!(comon::codex_rpc::request::reply_error_text(&b"no json".to_vec()), "");
}
