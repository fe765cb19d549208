//! What the account service says of limits, credits and usage.

use crate::json::{
    deref, double_in, field, field2, filled_text, filled_text_in, integer_in, is_true, items,
    loose_double, loose_integer, loose_unsigned, opt_object, opt_text, or, scalar_text,
    scalar_text_in, text_or_number, text_or_number_in, truth_in, unsigned_in, Json,
};
use crate::sort::{
    is_sorting, stable_sort, text_before, text_before_asymmetric, text_before_weak, text_less,
    Precedes,
};
use crate::text::{opt_view, same};
use vstd::prelude::*;

verus! {

/// Why an answer of the account service cannot be used.
#[derive(Debug)]
pub enum AccountError {
    RateLimitsMissing,
    UsageMissing,
    OutcomeMissing,
    UnknownOutcome(String),
}

/// The words for an error.
pub open spec fn error_text(e: AccountError) -> Seq<char> {
    match e {
        AccountError::RateLimitsMissing => "rate limits missing"@,
        AccountError::UsageMissing => "account usage result missing"@,
        AccountError::OutcomeMissing => "reset-credit outcome missing"@,
        AccountError::UnknownOutcome(other) => "unknown reset-credit outcome: "@ + other@,
    }
}

impl AccountError {
    /// The words for the error.
    pub fn message(&self) -> (r: String)
        ensures
            r@ == error_text(*self),
    {
        match self {
            AccountError::RateLimitsMissing => "rate limits missing".to_owned(),
            AccountError::UsageMissing => "account usage result missing".to_owned(),
            AccountError::OutcomeMissing => "reset-credit outcome missing".to_owned(),
            AccountError::UnknownOutcome(other) => {
                let mut text = "unknown reset-credit outcome: ".to_owned();
                text.append(other.as_str());
                text
            },
        }
    }
}

/// A rolling window of a limit. The percentage and the minutes are the bits of binary64 numbers.
#[derive(Debug, Clone, Copy, PartialEq, Eq, Structural)]
pub struct RateLimitWindow {
    pub used_percent: Option<u64>,
    pub window_duration_mins: Option<u64>,
    pub resets_at: Option<i64>,
}

/// The credits of an account.
#[derive(Debug)]
pub struct CreditsSnapshot {
    pub has_credits: bool,
    pub unlimited: bool,
    pub balance: Option<String>,
}

/// A credit that resets a limit.
#[derive(Debug)]
pub struct RateLimitResetCredit {
    pub id: Option<String>,
    pub reset_type: Option<String>,
    pub status: Option<String>,
    pub granted_at: Option<i64>,
    pub expires_at: Option<i64>,
    pub title: Option<String>,
    pub description: Option<String>,
}

/// A limit on spending. The percentage is the bits of a binary64 number.
#[derive(Debug)]
pub struct SpendControlLimitSnapshot {
    pub limit: Option<String>,
    pub remaining_percent: Option<u64>,
    pub resets_at: Option<i64>,
    pub used: Option<String>,
}

/// One set of limits.
#[derive(Debug)]
pub struct RateLimitSnapshot {
    pub limit_id: Option<String>,
    pub limit_name: Option<String>,
    pub individual_limit: Option<SpendControlLimitSnapshot>,
    pub primary: Option<RateLimitWindow>,
    pub secondary: Option<RateLimitWindow>,
    pub credits: Option<CreditsSnapshot>,
}

/// The limits of an account.
#[derive(Debug)]
pub struct AccountRateLimits {
    pub limit_id: Option<String>,
    pub limit_name: Option<String>,
    pub individual_limit: Option<SpendControlLimitSnapshot>,
    pub primary: Option<RateLimitWindow>,
    pub secondary: Option<RateLimitWindow>,
    pub credits: Option<CreditsSnapshot>,
    pub buckets: Vec<RateLimitSnapshot>,
    pub reset_credits_available: Option<i64>,
    /// None where the service did not list the credits.
    pub reset_credits: Option<Vec<RateLimitResetCredit>>,
}

/// What using a reset credit led to.
#[derive(Debug, Clone, Copy, PartialEq, Eq, Structural)]
pub enum ResetCreditOutcome {
    Reset,
    NothingToReset,
    NoCredit,
    AlreadyRedeemed,
}

/// What an account has used in all.
#[derive(Debug, Clone, Copy, PartialEq, Eq, Structural)]
pub struct AccountUsageSummary {
    pub lifetime_tokens: Option<u64>,
    pub peak_daily_tokens: Option<u64>,
    pub longest_running_turn_sec: Option<u64>,
    pub current_streak_days: Option<u64>,
    pub longest_streak_days: Option<u64>,
}

/// What an account has used in a day.
#[derive(Debug, PartialEq, Eq)]
pub struct DailyUsageBucket {
    pub start_date: String,
    pub tokens: u64,
}

/// What an account has used.
#[derive(Debug, PartialEq, Eq)]
pub struct AccountUsage {
    pub summary: AccountUsageSummary,
    /// None where the service did not list the days.
    pub daily_usage_buckets: Option<Vec<DailyUsageBucket>>,
}

/// What credits say.
pub ghost struct CreditsModel {
    pub has_credits: bool,
    pub unlimited: bool,
    pub balance: Option<Seq<char>>,
}

/// What a reset credit says.
pub ghost struct ResetCreditModel {
    pub id: Option<Seq<char>>,
    pub reset_type: Option<Seq<char>>,
    pub status: Option<Seq<char>>,
    pub granted_at: Option<i64>,
    pub expires_at: Option<i64>,
    pub title: Option<Seq<char>>,
    pub description: Option<Seq<char>>,
}

/// What a limit on spending says.
pub ghost struct SpendModel {
    pub limit: Option<Seq<char>>,
    pub remaining_percent: Option<u64>,
    pub resets_at: Option<i64>,
    pub used: Option<Seq<char>>,
}

/// What a set of limits says.
pub ghost struct LimitModel {
    pub limit_id: Option<Seq<char>>,
    pub limit_name: Option<Seq<char>>,
    pub individual_limit: Option<SpendModel>,
    pub primary: Option<RateLimitWindow>,
    pub secondary: Option<RateLimitWindow>,
    pub credits: Option<CreditsModel>,
}

impl View for CreditsSnapshot {
    type V = CreditsModel;

    open spec fn view(&self) -> CreditsModel {
        CreditsModel {
            has_credits: self.has_credits,
            unlimited: self.unlimited,
            balance: opt_view(self.balance),
        }
    }
}

impl View for RateLimitResetCredit {
    type V = ResetCreditModel;

    open spec fn view(&self) -> ResetCreditModel {
        ResetCreditModel {
            id: opt_view(self.id),
            reset_type: opt_view(self.reset_type),
            status: opt_view(self.status),
            granted_at: self.granted_at,
            expires_at: self.expires_at,
            title: opt_view(self.title),
            description: opt_view(self.description),
        }
    }
}

impl View for SpendControlLimitSnapshot {
    type V = SpendModel;

    open spec fn view(&self) -> SpendModel {
        SpendModel {
            limit: opt_view(self.limit),
            remaining_percent: self.remaining_percent,
            resets_at: self.resets_at,
            used: opt_view(self.used),
        }
    }
}

/// What an optional limit on spending says.
pub open spec fn opt_spend(s: Option<SpendControlLimitSnapshot>) -> Option<SpendModel> {
    match s {
        Some(s) => Some(s@),
        None => None,
    }
}

/// What optional credits say.
pub open spec fn opt_credits(c: Option<CreditsSnapshot>) -> Option<CreditsModel> {
    match c {
        Some(c) => Some(c@),
        None => None,
    }
}

impl View for RateLimitSnapshot {
    type V = LimitModel;

    open spec fn view(&self) -> LimitModel {
        LimitModel {
            limit_id: opt_view(self.limit_id),
            limit_name: opt_view(self.limit_name),
            individual_limit: opt_spend(self.individual_limit),
            primary: self.primary,
            secondary: self.secondary,
            credits: opt_credits(self.credits),
        }
    }
}

impl AccountRateLimits {
    /// What the set of limits at the head says.
    pub open spec fn head(&self) -> LimitModel {
        LimitModel {
            limit_id: opt_view(self.limit_id),
            limit_name: opt_view(self.limit_name),
            individual_limit: opt_spend(self.individual_limit),
            primary: self.primary,
            secondary: self.secondary,
            credits: opt_credits(self.credits),
        }
    }
}

/// What sets of limits say.
pub open spec fn limit_views(s: Seq<RateLimitSnapshot>) -> Seq<LimitModel> {
    s.map_values(|x: RateLimitSnapshot| x@)
}

/// What reset credits say.
pub open spec fn reset_credit_views(s: Seq<RateLimitResetCredit>) -> Seq<ResetCreditModel> {
    s.map_values(|x: RateLimitResetCredit| x@)
}

/// What optional reset credits say.
pub open spec fn opt_reset_credits(s: Option<Vec<RateLimitResetCredit>>) -> Option<
    Seq<ResetCreditModel>,
> {
    match s {
        Some(v) => Some(reset_credit_views(v@)),
        None => None,
    }
}

/// A day and its tokens.
pub open spec fn day_views(s: Seq<DailyUsageBucket>) -> Seq<(Seq<char>, u64)> {
    s.map_values(|x: DailyUsageBucket| (x.start_date@, x.tokens))
}

/// A rolling window, where the value is an object.
pub open spec fn window_of(j: Option<Json>) -> Option<RateLimitWindow> {
    match opt_object(j) {
        Some(v) => Some(
            RateLimitWindow {
                used_percent: loose_double(field2(v, "usedPercent"@, "used_percent"@)),
                window_duration_mins: loose_double(
                    or(
                        field2(v, "windowDurationMins"@, "window_duration_mins"@),
                        field(v, "window_minutes"@),
                    ),
                ),
                resets_at: loose_integer(field2(v, "resetsAt"@, "resets_at"@)),
            },
        ),
        None => None,
    }
}

/// A limit on spending, where the value is an object.
pub open spec fn spend_of(j: Option<Json>) -> Option<SpendModel> {
    match opt_object(j) {
        Some(v) => Some(
            SpendModel {
                limit: scalar_text(field(v, "limit"@)),
                remaining_percent: loose_double(
                    field2(v, "remainingPercent"@, "remaining_percent"@),
                ),
                resets_at: loose_integer(field2(v, "resetsAt"@, "resets_at"@)),
                used: scalar_text(field(v, "used"@)),
            },
        ),
        None => None,
    }
}

/// Credits, where the value is an object.
pub open spec fn credits_of(j: Option<Json>) -> Option<CreditsModel> {
    match opt_object(j) {
        Some(v) => Some(
            CreditsModel {
                has_credits: is_true(field2(v, "hasCredits"@, "has_credits"@)),
                unlimited: is_true(field(v, "unlimited"@)),
                balance: text_or_number(field(v, "balance"@)),
            },
        ),
        None => None,
    }
}

/// A set of limits, where the value is an object.
pub open spec fn limit_of(j: Option<Json>) -> Option<LimitModel> {
    match opt_object(j) {
        Some(v) => Some(
            LimitModel {
                limit_id: filled_text(field2(v, "limitId"@, "limit_id"@)),
                limit_name: filled_text(field2(v, "limitName"@, "limit_name"@)),
                individual_limit: spend_of(field2(v, "individualLimit"@, "individual_limit"@)),
                primary: window_of(field(v, "primary"@)),
                secondary: window_of(field(v, "secondary"@)),
                credits: credits_of(field(v, "credits"@)),
            },
        ),
        None => None,
    }
}

/// A reset credit, where the value is an object.
pub open spec fn reset_credit_of(j: Option<Json>) -> Option<ResetCreditModel> {
    match opt_object(j) {
        Some(v) => Some(
            ResetCreditModel {
                id: filled_text(field(v, "id"@)),
                reset_type: filled_text(field2(v, "resetType"@, "reset_type"@)),
                status: filled_text(field(v, "status"@)),
                granted_at: loose_integer(field2(v, "grantedAt"@, "granted_at"@)),
                expires_at: loose_integer(field2(v, "expiresAt"@, "expires_at"@)),
                title: filled_text(field(v, "title"@)),
                description: filled_text(field(v, "description"@)),
            },
        ),
        None => None,
    }
}

/// The reset credits among the items, in their order.
pub open spec fn reset_credits_in(s: Seq<Json>) -> Seq<ResetCreditModel>
    decreases s.len(),
{
    if s.len() == 0 {
        Seq::empty()
    } else {
        match reset_credit_of(Some(s.last())) {
            Some(c) => reset_credits_in(s.drop_last()).push(c),
            None => reset_credits_in(s.drop_last()),
        }
    }
}

/// The sets of limits among the members, in their order; the name of a member is the identifier
/// of a set that has none.
pub open spec fn limits_in(s: Seq<(String, Json)>) -> Seq<LimitModel>
    decreases s.len(),
{
    if s.len() == 0 {
        Seq::empty()
    } else {
        match limit_of(Some(s.last().1)) {
            Some(m) => limits_in(s.drop_last()).push(
                LimitModel { limit_id: or(m.limit_id, Some(s.last().0@)), ..m },
            ),
            None => limits_in(s.drop_last()),
        }
    }
}

/// A day and its tokens, where the value is an object that has both.
pub open spec fn day_of(j: Option<Json>) -> Option<(Seq<char>, u64)> {
    match opt_object(j) {
        Some(v) => match (
            filled_text(field2(v, "startDate"@, "start_date"@)),
            loose_unsigned(field(v, "tokens"@)),
        ) {
            (Some(date), Some(tokens)) => Some((date, tokens)),
            _ => None,
        },
        None => None,
    }
}

/// The days among the items, in their order.
pub open spec fn days_in(s: Seq<Json>) -> Seq<(Seq<char>, u64)>
    decreases s.len(),
{
    if s.len() == 0 {
        Seq::empty()
    } else {
        match day_of(Some(s.last())) {
            Some(d) => days_in(s.drop_last()).push(d),
            None => days_in(s.drop_last()),
        }
    }
}

/// The member that holds the reset credits, where it is an object.
pub open spec fn reset_credits_member(result: Json) -> Option<Json> {
    opt_object(field2(result, "rateLimitResetCredits"@, "rate_limit_reset_credits"@))
}

/// The number of reset credits that the service gives.
pub open spec fn credits_available(result: Json) -> Option<i64> {
    match reset_credits_member(result) {
        Some(v) => loose_integer(field2(v, "availableCount"@, "available_count"@)),
        None => None,
    }
}

/// The reset credits that the service lists.
pub open spec fn credits_listed(result: Json) -> Option<Seq<ResetCreditModel>> {
    match reset_credits_member(result) {
        Some(v) => match items(field(v, "credits"@)) {
            Some(s) => Some(reset_credits_in(s)),
            None => None,
        },
        None => None,
    }
}

/// The members of the sets of limits by identifier.
pub open spec fn members_by_id(result: Json) -> Option<Seq<(String, Json)>> {
    match field2(result, "rateLimitsByLimitId"@, "rate_limits_by_limit_id"@) {
        Some(Json::Object(members)) => Some(members@),
        _ => None,
    }
}

/// The member that holds the limits at the head.
pub open spec fn head_member(result: Json) -> Option<Json> {
    field2(result, "rateLimits"@, "rate_limits"@)
}

/// The sets of limits by identifier, sorted by it.
pub open spec fn buckets_right(result: Json, buckets: Seq<RateLimitSnapshot>) -> bool {
    match members_by_id(result) {
        Some(members) => exists|raw: Seq<RateLimitSnapshot>|
            limit_views(raw) == limits_in(members) && #[trigger] is_sorting(raw, buckets),
        None => buckets.len() == 0,
    }
}

/// The days that the service lists, sorted.
pub open spec fn days_right(result: Json, days: Option<Vec<DailyUsageBucket>>) -> bool {
    match items(field2(result, "dailyUsageBuckets"@, "daily_usage_buckets"@)) {
        Some(s) => days is Some && exists|raw: Seq<DailyUsageBucket>|
            day_views(raw) == days_in(s) && #[trigger] is_sorting(raw, days->0@),
        None => days is None,
    }
}

/// A number of the summary.
pub open spec fn summary_number(result: Json, camel: Seq<char>, snake: Seq<char>) -> Option<u64> {
    match opt_object(field(result, "summary"@)) {
        Some(v) => loose_unsigned(field2(v, camel, snake)),
        None => None,
    }
}

/// The summary of an account's usage.
pub open spec fn summary_of(result: Json) -> AccountUsageSummary {
    AccountUsageSummary {
        lifetime_tokens: summary_number(result, "lifetimeTokens"@, "lifetime_tokens"@),
        peak_daily_tokens: summary_number(result, "peakDailyTokens"@, "peak_daily_tokens"@),
        longest_running_turn_sec: summary_number(
            result,
            "longestRunningTurnSec"@,
            "longest_running_turn_sec"@,
        ),
        current_streak_days: summary_number(result, "currentStreakDays"@, "current_streak_days"@),
        longest_streak_days: summary_number(result, "longestStreakDays"@, "longest_streak_days"@),
    }
}

impl Precedes for DailyUsageBucket {
    open spec fn before(self, other: Self) -> bool {
        text_before(self.start_date@, other.start_date@)
    }

    proof fn before_asymmetric(a: Self, b: Self) {
        text_before_asymmetric(a.start_date@, b.start_date@);
    }

    proof fn before_weak(a: Self, b: Self, c: Self) {
        text_before_weak(a.start_date@, b.start_date@, c.start_date@);
    }

    fn comes_before(&self, other: &Self) -> (r: bool) {
        text_less(self.start_date.as_str(), other.start_date.as_str())
    }
}

/// The order of optional texts: none comes first.
pub open spec fn opt_text_before(a: Option<Seq<char>>, b: Option<Seq<char>>) -> bool {
    match (a, b) {
        (None, Some(_)) => true,
        (Some(x), Some(y)) => text_before(x, y),
        _ => false,
    }
}

impl Precedes for RateLimitSnapshot {
    open spec fn before(self, other: Self) -> bool {
        opt_text_before(self@.limit_id, other@.limit_id)
    }

    proof fn before_asymmetric(a: Self, b: Self) {
        if let (Some(x), Some(y)) = (a@.limit_id, b@.limit_id) {
            text_before_asymmetric(x, y);
        }
    }

    proof fn before_weak(a: Self, b: Self, c: Self) {
        if let (Some(x), Some(y)) = (a@.limit_id, b@.limit_id) {
            if let Some(z) = c@.limit_id {
                text_before_weak(x, y, z);
            }
        }
    }

    fn comes_before(&self, other: &Self) -> (r: bool) {
        match (&self.limit_id, &other.limit_id) {
            (None, Some(_)) => true,
            (Some(x), Some(y)) => text_less(x.as_str(), y.as_str()),
            _ => false,
        }
    }
}

fn object_in(j: Option<&Json>) -> (r: Option<&Json>)
    ensures
        deref(r) == opt_object(deref(j)),
{
    match j {
        Some(v) => if v.is_object() {
            Some(v)
        } else {
            None
        },
        None => None,
    }
}

fn parse_window(value: Option<&Json>) -> (r: Option<RateLimitWindow>)
    ensures
        r == window_of(deref(value)),
{
    match object_in(value) {
        Some(v) => {
            let minutes = match v.get2("windowDurationMins", "window_duration_mins") {
                Some(m) => Some(m),
                None => v.get("window_minutes"),
            };
            Some(
                RateLimitWindow {
                    used_percent: double_in(v.get2("usedPercent", "used_percent")),
                    window_duration_mins: double_in(minutes),
                    resets_at: integer_in(v.get2("resetsAt", "resets_at")),
                },
            )
        },
        None => None,
    }
}

fn parse_individual_limit(value: Option<&Json>) -> (r: Option<SpendControlLimitSnapshot>)
    ensures
        opt_spend(r) == spend_of(deref(value)),
{
    match object_in(value) {
        Some(v) => Some(
            SpendControlLimitSnapshot {
                limit: scalar_text_in(v.get("limit")),
                remaining_percent: double_in(v.get2("remainingPercent", "remaining_percent")),
                resets_at: integer_in(v.get2("resetsAt", "resets_at")),
                used: scalar_text_in(v.get("used")),
            },
        ),
        None => None,
    }
}

fn parse_credits(value: Option<&Json>) -> (r: Option<CreditsSnapshot>)
    ensures
        opt_credits(r) == credits_of(deref(value)),
{
    match object_in(value) {
        Some(v) => Some(
            CreditsSnapshot {
                has_credits: truth_in(v.get2("hasCredits", "has_credits")),
                unlimited: truth_in(v.get("unlimited")),
                balance: text_or_number_in(v.get("balance")),
            },
        ),
        None => None,
    }
}

/// What an optional set of limits says.
pub open spec fn opt_limit(s: Option<RateLimitSnapshot>) -> Option<LimitModel> {
    match s {
        Some(s) => Some(s@),
        None => None,
    }
}

/// What an optional reset credit says.
pub open spec fn opt_reset_credit(s: Option<RateLimitResetCredit>) -> Option<ResetCreditModel> {
    match s {
        Some(s) => Some(s@),
        None => None,
    }
}

fn parse_rate_limit_snapshot(value: Option<&Json>) -> (r: Option<RateLimitSnapshot>)
    ensures
        opt_limit(r) == limit_of(deref(value)),
{
    match object_in(value) {
        Some(v) => Some(
            RateLimitSnapshot {
                limit_id: filled_text_in(v.get2("limitId", "limit_id")),
                limit_name: filled_text_in(v.get2("limitName", "limit_name")),
                individual_limit: parse_individual_limit(
                    v.get2("individualLimit", "individual_limit"),
                ),
                primary: parse_window(v.get("primary")),
                secondary: parse_window(v.get("secondary")),
                credits: parse_credits(v.get("credits")),
            },
        ),
        None => None,
    }
}

fn parse_rate_limit_reset_credit(value: &Json) -> (r: Option<RateLimitResetCredit>)
    ensures
        opt_reset_credit(r) == reset_credit_of(Some(*value)),
{
    match object_in(Some(value)) {
        Some(v) => Some(
            RateLimitResetCredit {
                id: filled_text_in(v.get("id")),
                reset_type: filled_text_in(v.get2("resetType", "reset_type")),
                status: filled_text_in(v.get("status")),
                granted_at: integer_in(v.get2("grantedAt", "granted_at")),
                expires_at: integer_in(v.get2("expiresAt", "expires_at")),
                title: filled_text_in(v.get("title")),
                description: filled_text_in(v.get("description")),
            },
        ),
        None => None,
    }
}

/// Reads a set of limits as the limits of an account.
pub fn parse_rate_limits(value: Option<&Json>) -> (r: Result<AccountRateLimits, AccountError>)
    ensures
        match r {
            Ok(limits) => limit_of(deref(value)) == Some(limits.head()) && limits.buckets@.len() == 0
                && limits.reset_credits_available is None && limits.reset_credits is None,
            Err(e) => limit_of(deref(value)) is None && e == AccountError::RateLimitsMissing,
        },
{
    match parse_rate_limit_snapshot(value) {
        Some(s) => Ok(
            AccountRateLimits {
                limit_id: s.limit_id,
                limit_name: s.limit_name,
                individual_limit: s.individual_limit,
                primary: s.primary,
                secondary: s.secondary,
                credits: s.credits,
                buckets: Vec::new(),
                reset_credits_available: None,
                reset_credits: None,
            },
        ),
        None => Err(AccountError::RateLimitsMissing),
    }
}

fn parse_reset_credits(list: &Vec<Json>) -> (r: Vec<RateLimitResetCredit>)
    ensures
        reset_credit_views(r@) == reset_credits_in(list@),
{
    let mut out: Vec<RateLimitResetCredit> = Vec::new();
    let mut i: usize = 0;
    assert(reset_credit_views(out@) =~= reset_credits_in(list@.take(0)));
    while i < list.len()
        invariant
            i <= list@.len(),
            reset_credit_views(out@) == reset_credits_in(list@.take(i as int)),
        decreases list@.len() - i,
    {
        let ghost next = list@.take(i + 1);
        let ghost before = reset_credit_views(out@);
        assert(next.drop_last() =~= list@.take(i as int));
        assert(next.last() == list@[i as int]);
        if let Some(credit) = parse_rate_limit_reset_credit(&list[i]) {
            out.push(credit);
            assert(reset_credit_views(out@) =~= before.push(credit@));
        }
        i += 1;
    }
    assert(list@.take(i as int) =~= list@);
    out
}

fn parse_buckets(members: &Vec<(String, Json)>) -> (r: Vec<RateLimitSnapshot>)
    ensures
        limit_views(r@) == limits_in(members@),
{
    let mut out: Vec<RateLimitSnapshot> = Vec::new();
    let mut i: usize = 0;
    assert(limit_views(out@) =~= limits_in(members@.take(0)));
    while i < members.len()
        invariant
            i <= members@.len(),
            limit_views(out@) == limits_in(members@.take(i as int)),
        decreases members@.len() - i,
    {
        let ghost next = members@.take(i + 1);
        let ghost before = limit_views(out@);
        assert(next.drop_last() =~= members@.take(i as int));
        assert(next.last() == members@[i as int]);
        if let Some(mut snapshot) = parse_rate_limit_snapshot(Some(&members[i].1)) {
            if snapshot.limit_id.is_none() {
                snapshot.limit_id = Some(members[i].0.as_str().to_owned());
            }
            out.push(snapshot);
            assert(limit_views(out@) =~= before.push(snapshot@));
        }
        i += 1;
    }
    assert(members@.take(i as int) =~= members@);
    out
}

/// Reads the answer on limits.
pub fn parse_account_rate_limits_result(result: &Json) -> (r: Result<
    AccountRateLimits,
    AccountError,
>)
    ensures
        match r {
            Ok(limits) => {
                &&& limit_of(head_member(*result)) == Some(limits.head())
                &&& limits.reset_credits_available == credits_available(*result)
                &&& opt_reset_credits(limits.reset_credits) == credits_listed(*result)
                &&& buckets_right(*result, limits.buckets@)
            },
            Err(e) => limit_of(head_member(*result)) is None && e
                == AccountError::RateLimitsMissing,
        },
{
    let mut limits = match parse_rate_limits(result.get2("rateLimits", "rate_limits")) {
        Ok(limits) => limits,
        Err(e) => {
            return Err(e);
        },
    };
    if let Some(v) = object_in(result.get2("rateLimitResetCredits", "rate_limit_reset_credits")) {
        limits.reset_credits_available = integer_in(v.get2("availableCount", "available_count"));
        if let Some(Json::Array(list)) = v.get("credits") {
            limits.reset_credits = Some(parse_reset_credits(list));
        }
    }
    if let Some(Json::Object(members)) = result.get2(
        "rateLimitsByLimitId",
        "rate_limits_by_limit_id",
    ) {
        let raw = parse_buckets(members);
        let ghost unsorted = raw@;
        limits.buckets = stable_sort(raw);
        assert(limit_views(unsorted) == limits_in(members@) && is_sorting(
            unsorted,
            limits.buckets@,
        ));
    }
    Ok(limits)
}

fn parse_daily_usage_bucket(value: &Json) -> (r: Option<DailyUsageBucket>)
    ensures
        match r {
            Some(b) => day_of(Some(*value)) == Some((b.start_date@, b.tokens)),
            None => day_of(Some(*value)) is None,
        },
{
    match object_in(Some(value)) {
        Some(v) => match filled_text_in(v.get2("startDate", "start_date")) {
            Some(start_date) => match unsigned_in(v.get("tokens")) {
                Some(tokens) => Some(DailyUsageBucket { start_date, tokens }),
                None => None,
            },
            None => None,
        },
        None => None,
    }
}

fn parse_days(list: &Vec<Json>) -> (r: Vec<DailyUsageBucket>)
    ensures
        day_views(r@) == days_in(list@),
{
    let mut out: Vec<DailyUsageBucket> = Vec::new();
    let mut i: usize = 0;
    assert(day_views(out@) =~= days_in(list@.take(0)));
    while i < list.len()
        invariant
            i <= list@.len(),
            day_views(out@) == days_in(list@.take(i as int)),
        decreases list@.len() - i,
    {
        let ghost next = list@.take(i + 1);
        let ghost before = day_views(out@);
        assert(next.drop_last() =~= list@.take(i as int));
        assert(next.last() == list@[i as int]);
        if let Some(day) = parse_daily_usage_bucket(&list[i]) {
            out.push(day);
            assert(day_views(out@) =~= before.push((day.start_date@, day.tokens)));
        }
        i += 1;
    }
    assert(list@.take(i as int) =~= list@);
    out
}

fn read_summary_number(summary: Option<&Json>, camel: &str, snake: &str) -> (r: Option<u64>)
    ensures
        r == (match deref(summary) {
            Some(v) => loose_unsigned(field2(v, camel@, snake@)),
            None => None,
        }),
{
    match summary {
        Some(v) => unsigned_in(v.get2(camel, snake)),
        None => None,
    }
}

/// Reads the answer on usage.
pub fn parse_account_usage_result(result: &Json) -> (r: Result<AccountUsage, AccountError>)
    ensures
        match r {
            Ok(usage) => *result is Object && usage.summary == summary_of(*result) && days_right(
                *result,
                usage.daily_usage_buckets,
            ),
            Err(e) => !(*result is Object) && e == AccountError::UsageMissing,
        },
{
    if !result.is_object() {
        return Err(AccountError::UsageMissing);
    }
    let summary = object_in(result.get("summary"));
    let mut daily_usage_buckets: Option<Vec<DailyUsageBucket>> = None;
    if let Some(Json::Array(list)) = result.get2("dailyUsageBuckets", "daily_usage_buckets") {
        let raw = parse_days(list);
        let ghost unsorted = raw@;
        let days = stable_sort(raw);
        daily_usage_buckets = Some(days);
        assert(day_views(unsorted) == days_in(list@) && is_sorting(
            unsorted,
            daily_usage_buckets->0@,
        ));
    }
    assert(days_right(*result, daily_usage_buckets));
    Ok(
        AccountUsage {
            summary: AccountUsageSummary {
                lifetime_tokens: read_summary_number(summary, "lifetimeTokens", "lifetime_tokens"),
                peak_daily_tokens: read_summary_number(
                    summary,
                    "peakDailyTokens",
                    "peak_daily_tokens",
                ),
                longest_running_turn_sec: read_summary_number(
                    summary,
                    "longestRunningTurnSec",
                    "longest_running_turn_sec",
                ),
                current_streak_days: read_summary_number(
                    summary,
                    "currentStreakDays",
                    "current_streak_days",
                ),
                longest_streak_days: read_summary_number(
                    summary,
                    "longestStreakDays",
                    "longest_streak_days",
                ),
            },
            daily_usage_buckets,
        },
    )
}

/// The outcome that a word means.
pub open spec fn outcome_of(word: Seq<char>) -> Option<ResetCreditOutcome> {
    if word == "reset"@ {
        Some(ResetCreditOutcome::Reset)
    } else if word == "nothingToReset"@ {
        Some(ResetCreditOutcome::NothingToReset)
    } else if word == "noCredit"@ {
        Some(ResetCreditOutcome::NoCredit)
    } else if word == "alreadyRedeemed"@ {
        Some(ResetCreditOutcome::AlreadyRedeemed)
    } else {
        None
    }
}

/// Reads the answer on using a reset credit.
pub fn parse_reset_credit_outcome(result: &Json) -> (r: Result<ResetCreditOutcome, AccountError>)
    ensures
        match opt_text(field(*result, "outcome"@)) {
            Some(word) => match outcome_of(word) {
                Some(outcome) => r == Ok::<ResetCreditOutcome, AccountError>(outcome),
                None => r matches Err(AccountError::UnknownOutcome(other)) && other@ == word,
            },
            None => r == Err::<ResetCreditOutcome, AccountError>(AccountError::OutcomeMissing),
        },
{
    match result.get_str("outcome") {
        Some(word) => if same(word, "reset") {
            Ok(ResetCreditOutcome::Reset)
        } else if same(word, "nothingToReset") {
            Ok(ResetCreditOutcome::NothingToReset)
        } else if same(word, "noCredit") {
            Ok(ResetCreditOutcome::NoCredit)
        } else if same(word, "alreadyRedeemed") {
            Ok(ResetCreditOutcome::AlreadyRedeemed)
        } else {
            Err(AccountError::UnknownOutcome(word.to_owned()))
        },
        None => Err(AccountError::OutcomeMissing),
    }
}

/// Whether a message says that the limits have changed.
pub fn is_account_rate_limits_updated_notification(value: &Json) -> (r: bool)
    ensures
        r == (opt_text(field(*value, "method"@)) == Some("account/rateLimits/updated"@)),
{
    match value.get_str("method") {
        Some(method) => same(method, "account/rateLimits/updated"),
        None => false,
    }
}

} // verus!
