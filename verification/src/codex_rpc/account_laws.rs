//! What is read from the answers of the account service.

use crate::codex_rpc::account::{
    buckets_right, credits_available, credits_listed, credits_of, day_of, days_in, days_right, day_views, head_member, limit_of, limit_views,
    limits_in, outcome_of, reset_credit_of, reset_credits_in, spend_of, summary_of, window_of,
    DailyUsageBucket, LimitModel, RateLimitSnapshot, ResetCreditOutcome,
};
use crate::codex_rpc::command::{
    command_line, endings, program_names, visit_entry, MAX_SEARCH_ENTRIES,
};
use crate::codex_rpc::request::{failed, request_text, result_of, route_of, Route};
use crate::json::{field, filled_text, Json, JsonNumber};
use crate::sort::{is_sorting, sorting_keeps_items, text_before, Precedes};
use vstd::prelude::*;

verus! {

/// An object has a value under either of two spellings of a name; the first one counts where both
/// are there.
pub open spec fn holds(j: Json, camel: Seq<char>, snake: Seq<char>, v: Json) -> bool {
    &&& j is Object
    &&& field(j, camel) == Some(v) || (field(j, camel) is None && field(j, snake) == Some(v))
}

/// An object has no value under either spelling of a name.
pub open spec fn lacks(j: Json, camel: Seq<char>, snake: Seq<char>) -> bool {
    field(j, camel) is None && field(j, snake) is None
}

/// A window has the used percentage, the length and the reset that its object gives under these
/// names, and none of them from elsewhere.
pub proof fn windows_are_read_by_name(j: Json, n: JsonNumber, bits: u64, at: i64)
    requires
        j is Object,
        n.float_bits == Some(bits),
        n.signed == Some(at),
    ensures
        window_of(Some(j)) is Some,
        holds(j, "usedPercent"@, "used_percent"@, Json::Number(n)) ==> window_of(
            Some(j),
        )->0.used_percent == Some(bits),
        lacks(j, "usedPercent"@, "used_percent"@) ==> window_of(Some(j))->0.used_percent is None,
        holds(j, "windowDurationMins"@, "window_duration_mins"@, Json::Number(n)) ==> window_of(
            Some(j),
        )->0.window_duration_mins == Some(bits),
        lacks(j, "windowDurationMins"@, "window_duration_mins"@) && field(j, "window_minutes"@)
            == Some(Json::Number(n)) ==> window_of(Some(j))->0.window_duration_mins == Some(bits),
        lacks(j, "windowDurationMins"@, "window_duration_mins"@) && field(j, "window_minutes"@)
            is None ==> window_of(Some(j))->0.window_duration_mins is None,
        holds(j, "resetsAt"@, "resets_at"@, Json::Number(n)) ==> window_of(Some(j))->0.resets_at
            == Some(at),
        lacks(j, "resetsAt"@, "resets_at"@) ==> window_of(Some(j))->0.resets_at is None,
{
}

/// A limit on spending has what its object gives under these names.
pub proof fn spending_is_read_by_name(
    j: Json,
    n: JsonNumber,
    bits: u64,
    at: i64,
    text: String,
)
    requires
        j is Object,
        n.float_bits == Some(bits),
        n.signed == Some(at),
        crate::text::trimmed(text@) == text@,
        text@.len() > 0,
    ensures
        spend_of(Some(j)) is Some,
        field(j, "limit"@) == Some(Json::Text(text)) ==> spend_of(Some(j))->0.limit == Some(text@),
        field(j, "used"@) == Some(Json::Text(text)) ==> spend_of(Some(j))->0.used == Some(text@),
        field(j, "limit"@) is None ==> spend_of(Some(j))->0.limit is None,
        field(j, "used"@) is None ==> spend_of(Some(j))->0.used is None,
        holds(j, "remainingPercent"@, "remaining_percent"@, Json::Number(n)) ==> spend_of(
            Some(j),
        )->0.remaining_percent == Some(bits),
        holds(j, "resetsAt"@, "resets_at"@, Json::Number(n)) ==> spend_of(Some(j))->0.resets_at
            == Some(at),
{
}

/// Credits have what their object gives under these names.
pub proof fn credits_are_read_by_name(j: Json, b: bool, text: String)
    requires
        j is Object,
    ensures
        credits_of(Some(j)) is Some,
        holds(j, "hasCredits"@, "has_credits"@, Json::Bool(b)) ==> credits_of(
            Some(j),
        )->0.has_credits == b,
        lacks(j, "hasCredits"@, "has_credits"@) ==> !credits_of(Some(j))->0.has_credits,
        field(j, "unlimited"@) == Some(Json::Bool(b)) ==> credits_of(Some(j))->0.unlimited == b,
        field(j, "unlimited"@) is None ==> !credits_of(Some(j))->0.unlimited,
        field(j, "balance"@) == Some(Json::Text(text)) ==> credits_of(Some(j))->0.balance == Some(
            text@,
        ),
        field(j, "balance"@) is None ==> credits_of(Some(j))->0.balance is None,
{
}

/// The parts of a set of limits are read from the members of their names: the first window from
/// the one called primary and the second from the one called secondary.
pub proof fn limits_are_read_by_name(j: Json, v: Json)
    requires
        j is Object,
    ensures
        limit_of(Some(j)) is Some,
        field(j, "primary"@) == Some(v) ==> limit_of(Some(j))->0.primary == window_of(Some(v)),
        field(j, "secondary"@) == Some(v) ==> limit_of(Some(j))->0.secondary == window_of(Some(v)),
        field(j, "primary"@) is None ==> limit_of(Some(j))->0.primary is None,
        field(j, "secondary"@) is None ==> limit_of(Some(j))->0.secondary is None,
        field(j, "credits"@) == Some(v) ==> limit_of(Some(j))->0.credits == credits_of(Some(v)),
        holds(j, "individualLimit"@, "individual_limit"@, v) ==> limit_of(
            Some(j),
        )->0.individual_limit == spend_of(Some(v)),
        holds(j, "limitId"@, "limit_id"@, v) ==> limit_of(Some(j))->0.limit_id == filled_text(
            Some(v),
        ),
        holds(j, "limitName"@, "limit_name"@, v) ==> limit_of(Some(j))->0.limit_name
            == filled_text(Some(v)),
{
}

/// A reset credit has what its object gives under these names.
pub proof fn reset_credits_are_read_by_name(j: Json, v: Json, n: JsonNumber, at: i64)
    requires
        j is Object,
        n.signed == Some(at),
    ensures
        reset_credit_of(Some(j)) is Some,
        field(j, "id"@) == Some(v) ==> reset_credit_of(Some(j))->0.id == filled_text(Some(v)),
        field(j, "status"@) == Some(v) ==> reset_credit_of(Some(j))->0.status == filled_text(
            Some(v),
        ),
        field(j, "title"@) == Some(v) ==> reset_credit_of(Some(j))->0.title == filled_text(
            Some(v),
        ),
        field(j, "description"@) == Some(v) ==> reset_credit_of(Some(j))->0.description
            == filled_text(Some(v)),
        holds(j, "resetType"@, "reset_type"@, v) ==> reset_credit_of(Some(j))->0.reset_type
            == filled_text(Some(v)),
        holds(j, "grantedAt"@, "granted_at"@, Json::Number(n)) ==> reset_credit_of(
            Some(j),
        )->0.granted_at == Some(at),
        holds(j, "expiresAt"@, "expires_at"@, Json::Number(n)) ==> reset_credit_of(
            Some(j),
        )->0.expires_at == Some(at),
{
}

/// A list of objects gives a reset credit for each of them, in their order.
pub proof fn reset_credits_keep_their_order(s: Seq<Json>)
    requires
        forall|i: int| 0 <= i < s.len() ==> (#[trigger] s[i]) is Object,
    ensures
        reset_credits_in(s).len() == s.len(),
        forall|i: int|
            0 <= i < s.len() ==> Some(#[trigger] reset_credits_in(s)[i]) == reset_credit_of(
                Some(s[i]),
            ),
    decreases s.len(),
{
    if s.len() > 0 {
        let t = s.drop_last();
        assert forall|i: int| 0 <= i < t.len() implies (#[trigger] t[i]) is Object by {
            assert(t[i] == s[i]);
        }
        reset_credits_keep_their_order(t);
        assert(s[s.len() - 1] is Object);
        assert forall|i: int| 0 <= i < s.len() implies Some(
            #[trigger] reset_credits_in(s)[i],
        ) == reset_credit_of(Some(s[i])) by {
            if i < t.len() {
                assert(reset_credits_in(s)[i] == reset_credits_in(t)[i]);
                assert(t[i] == s[i]);
            }
        }
    }
}

/// The numbers of a summary are read from the members of their names.
pub proof fn summaries_are_read_by_name(result: Json, j: Json, n: JsonNumber, v: u64)
    requires
        field(result, "summary"@) == Some(j),
        j is Object,
        n.unsigned == Some(v),
    ensures
        holds(j, "lifetimeTokens"@, "lifetime_tokens"@, Json::Number(n)) ==> summary_of(
            result,
        ).lifetime_tokens == Some(v),
        holds(j, "peakDailyTokens"@, "peak_daily_tokens"@, Json::Number(n)) ==> summary_of(
            result,
        ).peak_daily_tokens == Some(v),
        holds(j, "longestRunningTurnSec"@, "longest_running_turn_sec"@, Json::Number(n))
            ==> summary_of(result).longest_running_turn_sec == Some(v),
        holds(j, "currentStreakDays"@, "current_streak_days"@, Json::Number(n)) ==> summary_of(
            result,
        ).current_streak_days == Some(v),
        holds(j, "longestStreakDays"@, "longest_streak_days"@, Json::Number(n)) ==> summary_of(
            result,
        ).longest_streak_days == Some(v),
        lacks(j, "lifetimeTokens"@, "lifetime_tokens"@) ==> summary_of(result).lifetime_tokens
            is None,
        lacks(j, "currentStreakDays"@, "current_streak_days"@) ==> summary_of(
            result,
        ).current_streak_days is None,
{
}

/// A list of days holds a day with its tokens.
pub open spec fn has_day(days: Seq<DailyUsageBucket>, date: Seq<char>, tokens: u64) -> bool {
    exists|k: int|
        0 <= k < days.len() && (#[trigger] days[k]).start_date@ == date && days[k].tokens == tokens
}

proof fn lemma_day_read(s: Seq<Json>, i: int) -> (k: int)
    requires
        0 <= i < s.len(),
        day_of(Some(s[i])) is Some,
    ensures
        0 <= k < days_in(s).len(),
        Some(days_in(s)[k]) == day_of(Some(s[i])),
    decreases s.len(),
{
    let t = s.drop_last();
    if i < t.len() {
        assert(t[i] == s[i]);
        lemma_day_read(t, i)
    } else {
        days_in(s).len() - 1
    }
}

/// The days of an account's usage: earliest first, and every item that has a date and a number of
/// tokens is among them with that number.
pub proof fn account_days_are_read_in_order(
    result: Json,
    list: Vec<Json>,
    days: Vec<DailyUsageBucket>,
    i: int,
    date: String,
    n: JsonNumber,
    tokens: u64,
)
    requires
        days_right(result, Some(days)),
        holds(result, "dailyUsageBuckets"@, "daily_usage_buckets"@, Json::Array(list)),
        0 <= i < list@.len(),
        holds(list@[i], "startDate"@, "start_date"@, Json::Text(date)),
        field(list@[i], "tokens"@) == Some(Json::Number(n)),
        n.unsigned == Some(tokens),
        crate::text::trimmed(date@) == date@,
        date@.len() > 0,
    ensures
        has_day(days@, date@, tokens),
        forall|a: int, b: int|
            0 <= a < b < days@.len() ==> !text_before(
                (#[trigger] days@[b]).start_date@,
                (#[trigger] days@[a]).start_date@,
            ),
{
    let raw = choose|raw: Seq<DailyUsageBucket>|
        day_views(raw) == days_in(list@) && #[trigger] is_sorting(raw, days@);
    sorting_keeps_items(raw, days@);
    assert(day_of(Some(list@[i])) == Some((date@, tokens)));
    let k = lemma_day_read(list@, i);
    assert(day_views(raw).len() == raw.len());
    assert(day_views(raw)[k] == (raw[k].start_date@, raw[k].tokens));
    assert(days@.contains(raw[k]));
    let p = choose|p: int| 0 <= p < days@.len() && days@[p] == raw[k];
    assert(days@[p].start_date@ == date@);
    assert forall|a: int, b: int| 0 <= a < b < days@.len() implies !text_before(
        (#[trigger] days@[b]).start_date@,
        (#[trigger] days@[a]).start_date@,
    ) by {
        assert(!days@[b].before(days@[a]));
    }
}

/// A list of sets holds one.
pub open spec fn has_set(sets: Seq<RateLimitSnapshot>, m: LimitModel) -> bool {
    exists|k: int| 0 <= k < sets.len() && (#[trigger] sets[k])@ == m
}

proof fn lemma_set_read(s: Seq<(String, Json)>, i: int) -> (k: int)
    requires
        0 <= i < s.len(),
        s[i].1 is Object,
    ensures
        0 <= k < limits_in(s).len(),
        limits_in(s)[k].primary == limit_of(Some(s[i].1))->0.primary,
        limits_in(s)[k].secondary == limit_of(Some(s[i].1))->0.secondary,
        limits_in(s)[k].limit_name == limit_of(Some(s[i].1))->0.limit_name,
        limits_in(s)[k].individual_limit == limit_of(Some(s[i].1))->0.individual_limit,
        limits_in(s)[k].credits == limit_of(Some(s[i].1))->0.credits,
        limit_of(Some(s[i].1))->0.limit_id is Some ==> limits_in(s)[k].limit_id == limit_of(
            Some(s[i].1),
        )->0.limit_id,
        limit_of(Some(s[i].1))->0.limit_id is None ==> limits_in(s)[k].limit_id == Some(s[i].0@),
    decreases s.len(),
{
    let t = s.drop_last();
    if i < t.len() {
        assert(t[i] == s[i]);
        lemma_set_read(t, i)
    } else {
        limits_in(s).len() - 1
    }
}

/// The sets of limits by identifier: every object among the members is one of them, under its own
/// identifier or else under the name of the member, and they are sorted by it.
pub proof fn sets_of_limits_are_read_by_identifier(
    result: Json,
    members: Vec<(String, Json)>,
    sets: Seq<RateLimitSnapshot>,
    i: int,
)
    requires
        buckets_right(result, sets),
        holds(result, "rateLimitsByLimitId"@, "rate_limits_by_limit_id"@, Json::Object(members)),
        0 <= i < members@.len(),
        members@[i].1 is Object,
    ensures
        ({
            let m = limit_of(Some(members@[i].1))->0;
            &&& m.limit_id is Some ==> has_set(sets, m)
            &&& m.limit_id is None ==> has_set(
                sets,
                LimitModel { limit_id: Some(members@[i].0@), ..m },
            )
        }),
        forall|a: int, b: int|
            0 <= a < b < sets.len() && (#[trigger] sets[a])@.limit_id is Some && (
            #[trigger] sets[b])@.limit_id is Some ==> !text_before(
                sets[b]@.limit_id->0,
                sets[a]@.limit_id->0,
            ),
{
    let raw = choose|raw: Seq<RateLimitSnapshot>|
        limit_views(raw) == limits_in(members@) && #[trigger] is_sorting(raw, sets);
    sorting_keeps_items(raw, sets);
    let k = lemma_set_read(members@, i);
    assert(limit_views(raw).len() == raw.len());
    assert(limit_views(raw)[k] == raw[k]@);
    assert(sets.contains(raw[k]));
    let p = choose|p: int| 0 <= p < sets.len() && sets[p] == raw[k];
    let m = limit_of(Some(members@[i].1))->0;
    if m.limit_id is Some {
        assert(sets[p]@ == m);
    } else {
        assert(sets[p]@ == (LimitModel { limit_id: Some(members@[i].0@), ..m }));
    }
    assert forall|a: int, b: int|
        0 <= a < b < sets.len() && (#[trigger] sets[a])@.limit_id is Some && (
        #[trigger] sets[b])@.limit_id is Some implies !text_before(
        sets[b]@.limit_id->0,
        sets[a]@.limit_id->0,
    ) by {
        assert(!sets[b].before(sets[a]));
    }
}

/// Each outcome has a word of its own, and no other word is one.
pub proof fn outcomes_have_their_words(word: Seq<char>)
    ensures
        outcome_of("reset"@) == Some(ResetCreditOutcome::Reset),
        outcome_of("nothingToReset"@) == Some(ResetCreditOutcome::NothingToReset),
        outcome_of("noCredit"@) == Some(ResetCreditOutcome::NoCredit),
        outcome_of("alreadyRedeemed"@) == Some(ResetCreditOutcome::AlreadyRedeemed),
        outcome_of(word) is Some ==> word == "reset"@ || word == "nothingToReset"@ || word
            == "noCredit"@ || word == "alreadyRedeemed"@,
{
    reveal_strlit("reset");
    reveal_strlit("nothingToReset");
    reveal_strlit("noCredit");
    reveal_strlit("alreadyRedeemed");
    assert("reset"@.len() == 5);
    assert("nothingToReset"@.len() == 14);
    assert("noCredit"@.len() == 8);
    assert("alreadyRedeemed"@.len() == 15);
}

/// The limits at the head, the number of reset credits and their list are read from the members of
/// their names.
pub proof fn answers_are_read_by_name(
    result: Json,
    v: Json,
    credits: Json,
    n: JsonNumber,
    count: i64,
    list: Vec<Json>,
)
    requires
        n.signed == Some(count),
    ensures
        holds(result, "rateLimits"@, "rate_limits"@, v) ==> head_member(result) == Some(v),
        holds(
            result,
            "rateLimitResetCredits"@,
            "rate_limit_reset_credits"@,
            credits,
        ) && credits is Object ==> {
            &&& holds(credits, "availableCount"@, "available_count"@, Json::Number(n))
                ==> credits_available(result) == Some(count)
            &&& field(credits, "credits"@) == Some(Json::Array(list)) ==> credits_listed(result)
                == Some(reset_credits_in(list@))
            &&& field(credits, "credits"@) is None ==> credits_listed(result) is None
        },
        lacks(result, "rateLimitResetCredits"@, "rate_limit_reset_credits"@) ==> credits_available(
            result,
        ) is None && credits_listed(result) is None,
{
}

/// A message that has a result or an error answers the request whose number it carries; one without
/// a number or an answer is a notification where it names a method, and else nothing.
pub proof fn messages_find_their_request(message: Json, n: JsonNumber, id: u64)
    requires
        n.unsigned == Some(id),
    ensures
        field(message, "id"@) == Some(Json::Number(n)) && (field(message, "result"@) is Some
            || field(message, "error"@) is Some) ==> route_of(message) == Route::Response(id),
        field(message, "id"@) is None && field(message, "method"@) is Some ==> route_of(message)
            == Route::Notification,
        field(message, "result"@) is None && field(message, "error"@) is None && field(
            message,
            "method"@,
        ) is Some ==> route_of(message) == Route::Notification,
        field(message, "id"@) is None && field(message, "method"@) is None ==> route_of(message)
            == Route::Ignored,
        field(message, "result"@) is Some ==> Some(result_of(message)) == field(
            message,
            "result"@,
        ),
        field(message, "error"@) is Some <==> failed(message),
{
}

/// The line of a request holds its number, its method and its parameters, in this order, and ends
/// the line.
pub proof fn requests_hold_what_is_asked(id: u64, method: Seq<char>, params: Seq<char>)
    ensures
        ({
            let text = request_text(id, method, params);
            let head = "{\"id\":"@ + crate::decimal::digits(id as nat) + ",\"method\":"@ + method;
            &&& text.len() > head.len() + params.len()
            &&& text.take(head.len() as int) == head
            &&& text.last() == '\n'
            &&& text.skip(text.len() - 2 - params.len()).take(params.len() as int) == params
        }),
{
    reveal_strlit("}\n");
    let text = request_text(id, method, params);
    let head = "{\"id\":"@ + crate::decimal::digits(id as nat) + ",\"method\":"@ + method;
    assert(text.take(head.len() as int) =~= head);
    assert(text.skip(text.len() - 2 - params.len()).take(params.len() as int) =~= params);
}

/// The line of a command is its program and then its arguments, a space before each.
pub proof fn commands_are_shown_with_their_arguments(
    program: Seq<char>,
    args: Seq<Seq<char>>,
    more: Seq<char>,
)
    ensures
        command_line(program, Seq::empty()) == program,
        command_line(program, args.push(more)) == command_line(program, args) + seq![' '] + more,
{
    assert(args.push(more).drop_last() =~= args);
    assert(command_line(program, args.push(more)) =~= command_line(program, args) + seq![' ']
        + more);
}

/// A program is looked for under its own name; where endings make programs and it has none, under
/// its name with each of them.
pub proof fn programs_are_looked_for_by_ending(
    command: Seq<char>,
    has_ending: bool,
    pathext: Option<Seq<char>>,
    i: int,
)
    ensures
        program_names(command, false, has_ending, pathext) == seq![command],
        program_names(command, true, true, pathext) == seq![command],
        0 <= i < endings(pathext).len() ==> program_names(command, true, false, pathext)[i]
            == command + endings(pathext)[i],
        endings(None).len() == 4 && endings(None)[0] == ".exe"@,
        endings(pathext).len() > 0,
{
}

/// A search counts each entry once and goes on for as long as it saw fewer entries than it may.
pub proof fn searches_end_at_their_limit(seen: usize, next: Option<usize>)
    requires
        call_ensures(visit_entry, (seen,), next),
    ensures
        next is Some <==> seen + 1 < MAX_SEARCH_ENTRIES,
        next is Some ==> next->0 == seen + 1,
{
}

} // verus!
