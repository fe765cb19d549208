//! What counting a session log comes to: tokens, time and runs of each day, and the tokens of models.

use crate::clock::line_ms;
use crate::json::{field, text_field, Json};
use crate::usage::session::{
    fresh_scan, line_step, models_on, on_day, scan_lines, scan_lines_splits, ScanModel,
    UsageTotals, MAX_DISTINCT_MODELS,
};
use vstd::prelude::*;

verus! {

/// A member of an object is this whole number.
pub open spec fn is_count(object: Json, name: Seq<char>, n: int) -> bool {
    match field(object, name) {
        Some(Json::Number(k)) => k.signed is Some && k.signed->0 == n,
        _ => false,
    }
}

/// A usage object has these counters.
pub open spec fn has_counters(usage: Json, input: int, cached: int, output: int) -> bool {
    &&& is_count(usage, "input_tokens"@, input)
    &&& is_count(usage, "cached_input_tokens"@, cached)
    &&& is_count(usage, "output_tokens"@, output)
}

/// An event: a line that says so, or one that does not say what it is.
pub open spec fn is_event(line: Json, kind: Seq<char>) -> bool {
    &&& match text_field(line, "type"@) {
        Some(t) => t == "event_msg"@ || t.len() == 0,
        None => true,
    }
    &&& field(line, "payload"@) is Some
    &&& field(line, "payload"@)->0 is Object
    &&& text_field(field(line, "payload"@)->0, "type"@) == Some(kind)
}

/// A token count.
pub open spec fn is_token_count(line: Json) -> bool {
    is_event(line, "token_count"@)
}

/// What a token count says of usage.
pub open spec fn token_info(line: Json) -> Json {
    field(field(line, "payload"@)->0, "info"@)->0
}

/// A token count that reports usage since the start of the session, whatever else it reports.
pub open spec fn reports_total(line: Json, input: int, cached: int, output: int) -> bool {
    &&& is_token_count(line)
    &&& field(field(line, "payload"@)->0, "info"@) is Some
    &&& token_info(line) is Object
    &&& field(token_info(line), "total_token_usage"@) is Some
    &&& field(token_info(line), "total_token_usage"@)->0 is Object
    &&& has_counters(field(token_info(line), "total_token_usage"@)->0, input, cached, output)
}

/// A token count that reports the usage of one turn alone.
pub open spec fn reports_turn(line: Json, input: int, cached: int, output: int) -> bool {
    &&& is_token_count(line)
    &&& field(field(line, "payload"@)->0, "info"@) is Some
    &&& token_info(line) is Object
    &&& field(token_info(line), "total_token_usage"@) is None
    &&& field(token_info(line), "totalTokenUsage"@) is None
    &&& field(token_info(line), "last_token_usage"@) is Some
    &&& field(token_info(line), "last_token_usage"@)->0 is Object
    &&& has_counters(field(token_info(line), "last_token_usage"@)->0, input, cached, output)
}

/// No replay of a parent's history is under way.
pub open spec fn outside_replay(s: ScanModel) -> bool {
    !s.replay.active || s.replay.done
}

/// The counters of the report before; zero before the first.
pub open spec fn counters_before(s: ScanModel) -> UsageTotals {
    match s.previous {
        Some(u) => u,
        None => UsageTotals { input: 0, cached: 0, output: 0 },
    }
}

/// By how much a counter has grown.
pub open spec fn growth(before: int, now: int) -> int {
    if now > before {
        now - before
    } else {
        0
    }
}

/// The smaller of two counts.
pub open spec fn least(a: int, b: int) -> int {
    if a < b {
        a
    } else {
        b
    }
}

/// Only one day differs between two scans.
pub open spec fn other_days_stay(before: ScanModel, after: ScanModel, day: Seq<char>) -> bool {
    &&& forall|k: Seq<char>|
        k != day ==> #[trigger] after.daily.dom().contains(k) == before.daily.dom().contains(k)
    &&& forall|k: Seq<char>|
        k != day && #[trigger] before.daily.dom().contains(k) ==> after.daily[k] == before.daily[k]
    &&& forall|k: Seq<char>|
        k != day ==> #[trigger] after.models.dom().contains(k) == before.models.dom().contains(k)
    &&& forall|k: Seq<char>|
        k != day && #[trigger] before.models.dom().contains(k) ==> after.models[k]
            == before.models[k]
}

/// The names of kinds of lines differ.
proof fn kinds_differ()
    ensures
        "event_msg"@ != "turn_context"@,
        "event_msg"@ != "session_meta"@,
        "event_msg"@ != "response_item"@,
        "response_item"@ != "turn_context"@,
        "response_item"@ != "session_meta"@,
        "turn_context"@ != "session_meta"@,
        "event_msg"@.len() > 0,
        "turn_context"@.len() > 0,
        "session_meta"@.len() > 0,
        "response_item"@.len() > 0,
        "token_count"@ != "agent_message"@,
        "token_count"@ != "agent_reasoning"@,
        "agent_message"@ != "agent_reasoning"@,
{
    reveal_strlit("event_msg");
    reveal_strlit("turn_context");
    reveal_strlit("session_meta");
    reveal_strlit("response_item");
    reveal_strlit("token_count");
    reveal_strlit("agent_message");
    reveal_strlit("agent_reasoning");
    assert("event_msg"@.len() == 9 && "response_item"@.len() == 13);
    assert("turn_context"@.len() == 12 && "session_meta"@.len() == 12);
    assert("turn_context"@[0] == 't' && "session_meta"@[0] == 's');
    assert("token_count"@.len() == 11 && "agent_message"@.len() == 13);
    assert("agent_reasoning"@.len() == 15);
}

/// How much time of work an event adds: the time since the event before, where that is no more than
/// two minutes.
pub open spec fn worked(last: Option<i64>, now: int) -> int {
    if last is Some && last->0 < now <= last->0 + 120_000 {
        now - last->0
    } else {
        0
    }
}

/// What the counters of a day gain.
pub open spec fn day_gains(
    before: ScanModel,
    after: ScanModel,
    day: Seq<char>,
    input: int,
    cached: int,
    output: int,
) -> bool {
    let a = on_day(before.daily, day);
    let b = on_day(after.daily, day);
    &&& a.input + input <= i64::MAX ==> b.input == a.input + input
    &&& a.cached + cached <= i64::MAX ==> b.cached == a.cached + cached
    &&& a.output + output <= i64::MAX ==> b.output == a.output + output
}

/// Usage since the start of the session counts by its growth: a token count that reports it adds to
/// its day what the counters have grown since the report before, and its counters are those that the
/// next report is held against. What it says of one turn besides does not count. Cached tokens count
/// at most as many as all that went in. Other days and the runs stay as they are.
#[verifier::spinoff_prover]
#[verifier::rlimit(80)]
pub proof fn running_totals_count_by_growth(
    s: ScanModel,
    line: Json,
    day: Seq<char>,
    at: i64,
    input: int,
    cached: int,
    output: int,
)
    requires
        reports_total(line, input, cached, output),
        line_ms(line) == Some(at),
        outside_replay(s),
        0 <= input,
        0 <= cached,
        0 <= output,
        counters_before(s).input >= 0,
        counters_before(s).cached >= 0,
        counters_before(s).output >= 0,
    ensures
        ({
            let p = counters_before(s);
            let r = line_step(s, line, Some(day));
            let (i, c, o) = (
                growth(p.input as int, input),
                growth(p.cached as int, cached),
                growth(p.output as int, output),
            );
            &&& r.previous is Some
            &&& r.previous->0.input == input && r.previous->0.cached == cached
                && r.previous->0.output == output
            &&& day_gains(s, r, day, i, least(c, i), o)
            &&& on_day(r.daily, day).agent_runs == on_day(s.daily, day).agent_runs
            &&& other_days_stay(s, r, day)
            &&& outside_replay(r)
            &&& r.model == s.model && r.runs == s.runs && r.cwd == s.cwd
        }),
{
    kinds_differ();
}

/// Usage of one turn counts as it is, and the counters since the start of the session grow by it.
#[verifier::spinoff_prover]
#[verifier::rlimit(80)]
pub proof fn turns_count_as_they_are(
    s: ScanModel,
    line: Json,
    day: Seq<char>,
    at: i64,
    input: int,
    cached: int,
    output: int,
)
    requires
        reports_turn(line, input, cached, output),
        line_ms(line) == Some(at),
        outside_replay(s),
        0 <= cached,
        0 <= input,
        0 <= output,
        0 <= counters_before(s).input <= i64::MAX - input,
        0 <= counters_before(s).cached <= i64::MAX - cached,
        0 <= counters_before(s).output <= i64::MAX - output,
    ensures
        ({
            let p = counters_before(s);
            let r = line_step(s, line, Some(day));
            &&& r.previous is Some
            &&& r.previous->0.input == p.input + input && r.previous->0.cached == p.cached + cached
                && r.previous->0.output == p.output + output
            &&& day_gains(s, r, day, input, least(cached, input), output)
            &&& on_day(r.daily, day).agent_runs == on_day(s.daily, day).agent_runs
            &&& other_days_stay(s, r, day)
            &&& outside_replay(r)
            &&& r.model == s.model && r.runs == s.runs && r.cwd == s.cwd
        }),
{
    kinds_differ();
}

/// What a token count adds, by input and output: the growth of running totals, or the turn.
pub open spec fn adds(s: ScanModel, line: Json, input: int, output: int) -> bool {
    exists|i: int, c: int, o: int|
        i >= 0 && c >= 0 && o >= 0 && ((#[trigger] reports_total(line, i, c, o) && input == growth(
            counters_before(s).input as int,
            i,
        ) && output == growth(counters_before(s).output as int, o)) || (reports_turn(
            line,
            i,
            c,
            o,
        ) && input == i && output == o))
}

/// The tokens of a token count belong to the model that the session runs with and to no other: they
/// are added to it on their day, and the other models of the day stay as they are.
#[verifier::spinoff_prover]
#[verifier::rlimit(80)]
pub proof fn tokens_belong_to_the_current_model(
    s: ScanModel,
    line: Json,
    day: Seq<char>,
    at: i64,
    model: Seq<char>,
    input: int,
    output: int,
)
    requires
        adds(s, line, input, output),
        line_ms(line) == Some(at),
        outside_replay(s),
        s.model == Some(model),
        counters_before(s).input >= 0,
        counters_before(s).cached >= 0,
        counters_before(s).output >= 0,
        0 < input + output <= i64::MAX,
        models_on(s.models, day).dom().contains(model) || models_on(s.models, day).dom().len()
            < MAX_DISTINCT_MODELS,
    ensures
        ({
            let before = models_on(s.models, day);
            let after = models_on(line_step(s, line, Some(day)).models, day);
            let had = if before.dom().contains(model) {
                before[model] as int
            } else {
                0
            };
            &&& after.dom() == before.dom().insert(model)
            &&& had + input + output <= i64::MAX ==> after[model] == had + input + output
            &&& forall|k: Seq<char>|
                k != model && #[trigger] before.dom().contains(k) ==> after[k] == before[k]
        }),
{
    kinds_differ();
    let (i, c, o) = choose|i: int, c: int, o: int|
        i >= 0 && c >= 0 && o >= 0 && ((#[trigger] reports_total(line, i, c, o) && input == growth(
            counters_before(s).input as int,
            i,
        ) && output == growth(counters_before(s).output as int, o)) || (reports_turn(
            line,
            i,
            c,
            o,
        ) && input == i && output == o));
}

/// A turn that names a model, outside a replay, is the turn of that model, whatever model the session
/// ran with before.
pub proof fn turns_name_the_model(
    s: ScanModel,
    line: Json,
    day: Option<Seq<char>>,
    model: Seq<char>,
)
    requires
        text_field(line, "type"@) == Some("turn_context"@),
        field(line, "payload"@) is Some,
        field(line, "payload"@)->0 is Object,
        text_field(field(line, "payload"@)->0, "model"@) == Some(model),
        outside_replay(s),
    ensures
        line_step(s, line, day).model == Some(model),
{
    kinds_differ();
}

/// Only a turn changes the model that a session runs with.
pub proof fn only_turns_change_the_model(s: ScanModel, line: Json, day: Option<Seq<char>>)
    requires
        text_field(line, "type"@) != Some("turn_context"@),
    ensures
        line_step(s, line, day).model == s.model,
{
    kinds_differ();
}

/// The model of the latest turn stands: however many other lines follow a turn that names a model, the
/// session runs with that model.
pub proof fn the_latest_turn_names_the_model(
    s: ScanModel,
    turn: (Json, Option<Seq<char>>),
    later: Seq<(Json, Option<Seq<char>>)>,
    model: Seq<char>,
)
    requires
        text_field(turn.0, "type"@) == Some("turn_context"@),
        field(turn.0, "payload"@) is Some,
        field(turn.0, "payload"@)->0 is Object,
        text_field(field(turn.0, "payload"@)->0, "model"@) == Some(model),
        outside_replay(s),
        forall|i: int|
            0 <= i < later.len() ==> text_field((#[trigger] later[i]).0, "type"@) != Some(
                "turn_context"@,
            ),
    ensures
        scan_lines(s, seq![turn] + later).model == Some(model),
    decreases later.len(),
{
    let lines = seq![turn] + later;
    if later.len() == 0 {
        assert(lines =~= seq![turn]);
        assert(seq![turn].drop_last() =~= Seq::<(Json, Option<Seq<char>>)>::empty());
        reveal_with_fuel(scan_lines, 2);
        turns_name_the_model(s, turn.0, turn.1, model);
    } else {
        let init = later.drop_last();
        assert(lines.drop_last() =~= seq![turn] + init);
        assert(lines.last() == later[later.len() - 1]);
        the_latest_turn_names_the_model(s, turn, init, model);
        only_turns_change_the_model(
            scan_lines(s, seq![turn] + init),
            later.last().0,
            later.last().1,
        );
    }
}

/// Only token counts count tokens: every other line leaves the tokens of all days, the models and the
/// counters as they are.
#[verifier::spinoff_prover]
#[verifier::rlimit(80)]
pub proof fn only_token_counts_count_tokens(s: ScanModel, line: Json, day: Option<Seq<char>>)
    requires
        !is_token_count(line),
    ensures
        ({
            let r = line_step(s, line, day);
            &&& r.previous == s.previous
            &&& r.models == s.models
            &&& forall|k: Seq<char>|
                {
                    &&& (#[trigger] on_day(r.daily, k)).input == on_day(s.daily, k).input
                    &&& on_day(r.daily, k).cached == on_day(s.daily, k).cached
                    &&& on_day(r.daily, k).output == on_day(s.daily, k).output
                }
        }),
{
    kinds_differ();
}

/// The agent speaks: a message among the events, or an item of the conversation that is the
/// assistant's.
pub open spec fn agent_speaks(line: Json) -> bool {
    is_event(line, "agent_message"@) || (text_field(line, "type"@) == Some(
        "response_item"@,
    ) && field(line, "payload"@) is Some && field(line, "payload"@)->0 is Object && text_field(
        field(line, "payload"@)->0,
        "role"@,
    ) == Some("assistant"@))
}

/// The agent is at work: it speaks or reasons, or an item of the conversation is no message.
pub open spec fn agent_works(line: Json) -> bool {
    agent_speaks(line) || is_event(line, "agent_reasoning"@) || (text_field(
        line,
        "type"@,
    ) == Some("response_item"@) && field(line, "payload"@) is Some && field(line, "payload"@)->0 is Object
        && text_field(field(line, "payload"@)->0, "type"@) != Some("message"@))
}

/// What the agent says counts as one run of its day, once for each point in time.
#[verifier::spinoff_prover]
#[verifier::rlimit(80)]
pub proof fn runs_count_once_per_point_in_time(
    s: ScanModel,
    line: Json,
    day: Seq<char>,
    at: i64,
)
    requires
        agent_speaks(line),
        line_ms(line) == Some(at),
        outside_replay(s),
    ensures
        ({
            let r = line_step(s, line, Some(day));
            let runs = on_day(s.daily, day).agent_runs;
            &&& r.runs == s.runs.insert(at)
            &&& s.runs.contains(at) ==> on_day(r.daily, day).agent_runs == runs
            &&& !s.runs.contains(at) && runs < i64::MAX ==> on_day(r.daily, day).agent_runs == runs
                + 1
            &&& other_days_stay(s, r, day)
        }),
{
    kinds_differ();
    assert(s.runs.contains(at) ==> s.runs.insert(at) =~= s.runs);
}

/// Nothing else counts as a run.
#[verifier::spinoff_prover]
#[verifier::rlimit(80)]
pub proof fn only_the_agent_runs(s: ScanModel, line: Json, day: Option<Seq<char>>)
    requires
        !agent_speaks(line),
    ensures
        line_step(s, line, day).runs == s.runs,
        forall|k: Seq<char>|
            (#[trigger] on_day(line_step(s, line, day).daily, k)).agent_runs == on_day(
                s.daily,
                k,
            ).agent_runs,
{
    kinds_differ();
}

/// While the agent is at work, the time since the event before counts on the day, where that is no
/// more than two minutes; the next event is held against this one.
#[verifier::spinoff_prover]
#[verifier::rlimit(80)]
pub proof fn work_counts_the_time_between_events(
    s: ScanModel,
    line: Json,
    day: Seq<char>,
    at: i64,
)
    requires
        agent_works(line),
        line_ms(line) == Some(at),
        outside_replay(s),
        at >= 0,
        s.last_ms is Some ==> s.last_ms->0 >= 0,
        on_day(s.daily, day).agent_ms <= i64::MAX - 120_000,
    ensures
        ({
            let r = line_step(s, line, Some(day));
            &&& r.last_ms == Some(at)
            &&& on_day(r.daily, day).agent_ms == on_day(s.daily, day).agent_ms + worked(
                s.last_ms,
                at as int,
            )
            &&& other_days_stay(s, r, day)
        }),
{
    kinds_differ();
}

/// A token count that counts something is work as well.
#[verifier::spinoff_prover]
#[verifier::rlimit(80)]
pub proof fn token_counts_are_work(
    s: ScanModel,
    line: Json,
    day: Seq<char>,
    at: i64,
    input: int,
    output: int,
)
    requires
        adds(s, line, input, output),
        input + output > 0,
        line_ms(line) == Some(at),
        outside_replay(s),
        at >= 0,
        counters_before(s).input >= 0,
        counters_before(s).cached >= 0,
        counters_before(s).output >= 0,
        s.last_ms is Some ==> s.last_ms->0 >= 0,
        on_day(s.daily, day).agent_ms <= i64::MAX - 120_000,
    ensures
        ({
            let r = line_step(s, line, Some(day));
            &&& r.last_ms == Some(at)
            &&& on_day(r.daily, day).agent_ms == on_day(s.daily, day).agent_ms + worked(
                s.last_ms,
                at as int,
            )
        }),
{
    kinds_differ();
    let (i, c, o) = choose|i: int, c: int, o: int|
        i >= 0 && c >= 0 && o >= 0 && ((#[trigger] reports_total(line, i, c, o) && input == growth(
            counters_before(s).input as int,
            i,
        ) && output == growth(counters_before(s).output as int, o)) || (reports_turn(
            line,
            i,
            c,
            o,
        ) && input == i && output == o));
}

/// Nothing else counts as time of work.
#[verifier::spinoff_prover]
#[verifier::rlimit(80)]
pub proof fn only_work_takes_time(s: ScanModel, line: Json, day: Option<Seq<char>>)
    requires
        !agent_works(line),
        !is_token_count(line),
        text_field(line, "type"@) == Some("response_item"@) ==> field(line, "payload"@) is Some
            && field(line, "payload"@)->0 is Object,
    ensures
        line_step(s, line, day).last_ms == s.last_ms,
        forall|k: Seq<char>|
            (#[trigger] on_day(line_step(s, line, day).daily, k)).agent_ms == on_day(
                s.daily,
                k,
            ).agent_ms,
{
    kinds_differ();
}

/// The running totals of one day: each line is of the same day and reports counters that are not below
/// those before, or is a turn or an item of the conversation, which reports none.
pub open spec fn running_totals(
    lines: Seq<(Json, Option<Seq<char>>)>,
    totals: Seq<(int, int, int)>,
    day: Seq<char>,
) -> bool {
    &&& lines.len() == totals.len()
    &&& forall|i: int|
        #![trigger lines[i]]
        0 <= i < lines.len() ==> {
            let before = if i == 0 {
                (0int, 0int, 0int)
            } else {
                totals[i - 1]
            };
            &&& lines[i].1 == Some(day)
            &&& line_ms(lines[i].0) is Some
            &&& before.0 <= totals[i].0 && before.1 <= totals[i].1 && before.2 <= totals[i].2
            &&& reports_total(lines[i].0, totals[i].0, totals[i].1, totals[i].2) || (totals[i]
                == before && (text_field(lines[i].0, "type"@) == Some("turn_context"@)
                || text_field(lines[i].0, "type"@) == Some("response_item"@)))
        }
}

/// Running totals come to the last of them: however many reports a log holds of the usage since its
/// start, and whatever turns and items stand between them, the day has the tokens of the last report.
pub proof fn running_totals_come_to_the_last(
    lines: Seq<(Json, Option<Seq<char>>)>,
    totals: Seq<(int, int, int)>,
    day: Seq<char>,
)
    requires
        running_totals(lines, totals, day),
    ensures
        ({
            let s = scan_lines(fresh_scan(), lines);
            let last = if totals.len() == 0 {
                (0int, 0int, 0int)
            } else {
                totals.last()
            };
            &&& on_day(s.daily, day).input == last.0
            &&& on_day(s.daily, day).output == last.2
            &&& counters_before(s).input == last.0
            &&& counters_before(s).cached == last.1
            &&& counters_before(s).output == last.2
            &&& outside_replay(s)
            &&& last.0 >= 0 && last.1 >= 0 && last.2 >= 0
        }),
    decreases lines.len(),
{
    if lines.len() > 0 {
        let n = lines.len() - 1;
        let init = lines.drop_last();
        let seen = totals.drop_last();
        assert forall|i: int| #![trigger init[i]] 0 <= i < init.len() implies init[i] == lines[i]
            && seen[i] == totals[i] by {}
        assert(running_totals(init, seen, day)) by {
            assert forall|i: int| #![trigger init[i]] 0 <= i < init.len() implies {
                let before = if i == 0 {
                    (0int, 0int, 0int)
                } else {
                    seen[i - 1]
                };
                &&& init[i].1 == Some(day)
                &&& line_ms(init[i].0) is Some
                &&& before.0 <= seen[i].0 && before.1 <= seen[i].1 && before.2 <= seen[i].2
                &&& reports_total(init[i].0, seen[i].0, seen[i].1, seen[i].2) || (seen[i] == before
                    && (text_field(init[i].0, "type"@) == Some("turn_context"@) || text_field(
                    init[i].0,
                    "type"@,
                ) == Some("response_item"@)))
            } by {
                assert(init[i] == lines[i]);
            }
        }
        running_totals_come_to_the_last(init, seen, day);
        let s = scan_lines(fresh_scan(), init);
        let line = lines[n].0;
        let now = totals[n];
        assert(lines.last() == lines[n]);
        if reports_total(line, now.0, now.1, now.2) {
            running_totals_count_by_growth(s, line, day, line_ms(line)->0, now.0, now.1, now.2);
        } else {
            kinds_differ();
            quiet_lines_start_no_replay(s, line, Some(day));
            only_token_counts_count_tokens(s, line, Some(day));
        }
    }
}

/// Turns and items of the conversation start no replay.
proof fn quiet_lines_start_no_replay(s: ScanModel, line: Json, day: Option<Seq<char>>)
    requires
        outside_replay(s),
        text_field(line, "type"@) is Some,
        text_field(line, "type"@) != Some("session_meta"@),
    ensures
        outside_replay(line_step(s, line, day)),
{
    kinds_differ();
}

/// Work without a long pause takes the time from its first event to its last: where the agent is at
/// work at each of some points in time, one after the other and never more than two minutes apart,
/// the day gains the time from the one before the first to the last.
pub proof fn steady_work_takes_its_whole_time(
    s: ScanModel,
    lines: Seq<(Json, Option<Seq<char>>)>,
    times: Seq<i64>,
    day: Seq<char>,
)
    requires
        outside_replay(s),
        lines.len() == times.len(),
        s.last_ms is Some,
        s.last_ms->0 >= 0,
        on_day(s.daily, day).agent_ms >= 0,
        forall|i: int|
            #![trigger lines[i]]
            0 <= i < lines.len() ==> {
                let before = if i == 0 {
                    s.last_ms->0
                } else {
                    times[i - 1]
                };
                &&& agent_works(lines[i].0)
                &&& text_field(lines[i].0, "type"@) is Some
                &&& line_ms(lines[i].0) == Some(times[i])
                &&& lines[i].1 == Some(day)
                &&& before <= times[i] <= before + 120_000
            },
        on_day(s.daily, day).agent_ms + times.len() * 120_000 <= i64::MAX,
    ensures
        ({
            let r = scan_lines(s, lines);
            let last = if times.len() == 0 {
                s.last_ms->0
            } else {
                times.last()
            };
            &&& on_day(r.daily, day).agent_ms == on_day(s.daily, day).agent_ms + (last
                - s.last_ms->0)
            &&& r.last_ms == Some(last)
            &&& outside_replay(r)
            &&& s.last_ms->0 <= last <= s.last_ms->0 + times.len() * 120_000
        }),
    decreases lines.len(),
{
    if lines.len() > 0 {
        let n = lines.len() - 1;
        let init = lines.drop_last();
        assert forall|i: int| #![trigger init[i]] 0 <= i < init.len() implies init[i] == lines[i]
            && times.drop_last()[i] == times[i] by {}
        steady_work_takes_its_whole_time(s, init, times.drop_last(), day);
        let r = scan_lines(s, init);
        assert(lines.last() == lines[n]);
        work_counts_the_time_between_events(r, lines[n].0, day, times[n]);
        kinds_differ();
        quiet_lines_start_no_replay(r, lines[n].0, Some(day));
    }
}

/// The replay of a parent's history in which nothing has happened for a while yet.
pub open spec fn in_replay(s: ScanModel, last: int) -> bool {
    &&& s.replay.active && !s.replay.done
    &&& s.replay.last_event_ms is Some && s.replay.last_event_ms->0 == last
}

/// The first description of a session that names its parent starts the replay of the parent's history.
pub proof fn forks_start_with_a_replay(
    s: ScanModel,
    line: Json,
    day: Option<Seq<char>>,
    at: i64,
)
    requires
        text_field(line, "type"@) == Some("session_meta"@),
        field(line, "payload"@) is Some,
        field(line, "payload"@)->0 is Object,
        text_field(field(line, "payload"@)->0, "forked_from_id"@) is Some,
        field(field(line, "payload"@)->0, "timestamp"@) is None,
        line_ms(line) == Some(at),
        at >= 0,
        !s.meta_seen,
    ensures
        ({
            let r = line_step(s, line, day);
            &&& in_replay(r, at as int)
            &&& r.replay.token_events == 0
            &&& r.replay.start_ms == Some(at)
            &&& r.meta_seen
            &&& r.daily == s.daily && r.models == s.models && r.previous == s.previous && r.runs
                == s.runs
        }),
{
    kinds_differ();
}

/// A token count in a replay, less than a second after the event before, is part of the replay: it
/// moves the counters, and counts for no day and no model.
#[verifier::spinoff_prover]
#[verifier::rlimit(80)]
pub proof fn replayed_tokens_only_move_the_counters(
    s: ScanModel,
    line: Json,
    day: Option<Seq<char>>,
    last: i64,
    at: i64,
    input: int,
    cached: int,
    output: int,
)
    requires
        in_replay(s, last as int),
        reports_total(line, input, cached, output),
        line_ms(line) == Some(at),
        0 <= last <= at < last + 1_000,
        s.replay.token_events > 0 || (s.replay.start_ms is Some && 0 <= s.replay.start_ms->0 && at
            < s.replay.start_ms->0 + 2_000),
    ensures
        ({
            let r = line_step(s, line, day);
            &&& in_replay(r, at as int)
            &&& r.replay.token_events > 0
            &&& counters_before(r).input == input
            &&& counters_before(r).cached == cached
            &&& counters_before(r).output == output
            &&& r.daily == s.daily && r.models == s.models && r.runs == s.runs
        }),
{
    kinds_differ();
}

/// A token count at least a second after the event before ends the replay and counts by its growth
/// over what the parent had used.
#[verifier::spinoff_prover]
#[verifier::rlimit(80)]
pub proof fn a_pause_ends_the_replay(
    s: ScanModel,
    line: Json,
    day: Seq<char>,
    last: i64,
    at: i64,
    input: int,
    cached: int,
    output: int,
)
    requires
        in_replay(s, last as int),
        reports_total(line, input, cached, output),
        line_ms(line) == Some(at),
        0 <= last,
        last + 1_000 <= at,
        0 <= input,
        0 <= cached,
        0 <= output,
        counters_before(s).input >= 0,
        counters_before(s).cached >= 0,
        counters_before(s).output >= 0,
    ensures
        ({
            let p = counters_before(s);
            let r = line_step(s, line, Some(day));
            let i = growth(p.input as int, input);
            &&& outside_replay(r)
            &&& day_gains(
                s,
                r,
                day,
                i,
                least(growth(p.cached as int, cached), i),
                growth(p.output as int, output),
            )
            &&& counters_before(r).input == input && counters_before(r).output == output
        }),
{
    kinds_differ();
}

/// The usage of a forked session counts once: a session that starts with the history of its parent,
/// told without a pause of a second, counts of its first own report only what has been used since.
pub proof fn forked_history_counts_once(
    meta: (Json, Option<Seq<char>>),
    history: Seq<(Json, Option<Seq<char>>)>,
    times: Seq<i64>,
    totals: Seq<(int, int, int)>,
    own: (Json, Option<Seq<char>>),
    day: Seq<char>,
    start: i64,
    at: i64,
    now: (int, int, int),
)
    requires
        text_field(meta.0, "type"@) == Some("session_meta"@),
        field(meta.0, "payload"@) is Some,
        field(meta.0, "payload"@)->0 is Object,
        text_field(field(meta.0, "payload"@)->0, "forked_from_id"@) is Some,
        field(field(meta.0, "payload"@)->0, "timestamp"@) is None,
        line_ms(meta.0) == Some(start),
        start >= 0,
        is_history(history, times, totals, start),
        history.len() > 0,
        own.1 == Some(day),
        line_ms(own.0) == Some(at),
        times.last() + 1_000 <= at,
        reports_total(own.0, now.0, now.1, now.2),
        now.0 >= totals.last().0 >= 0,
        now.1 >= totals.last().1 >= 0,
        now.2 >= totals.last().2 >= 0,
    ensures
        ({
            let s = scan_lines(fresh_scan(), seq![meta] + history + seq![own]);
            &&& on_day(s.daily, day).input == now.0 - totals.last().0
            &&& on_day(s.daily, day).output == now.2 - totals.last().2
        }),
{
    let empty = Seq::<(Json, Option<Seq<char>>)>::empty();
    let first = scan_lines(fresh_scan(), seq![meta]);
    assert(seq![meta].drop_last() =~= empty);
    assert(first == line_step(fresh_scan(), meta.0, meta.1)) by {
        reveal_with_fuel(scan_lines, 2);
    }
    forks_start_with_a_replay(fresh_scan(), meta.0, meta.1, start);
    history_only_moves_the_counters(first, history, times, totals, start);
    let told = scan_lines(first, history);
    scan_lines_splits(fresh_scan(), seq![meta], history);
    scan_lines_splits(fresh_scan(), seq![meta] + history, seq![own]);
    assert(seq![own].drop_last() =~= empty);
    assert(scan_lines(told, seq![own]) == line_step(told, own.0, own.1)) by {
        reveal_with_fuel(scan_lines, 2);
    }
    a_pause_ends_the_replay(told, own.0, day, times.last(), at, now.0, now.1, now.2);
}

/// The token counts of a history, each less than a second after the one before.
pub open spec fn is_history(
    history: Seq<(Json, Option<Seq<char>>)>,
    times: Seq<i64>,
    totals: Seq<(int, int, int)>,
    start: i64,
) -> bool {
    &&& history.len() == times.len() == totals.len()
    &&& forall|i: int|
        #![trigger history[i]]
        0 <= i < history.len() ==> {
            let before = if i == 0 {
                start
            } else {
                times[i - 1]
            };
            &&& reports_total(history[i].0, totals[i].0, totals[i].1, totals[i].2)
            &&& line_ms(history[i].0) == Some(times[i])
            &&& before <= times[i] < before + 1_000
        }
}

proof fn history_only_moves_the_counters(
    s: ScanModel,
    history: Seq<(Json, Option<Seq<char>>)>,
    times: Seq<i64>,
    totals: Seq<(int, int, int)>,
    start: i64,
)
    requires
        in_replay(s, start as int),
        start >= 0,
        s.replay.start_ms == Some(start),
        is_history(history, times, totals, start),
    ensures
        ({
            let r = scan_lines(s, history);
            let last = if times.len() == 0 {
                start
            } else {
                times.last()
            };
            &&& in_replay(r, last as int)
            &&& last >= start
            &&& r.replay.start_ms == Some(start)
            &&& history.len() > 0 ==> r.replay.token_events > 0 && counters_before(r).input
                == totals.last().0 && counters_before(r).cached == totals.last().1
                && counters_before(r).output == totals.last().2
            &&& history.len() == 0 ==> r == s
            &&& r.daily == s.daily && r.models == s.models && r.runs == s.runs
        }),
    decreases history.len(),
{
    if history.len() > 0 {
        let n = history.len() - 1;
        let init = history.drop_last();
        assert forall|i: int| #![trigger init[i]] 0 <= i < init.len() implies init[i] == history[i]
            && times.drop_last()[i] == times[i] && totals.drop_last()[i] == totals[i] by {}
        history_only_moves_the_counters(s, init, times.drop_last(), totals.drop_last(), start);
        let r = scan_lines(s, init);
        let last = if n == 0 {
            start
        } else {
            times[n - 1]
        };
        assert(history.last() == history[n]);
        replayed_tokens_only_move_the_counters(
            r,
            history[n].0,
            history[n].1,
            last,
            times[n],
            totals[n].0,
            totals[n].1,
            totals[n].2,
        );
        assert(line_step(r, history[n].0, history[n].1).replay.start_ms == Some(start)) by {
            kinds_differ();
        }
    }
}

} // verus!
