//! Session logs: one JSON value per line, folded into totals per day and per model.

use crate::clock::{
    in_calendar, in_every_zone, is_day_of, line_ms, local_day, parse_timestamp_value_ms, read_timestamp_ms, timestamp_ms,
};
use crate::json::{
    as_integer, deref, field, integer_of, opt_object, opt_text, or, parse_json, parsed_json,
    sub_field, text_field, Json,
};
use crate::strmap::StrMap;
use crate::text::{byte_len, opt_str, opt_view, own_opt, same, str_fits};
use std::collections::HashSet;
use vstd::prelude::*;

verus! {

broadcast use vstd::std_specs::hash::group_hash_axioms;

/// Time between two events of one session counts as work up to this many milliseconds.
pub const MAX_ACTIVITY_GAP_MS: i64 = 120_000;

/// A pause this long ends the replay of a forked session.
pub const FORK_REPLAY_END_GAP_MS: i64 = 1_000;

/// A replay without token counts ends after this time.
pub const FORK_REPLAY_NO_TOKEN_GRACE_MS: i64 = 2_000;

/// Above this many models, new ones are counted together.
pub const MAX_DISTINCT_MODELS: usize = 5_000;

/// Cumulative token counters of one session.
#[derive(Debug, Clone, Copy)]
pub struct UsageTotals {
    pub input: i64,
    pub cached: i64,
    pub output: i64,
}

/// What one day adds up to.
#[derive(Debug, Clone, Copy)]
pub struct DailyTotals {
    pub input: i64,
    pub cached: i64,
    pub output: i64,
    pub agent_ms: i64,
    pub agent_runs: i64,
}

/// The replay of the parent's history at the start of a forked session.
#[derive(Debug, Clone, Copy)]
pub struct ForkReplayState {
    pub active: bool,
    pub done: bool,
    pub start_ms: Option<i64>,
    pub last_event_ms: Option<i64>,
    pub token_events: u32,
}

/// What the parser carries from line to line.
#[derive(Debug)]
pub struct ParserState {
    pub previous_totals: Option<UsageTotals>,
    pub current_model: Option<String>,
    pub last_activity_ms: Option<i64>,
    pub first_session_meta_seen: bool,
    pub owner_from_meta: bool,
    pub fork_replay: ForkReplayState,
}

/// Token totals per day and model.
pub type ModelsByDay = StrMap<StrMap<i64>>;

/// A session log on its way through the parser.
pub struct FileScan {
    pub session_cwd: Option<String>,
    pub parser_state: ParserState,
    pub daily: StrMap<DailyTotals>,
    pub model_totals_by_day: ModelsByDay,
    pub seen_runs: HashSet<i64>,
}

/// The contents of a [`FileScan`].
#[verifier::ext_equal]
pub struct ScanModel {
    pub cwd: Option<Seq<char>>,
    pub from_meta: bool,
    pub previous: Option<UsageTotals>,
    pub model: Option<Seq<char>>,
    pub last_ms: Option<i64>,
    pub meta_seen: bool,
    pub replay: ForkReplayState,
    pub daily: Map<Seq<char>, DailyTotals>,
    pub models: Map<Seq<char>, Map<Seq<char>, i64>>,
    pub runs: Set<i64>,
}

/// Nothing counted.
pub open spec fn no_totals() -> UsageTotals {
    UsageTotals { input: 0, cached: 0, output: 0 }
}

/// A day without usage.
pub open spec fn empty_day() -> DailyTotals {
    DailyTotals { input: 0, cached: 0, output: 0, agent_ms: 0, agent_runs: 0 }
}

/// No replay.
pub open spec fn no_replay() -> ForkReplayState {
    ForkReplayState {
        active: false,
        done: false,
        start_ms: None,
        last_event_ms: None,
        token_events: 0,
    }
}

/// The day's totals, zero where the day has none.
pub open spec fn on_day(daily: Map<Seq<char>, DailyTotals>, day: Seq<char>) -> DailyTotals {
    if daily.dom().contains(day) {
        daily[day]
    } else {
        empty_day()
    }
}

/// The maps of maps behind the totals per day and model.
pub open spec fn models_view(m: ModelsByDay) -> Map<Seq<char>, Map<Seq<char>, i64>> {
    m@.map_values(|d: StrMap<i64>| d@)
}

/// Every map of the totals per day and model is well formed.
pub open spec fn models_wf(m: ModelsByDay) -> bool {
    m.wf() && forall|k: Seq<char>| #[trigger] m@.dom().contains(k) ==> m@[k].wf()
}

impl FileScan {
    /// The maps hold no key twice.
    pub open spec fn wf(&self) -> bool {
        self.daily.wf() && models_wf(self.model_totals_by_day)
    }

    /// What the scan has found so far.
    pub open spec fn model(&self) -> ScanModel {
        ScanModel {
            cwd: opt_view(self.session_cwd),
            from_meta: self.parser_state.owner_from_meta,
            previous: self.parser_state.previous_totals,
            model: opt_view(self.parser_state.current_model),
            last_ms: self.parser_state.last_activity_ms,
            meta_seen: self.parser_state.first_session_meta_seen,
            replay: self.parser_state.fork_replay,
            daily: self.daily@,
            models: models_view(self.model_totals_by_day),
            runs: self.seen_runs@,
        }
    }
}

/// The kind of a log line; empty where it has none.
pub open spec fn line_type(line: Json) -> Seq<char> {
    match text_field(line, "type"@) {
        Some(t) => t,
        None => Seq::empty(),
    }
}

/// The payload of a log line where it is an object.
pub open spec fn payload_of(line: Json) -> Option<Json> {
    opt_object(field(line, "payload"@))
}

/// The kind of a payload.
pub open spec fn payload_type(line: Json) -> Option<Seq<char>> {
    opt_text(sub_field(payload_of(line), "type"@))
}

/// The working directory that a log line names.
pub open spec fn line_cwd(line: Json) -> Option<Seq<char>> {
    opt_text(sub_field(field(line, "payload"@), "cwd"@))
}

/// The owner of a session: the first working directory of a `session_meta`, and until one comes,
/// the first of a `turn_context`.
pub open spec fn note_owner(s: ScanModel, line: Json) -> ScanModel {
    if line_type(line) == "session_meta"@ && !s.from_meta && line_cwd(line) is Some {
        ScanModel { cwd: line_cwd(line), from_meta: true, ..s }
    } else if line_type(line) == "turn_context"@ && s.cwd is None {
        ScanModel { cwd: line_cwd(line), ..s }
    } else {
        s
    }
}

/// The first `session_meta` of a session that was forked starts a replay.
pub open spec fn start_replay(s: ScanModel, line: Json) -> ScanModel {
    if line_type(line) != "session_meta"@ || s.meta_seen {
        s
    } else if opt_text(sub_field(payload_of(line), "forked_from_id"@)) is None {
        ScanModel { meta_seen: true, ..s }
    } else {
        let stamp = match sub_field(payload_of(line), "timestamp"@) {
            Some(v) => timestamp_ms(v),
            None => None,
        };
        let start = or(stamp, line_ms(line));
        ScanModel {
            meta_seen: true,
            replay: ForkReplayState {
                active: true,
                done: false,
                start_ms: start,
                last_event_ms: start,
                token_events: 0,
            },
            ..s
        }
    }
}

/// Whether a replay ends with an event at `ms`: after a pause, or after the grace time where no
/// tokens were counted.
pub open spec fn replay_ends(r: ForkReplayState, ms: i64) -> bool {
    let start = match r.start_ms {
        Some(v) => v,
        None => ms,
    };
    let gap = match r.last_event_ms {
        Some(last) => ms.wrapping_sub(last),
        None => 0i64,
    };
    gap >= FORK_REPLAY_END_GAP_MS || (r.token_events == 0 && ms.wrapping_sub(start)
        >= FORK_REPLAY_NO_TOKEN_GRACE_MS)
}

/// Whether an event belongs to the replay, and the replay after it.
pub open spec fn replay_step(r: ForkReplayState, ms: Option<i64>) -> (bool, ForkReplayState) {
    if !r.active || r.done {
        (false, r)
    } else {
        match ms {
            None => (true, r),
            Some(t) => if replay_ends(r, t) {
                (
                    false,
                    ForkReplayState { active: false, done: true, last_event_ms: Some(t), ..r },
                )
            } else {
                (true, ForkReplayState { last_event_ms: Some(t), ..r })
            },
        }
    }
}

/// A token count within the replay.
pub open spec fn replay_token(r: ForkReplayState) -> ForkReplayState {
    if r.active && !r.done && r.token_events < u32::MAX {
        ForkReplayState { token_events: (r.token_events + 1) as u32, ..r }
    } else {
        r
    }
}

/// The time since the last event counts as work on the day of this one, unless it is too long.
pub open spec fn track(s: ScanModel, ms: i64, day: Option<Seq<char>>) -> ScanModel {
    let daily = match (s.last_ms, day) {
        (Some(prev), Some(d)) => {
            let delta = ms.wrapping_sub(prev);
            if 0 < delta <= MAX_ACTIVITY_GAP_MS {
                let t = on_day(s.daily, d);
                s.daily.insert(d, DailyTotals { agent_ms: t.agent_ms.wrapping_add(delta), ..t })
            } else {
                s.daily
            }
        },
        _ => s.daily,
    };
    ScanModel { daily, last_ms: Some(ms), ..s }
}

/// An answer of the agent counts as one run per point in time.
pub open spec fn count_run(s: ScanModel, ms: i64, day: Option<Seq<char>>) -> ScanModel {
    if s.runs.contains(ms) {
        s
    } else {
        let daily = match day {
            Some(d) => {
                let t = on_day(s.daily, d);
                s.daily.insert(d, DailyTotals { agent_runs: t.agent_runs.wrapping_add(1), ..t })
            },
            None => s.daily,
        };
        ScanModel { daily, runs: s.runs.insert(ms), ..s }
    }
}

/// A counter of a usage object under one of its names; zero where it has none or no number.
pub open spec fn counter(value: Option<Json>) -> i64 {
    match value {
        Some(v) => match as_integer(v) {
            Some(n) => n,
            None => 0,
        },
        None => 0,
    }
}

/// The three counters of a usage object.
pub open spec fn usage_counters(usage: Json) -> UsageTotals {
    UsageTotals {
        input: counter(or(field(usage, "input_tokens"@), field(usage, "inputTokens"@))),
        cached: counter(
            or(
                field(usage, "cached_input_tokens"@),
                or(
                    field(usage, "cache_read_input_tokens"@),
                    or(field(usage, "cachedInputTokens"@), field(usage, "cacheReadInputTokens"@)),
                ),
            ),
        ),
        output: counter(or(field(usage, "output_tokens"@), field(usage, "outputTokens"@))),
    }
}

/// The usage object of a token count, and whether it counts since the start of the session.
pub open spec fn reported_usage(line: Json) -> Option<(UsageTotals, bool)> {
    let info = opt_object(sub_field(payload_of(line), "info"@));
    let total = or(
        opt_object(sub_field(info, "total_token_usage"@)),
        opt_object(sub_field(info, "totalTokenUsage"@)),
    );
    let last = or(
        opt_object(sub_field(info, "last_token_usage"@)),
        opt_object(sub_field(info, "lastTokenUsage"@)),
    );
    match total {
        Some(u) => Some((usage_counters(u), true)),
        None => match last {
            Some(u) => Some((usage_counters(u), false)),
            None => None,
        },
    }
}

/// The larger of a counter and zero.
pub open spec fn floor0(v: i64) -> i64 {
    if v < 0 {
        0
    } else {
        v
    }
}

/// What a report adds: the growth since the report before, or the report itself where it counts
/// one turn.
pub open spec fn usage_delta(prev: UsageTotals, u: UsageTotals, cumulative: bool) -> UsageTotals {
    if cumulative {
        UsageTotals {
            input: floor0(u.input.wrapping_sub(prev.input)),
            cached: floor0(u.cached.wrapping_sub(prev.cached)),
            output: floor0(u.output.wrapping_sub(prev.output)),
        }
    } else {
        u
    }
}

/// The counters since the start of the session after a report.
pub open spec fn usage_after(prev: UsageTotals, u: UsageTotals, cumulative: bool) -> UsageTotals {
    if cumulative {
        u
    } else {
        UsageTotals {
            input: prev.input.wrapping_add(u.input),
            cached: prev.cached.wrapping_add(u.cached),
            output: prev.output.wrapping_add(u.output),
        }
    }
}

/// The model that a token count names.
pub open spec fn token_model(line: Json) -> Option<Seq<char>> {
    let payload = payload_of(line);
    let info = opt_object(sub_field(payload, "info"@));
    if payload is None {
        None
    } else {
        or(
            opt_text(or(sub_field(info, "model"@), sub_field(info, "model_name"@))),
            or(opt_text(sub_field(payload, "model"@)), text_field(line, "model"@)),
        )
    }
}

/// The model that a turn runs with.
pub open spec fn turn_model(line: Json) -> Option<Seq<char>> {
    let payload = payload_of(line);
    or(
        opt_text(sub_field(payload, "model"@)),
        opt_text(sub_field(opt_object(sub_field(payload, "info"@)), "model"@)),
    )
}

/// Tokens of a model, which is counted as `other` where it is new and the map is full.
pub open spec fn add_tokens(m: Map<Seq<char>, i64>, model: Seq<char>, tokens: i64) -> Map<
    Seq<char>,
    i64,
> {
    if tokens <= 0 {
        m
    } else {
        let key = if m.dom().len() < MAX_DISTINCT_MODELS || m.dom().contains(model) {
            model
        } else {
            "other"@
        };
        m.insert(
            key,
            if m.dom().contains(key) {
                m[key].wrapping_add(tokens)
            } else {
                tokens
            },
        )
    }
}

/// The models of a day; none where the day has none.
pub open spec fn models_on(
    models: Map<Seq<char>, Map<Seq<char>, i64>>,
    day: Seq<char>,
) -> Map<Seq<char>, i64> {
    if models.dom().contains(day) {
        models[day]
    } else {
        Map::empty()
    }
}

/// Adds what a token count reports to the day and its model.
pub open spec fn add_usage(
    s: ScanModel,
    delta: UsageTotals,
    model: Seq<char>,
    day: Option<Seq<char>>,
) -> ScanModel {
    match day {
        None => s,
        Some(d) => {
            let t = on_day(s.daily, d);
            let cached = if delta.cached <= delta.input {
                delta.cached
            } else {
                delta.input
            };
            ScanModel {
                daily: s.daily.insert(
                    d,
                    DailyTotals {
                        input: t.input.wrapping_add(delta.input),
                        cached: t.cached.wrapping_add(cached),
                        output: t.output.wrapping_add(delta.output),
                        ..t
                    },
                ),
                models: s.models.insert(
                    d,
                    add_tokens(
                        models_on(s.models, d),
                        model,
                        delta.input.wrapping_add(delta.output),
                    ),
                ),
                ..s
            }
        },
    }
}

/// A token count. Within a replay it moves the counters and counts for nothing else.
pub open spec fn token_step(
    s: ScanModel,
    line: Json,
    skip: bool,
    ms: Option<i64>,
    day: Option<Seq<char>>,
) -> ScanModel {
    match reported_usage(line) {
        None => s,
        Some((u, cumulative)) => {
            let prev = match s.previous {
                Some(p) => p,
                None => no_totals(),
            };
            let delta = usage_delta(prev, u, cumulative);
            let s1 = ScanModel { previous: Some(usage_after(prev, u, cumulative)), ..s };
            if skip {
                ScanModel { replay: replay_token(s1.replay), ..s1 }
            } else if delta.input == 0 && delta.cached == 0 && delta.output == 0 {
                s1
            } else {
                match ms {
                    None => s1,
                    Some(t) => {
                        let model = match or(s.model, token_model(line)) {
                            Some(m) => m,
                            None => "unknown"@,
                        };
                        track(add_usage(s1, delta, model, day), t, day)
                    },
                }
            }
        },
    }
}

/// An event of a session.
pub open spec fn event_step(
    s: ScanModel,
    line: Json,
    skip: bool,
    ms: Option<i64>,
    day: Option<Seq<char>>,
) -> ScanModel {
    let kind = payload_type(line);
    if kind == Some("token_count"@) {
        token_step(s, line, skip, ms, day)
    } else if skip {
        s
    } else {
        match ms {
            None => s,
            Some(t) => if kind == Some("agent_message"@) {
                track(count_run(s, t, day), t, day)
            } else if kind == Some("agent_reasoning"@) {
                track(s, t, day)
            } else {
                s
            },
        }
    }
}

/// An item of the conversation: what the assistant says is a run, what is no message is activity.
pub open spec fn item_step(
    s: ScanModel,
    line: Json,
    ms: Option<i64>,
    day: Option<Seq<char>>,
) -> ScanModel {
    let role = opt_text(sub_field(payload_of(line), "role"@));
    match ms {
        None => s,
        Some(t) => if role == Some("assistant"@) {
            track(count_run(s, t, day), t, day)
        } else if payload_type(line) != Some("message"@) {
            track(s, t, day)
        } else {
            s
        },
    }
}

/// One line of a session log; `day` is the calendar day of its point in time.
pub open spec fn line_step(s: ScanModel, line: Json, day: Option<Seq<char>>) -> ScanModel {
    let kind = line_type(line);
    let s1 = start_replay(note_owner(s, line), line);
    let ms = line_ms(line);
    let (skip, replay) = replay_step(s1.replay, ms);
    let s2 = ScanModel { replay, ..s1 };
    if kind == "turn_context"@ {
        if !skip && turn_model(line) is Some {
            ScanModel { model: turn_model(line), ..s2 }
        } else {
            s2
        }
    } else if kind == "session_meta"@ {
        s2
    } else if kind == "event_msg"@ || kind.len() == 0 {
        event_step(s2, line, skip, ms, day)
    } else if !skip && kind == "response_item"@ {
        item_step(s2, line, ms, day)
    } else {
        s2
    }
}

/// One line of text: lines that are too long or no JSON count for nothing.
pub open spec fn text_step(
    s: ScanModel,
    text: Seq<char>,
    max_bytes: nat,
    day: Option<Seq<char>>,
) -> ScanModel {
    if byte_len(text) > max_bytes {
        s
    } else {
        match parsed_json(text) {
            None => s,
            Some(line) => line_step(s, line, day),
        }
    }
}

/// The calendar day of a point in time: a line without one, or with one outside the calendar, has no
/// day, and every other line has the day that some time zone gives it.
pub open spec fn day_of_ms(ms: Option<i64>, day: Option<Seq<char>>) -> bool {
    match ms {
        Some(t) => {
            &&& day is Some <==> in_calendar(t as int)
            &&& in_every_zone(t as int) ==> is_day_of(t as int, day->0)
        },
        None => day is None,
    }
}

/// The calendar day of a line of text.
pub open spec fn day_fits(text: Seq<char>, day: Option<Seq<char>>) -> bool {
    match parsed_json(text) {
        Some(line) => day_of_ms(line_ms(line), day),
        None => day is None,
    }
}

fn line_kind(line: &Json) -> (r: &str)
    ensures
        r@ == line_type(*line),
{
    match line.get_str("type") {
        Some(t) => t,
        None => {
            proof {
                reveal_strlit("");
            }
            assert(""@ =~= Seq::<char>::empty());
            ""
        },
    }
}

fn payload(line: &Json) -> (r: Option<&Json>)
    ensures
        deref(r) == payload_of(*line),
{
    line.get_object("payload")
}

fn sub_get<'a>(j: Option<&'a Json>, key: &str) -> (r: Option<&'a Json>)
    ensures
        deref(r) == sub_field(deref(j), key@),
{
    match j {
        Some(v) => v.get(key),
        None => None,
    }
}

fn sub_str<'a>(j: Option<&'a Json>, key: &str) -> (r: Option<&'a str>)
    ensures
        opt_str(r) == opt_text(sub_field(deref(j), key@)),
{
    match j {
        Some(v) => v.get_str(key),
        None => None,
    }
}

fn sub_object<'a>(j: Option<&'a Json>, key: &str) -> (r: Option<&'a Json>)
    ensures
        deref(r) == opt_object(sub_field(deref(j), key@)),
{
    match j {
        Some(v) => v.get_object(key),
        None => None,
    }
}

fn or_ref<'a>(a: Option<&'a Json>, b: Option<&'a Json>) -> (r: Option<&'a Json>)
    ensures
        deref(r) == or(deref(a), deref(b)),
{
    match a {
        Some(_) => a,
        None => b,
    }
}

fn or_str<'a>(a: Option<&'a str>, b: Option<&'a str>) -> (r: Option<&'a str>)
    ensures
        opt_str(r) == or(opt_str(a), opt_str(b)),
{
    match a {
        Some(_) => a,
        None => b,
    }
}

fn is_text(o: Option<&str>, text: &str) -> (r: bool)
    ensures
        r == (opt_str(o) == Some(text@)),
{
    match o {
        Some(s) => same(s, text),
        None => false,
    }
}

/// The first `session_meta` of a forked session starts the replay of its parent's history.
pub fn maybe_start_fork_replay(line: &Json, parser: &mut ParserState)
    ensures
        final(parser).first_session_meta_seen,
        final(parser).fork_replay == (if old(parser).first_session_meta_seen || opt_text(
            sub_field(payload_of(*line), "forked_from_id"@),
        ) is None {
            old(parser).fork_replay
        } else {
            let stamp = match sub_field(payload_of(*line), "timestamp"@) {
                Some(v) => timestamp_ms(v),
                None => None,
            };
            let start = or(stamp, line_ms(*line));
            ForkReplayState {
                active: true,
                done: false,
                start_ms: start,
                last_event_ms: start,
                token_events: 0,
            }
        }),
        final(parser).previous_totals == old(parser).previous_totals,
        final(parser).current_model == old(parser).current_model,
        final(parser).last_activity_ms == old(parser).last_activity_ms,
        final(parser).owner_from_meta == old(parser).owner_from_meta,
{
    if parser.first_session_meta_seen {
        return;
    }
    parser.first_session_meta_seen = true;
    let p = payload(line);
    if sub_str(p, "forked_from_id").is_none() {
        return;
    }
    let stamp = match sub_get(p, "timestamp") {
        Some(v) => parse_timestamp_value_ms(v),
        None => None,
    };
    let start = match stamp {
        Some(_) => stamp,
        None => read_timestamp_ms(line),
    };
    parser.fork_replay = ForkReplayState {
        active: true,
        done: false,
        start_ms: start,
        last_event_ms: start,
        token_events: 0,
    };
}

/// Whether an event belongs to the replay.
pub fn fork_replay_should_skip_event(
    replay: &mut ForkReplayState,
    event_timestamp_ms: Option<i64>,
) -> (skip: bool)
    ensures
        (skip, *final(replay)) == replay_step(*old(replay), event_timestamp_ms),
{
    if !replay.active || replay.done {
        return false;
    }
    let ms: i64 = match event_timestamp_ms {
        Some(t) => t,
        None => {
            return true;
        },
    };
    let start: i64 = match replay.start_ms {
        Some(v) => v,
        None => ms,
    };
    let elapsed: i64 = ms.wrapping_sub(start);
    let gap: i64 = match replay.last_event_ms {
        Some(last) => ms.wrapping_sub(last),
        None => 0,
    };
    let ends = gap >= FORK_REPLAY_END_GAP_MS || (replay.token_events == 0 && elapsed
        >= FORK_REPLAY_NO_TOKEN_GRACE_MS);
    if ends {
        replay.active = false;
        replay.done = true;
        replay.last_event_ms = Some(ms);
        return false;
    }
    replay.last_event_ms = Some(ms);
    true
}

/// Counts a token report within the replay.
pub fn note_fork_replay_token(replay: &mut ForkReplayState)
    ensures
        *final(replay) == replay_token(*old(replay)),
{
    if replay.active && !replay.done {
        replay.token_events = replay.token_events.saturating_add(1);
    }
}

fn totals_on(daily: &StrMap<DailyTotals>, day: &str) -> (r: DailyTotals)
    requires
        daily.wf(),
    ensures
        r == on_day(daily@, day@),
{
    match daily.get(day) {
        Some(t) => *t,
        None => DailyTotals { input: 0, cached: 0, output: 0, agent_ms: 0, agent_runs: 0 },
    }
}

/// Adds tokens of a model; a new model counts as `other` where the map is full.
pub fn add_model_tokens_limited(
    model_totals: &mut StrMap<i64>,
    model: &str,
    delta_tokens: i64,
)
    requires
        old(model_totals).wf(),
    ensures
        final(model_totals).wf(),
        final(model_totals)@ == add_tokens(old(model_totals)@, model@, delta_tokens),
{
    if delta_tokens <= 0 {
        return;
    }
    let known = model_totals.find(model).is_some();
    let key: &str = if model_totals.len() < MAX_DISTINCT_MODELS || known {
        model
    } else {
        "other"
    };
    let value: i64 = match model_totals.get(key) {
        Some(v) => v.wrapping_add(delta_tokens),
        None => delta_tokens,
    };
    model_totals.set(key, value);
}

fn usage_of(usage: &Json) -> (r: UsageTotals)
    ensures
        r == usage_counters(*usage),
{
    UsageTotals {
        input: counter_of(or_ref(usage.get("input_tokens"), usage.get("inputTokens"))),
        cached: counter_of(
            or_ref(
                usage.get("cached_input_tokens"),
                or_ref(
                    usage.get("cache_read_input_tokens"),
                    or_ref(usage.get("cachedInputTokens"), usage.get("cacheReadInputTokens")),
                ),
            ),
        ),
        output: counter_of(or_ref(usage.get("output_tokens"), usage.get("outputTokens"))),
    }
}

fn counter_of(value: Option<&Json>) -> (r: i64)
    ensures
        r == counter(deref(value)),
{
    match value {
        Some(v) => match integer_of(v) {
            Some(n) => n,
            None => 0,
        },
        None => 0,
    }
}

/// The usage that a token count reports.
pub fn reported(line: &Json) -> (r: Option<(UsageTotals, bool)>)
    ensures
        r == reported_usage(*line),
{
    let info = sub_object(payload(line), "info");
    let total = or_ref(
        sub_object(info, "total_token_usage"),
        sub_object(info, "totalTokenUsage"),
    );
    if let Some(u) = total {
        return Some((usage_of(u), true));
    }
    let last = or_ref(sub_object(info, "last_token_usage"), sub_object(info, "lastTokenUsage"));
    match last {
        Some(u) => Some((usage_of(u), false)),
        None => None,
    }
}

fn model_of_token_count(line: &Json) -> (r: Option<&str>)
    ensures
        opt_str(r) == token_model(*line),
{
    let p = payload(line);
    if p.is_none() {
        return None;
    }
    let info = sub_object(p, "info");
    let named = or_ref(sub_get(info, "model"), sub_get(info, "model_name"));
    let from_info = match named {
        Some(v) => v.as_str(),
        None => None,
    };
    or_str(from_info, or_str(sub_str(p, "model"), line.get_str("model")))
}

fn model_of_turn(line: &Json) -> (r: Option<&str>)
    ensures
        opt_str(r) == turn_model(*line),
{
    let p = payload(line);
    or_str(sub_str(p, "model"), sub_str(sub_object(p, "info"), "model"))
}

fn positive(v: i64) -> (r: i64)
    ensures
        r == floor0(v),
{
    if v < 0 {
        0
    } else {
        v
    }
}

impl FileScan {
    /// A scan that starts at the beginning of a log.
    pub fn start() -> (r: Self)
        ensures
            r.wf(),
            r.model() == fresh_scan(),
    {
        let r = FileScan {
            session_cwd: None,
            parser_state: ParserState {
                previous_totals: None,
                current_model: None,
                last_activity_ms: None,
                first_session_meta_seen: false,
                owner_from_meta: false,
                fork_replay: ForkReplayState {
                    active: false,
                    done: false,
                    start_ms: None,
                    last_event_ms: None,
                    token_events: 0,
                },
            },
            daily: StrMap::new(),
            model_totals_by_day: StrMap::new(),
            seen_runs: HashSet::new(),
        };
        assert(r.model() =~= fresh_scan());
        r
    }

    fn track_activity(&mut self, ms: i64, day: Option<&str>)
        requires
            old(self).wf(),
        ensures
            final(self).wf(),
            final(self).model() == track(old(self).model(), ms, opt_str(day)),
    {
        let ghost before = self.model();
        if let Some(prev) = self.parser_state.last_activity_ms {
            let delta: i64 = ms.wrapping_sub(prev);
            if delta > 0 && delta <= MAX_ACTIVITY_GAP_MS {
                if let Some(d) = day {
                    let mut t = totals_on(&self.daily, d);
                    t.agent_ms = t.agent_ms.wrapping_add(delta);
                    self.daily.set(d, t);
                }
            }
        }
        self.parser_state.last_activity_ms = Some(ms);
        assert(self.model() =~= track(before, ms, opt_str(day)));
    }

    fn note_run(&mut self, ms: i64, day: Option<&str>)
        requires
            old(self).wf(),
        ensures
            final(self).wf(),
            final(self).model() == count_run(old(self).model(), ms, opt_str(day)),
    {
        let ghost before = self.model();
        let fresh = self.seen_runs.insert(ms);
        if fresh {
            if let Some(d) = day {
                let mut t = totals_on(&self.daily, d);
                t.agent_runs = t.agent_runs.wrapping_add(1);
                self.daily.set(d, t);
            }
        }
        assert(self.model() =~= count_run(before, ms, opt_str(day)));
    }

    fn note_usage(&mut self, delta: UsageTotals, model: &str, day: Option<&str>)
        requires
            old(self).wf(),
        ensures
            final(self).wf(),
            final(self).model() == add_usage(old(self).model(), delta, model@, opt_str(day)),
    {
        let ghost before = self.model();
        let ghost mv = self.model_totals_by_day@;
        if let Some(d) = day {
            let mut t = totals_on(&self.daily, d);
            let cached: i64 = if delta.cached <= delta.input {
                delta.cached
            } else {
                delta.input
            };
            t.input = t.input.wrapping_add(delta.input);
            t.cached = t.cached.wrapping_add(cached);
            t.output = t.output.wrapping_add(delta.output);
            self.daily.set(d, t);
            let mut models = match self.model_totals_by_day.take(d) {
                Some(m) => m,
                None => StrMap::new(),
            };
            let ghost day_before = models@;
            add_model_tokens_limited(
                &mut models,
                model,
                delta.input.wrapping_add(delta.output),
            );
            self.model_totals_by_day.add_new(d.to_owned(), models);
            proof {
                assert(day_before =~= models_on(before.models, d@));
                assert(self.model_totals_by_day@ =~= mv.insert(d@, models));
                assert(models_view(self.model_totals_by_day) =~= before.models.insert(d@, models@));
            }
        }
        assert(self.model() =~= add_usage(before, delta, model@, opt_str(day)));
    }

    fn token_count(&mut self, line: &Json, skip: bool, ms: Option<i64>, day: Option<&str>)
        requires
            old(self).wf(),
        ensures
            final(self).wf(),
            final(self).model() == token_step(old(self).model(), *line, skip, ms, opt_str(day)),
    {
        let ghost before = self.model();
        let (u, cumulative) = match reported(line) {
            Some(v) => v,
            None => {
                return;
            },
        };
        let prev = match self.parser_state.previous_totals {
            Some(p) => p,
            None => UsageTotals { input: 0, cached: 0, output: 0 },
        };
        let delta = if cumulative {
            UsageTotals {
                input: positive(u.input.wrapping_sub(prev.input)),
                cached: positive(u.cached.wrapping_sub(prev.cached)),
                output: positive(u.output.wrapping_sub(prev.output)),
            }
        } else {
            u
        };
        let after = if cumulative {
            u
        } else {
            UsageTotals {
                input: prev.input.wrapping_add(u.input),
                cached: prev.cached.wrapping_add(u.cached),
                output: prev.output.wrapping_add(u.output),
            }
        };
        self.parser_state.previous_totals = Some(after);
        if skip {
            note_fork_replay_token(&mut self.parser_state.fork_replay);
            assert(self.model() =~= token_step(before, *line, skip, ms, opt_str(day)));
            return;
        }
        if delta.input == 0 && delta.cached == 0 && delta.output == 0 {
            assert(self.model() =~= token_step(before, *line, skip, ms, opt_str(day)));
            return;
        }
        if let Some(t) = ms {
            let model: String = match &self.parser_state.current_model {
                Some(m) => m.clone(),
                None => match model_of_token_count(line) {
                    Some(m) => m.to_owned(),
                    None => "unknown".to_owned(),
                },
            };
            self.note_usage(delta, model.as_str(), day);
            self.track_activity(t, day);
        }
        assert(self.model() =~= token_step(before, *line, skip, ms, opt_str(day)));
    }

    fn event(&mut self, line: &Json, skip: bool, ms: Option<i64>, day: Option<&str>)
        requires
            old(self).wf(),
        ensures
            final(self).wf(),
            final(self).model() == event_step(old(self).model(), *line, skip, ms, opt_str(day)),
    {
        proof {
            reveal_strlit("token_count");
            reveal_strlit("agent_message");
            reveal_strlit("agent_reasoning");
        }
        let kind = sub_str(payload(line), "type");
        if is_text(kind, "token_count") {
            self.token_count(line, skip, ms, day);
            return;
        }
        if skip {
            return;
        }
        if let Some(t) = ms {
            if is_text(kind, "agent_message") {
                self.note_run(t, day);
                self.track_activity(t, day);
            } else if is_text(kind, "agent_reasoning") {
                self.track_activity(t, day);
            }
        }
    }

    fn conversation_item(&mut self, line: &Json, ms: Option<i64>, day: Option<&str>)
        requires
            old(self).wf(),
        ensures
            final(self).wf(),
            final(self).model() == item_step(old(self).model(), *line, ms, opt_str(day)),
    {
        let p = payload(line);
        let kind = sub_str(p, "type");
        let role = sub_str(p, "role");
        if let Some(t) = ms {
            if is_text(role, "assistant") {
                self.note_run(t, day);
                self.track_activity(t, day);
            } else if !is_text(kind, "message") {
                self.track_activity(t, day);
            }
        }
    }

    /// Counts one line of a session log; `day` is the calendar day of the line's point in time.
    pub fn scan_line(&mut self, line: &Json, day: Option<&str>)
        requires
            old(self).wf(),
        ensures
            final(self).wf(),
            final(self).model() == line_step(old(self).model(), *line, opt_str(day)),
    {
        proof {
            reveal_strlit("session_meta");
            reveal_strlit("turn_context");
        }
        let ghost before = self.model();
        let kind = line_kind(line);
        let is_meta = same(kind, "session_meta");
        let is_turn = same(kind, "turn_context");
        if is_meta || is_turn {
            let cwd = sub_str(line.get("payload"), "cwd");
            if is_meta && !self.parser_state.owner_from_meta && cwd.is_some() {
                self.session_cwd = own_opt(cwd);
                self.parser_state.owner_from_meta = true;
            } else if is_turn && self.session_cwd.is_none() {
                self.session_cwd = own_opt(cwd);
            }
        }
        assert(self.model() =~= note_owner(before, *line));
        if is_meta {
            maybe_start_fork_replay(line, &mut self.parser_state);
        }
        assert(self.model() =~= start_replay(note_owner(before, *line), *line));
        let ms = read_timestamp_ms(line);
        let skip = fork_replay_should_skip_event(&mut self.parser_state.fork_replay, ms);
        if is_turn {
            if !skip {
                if let Some(m) = model_of_turn(line) {
                    self.parser_state.current_model = Some(m.to_owned());
                }
            }
            assert(self.model() =~= line_step(before, *line, opt_str(day)));
            return;
        }
        if is_meta {
            assert(self.model() =~= line_step(before, *line, opt_str(day)));
            return;
        }
        if same(kind, "event_msg") || kind.is_empty() {
            self.event(line, skip, ms, day);
            return;
        }
        if !skip && same(kind, "response_item") {
            self.conversation_item(line, ms, day);
        }
    }

    /// Counts one line of text as [`text_step`] says, on the calendar day that its point in time has
    /// in the machine's time zone. Which zone that is, is left open.
    pub fn scan_text(&mut self, text: &str, max_jsonl_line_bytes: usize)
        requires
            old(self).wf(),
        ensures
            final(self).wf(),
            exists|day: Option<Seq<char>>|
                (byte_len(text@) <= max_jsonl_line_bytes ==> day_fits(text@, day))
                    && #[trigger] text_step(
                    old(self).model(),
                    text@,
                    max_jsonl_line_bytes as nat,
                    day,
                ) == final(self).model(),
    {
        let ghost before = self.model();
        let ghost mut used: Option<Seq<char>> = None;
        if str_fits(text, max_jsonl_line_bytes) {
            if let Some(line) = parse_json(text) {
                let day: Option<String> = match read_timestamp_ms(&line) {
                    Some(ms) => local_day(ms),
                    None => None,
                };
                let d: Option<&str> = match &day {
                    Some(s) => Some(s.as_str()),
                    None => None,
                };
                self.scan_line(&line, d);
                proof {
                    used = opt_str(d);
                }
            }
        }
        assert(text_step(before, text@, max_jsonl_line_bytes as nat, used) == self.model());
    }
}

/// A scan before the first line.
pub open spec fn fresh_scan() -> ScanModel {
    ScanModel {
        cwd: None,
        from_meta: false,
        previous: None,
        model: None,
        last_ms: None,
        meta_seen: false,
        replay: no_replay(),
        daily: Map::empty(),
        models: Map::empty(),
        runs: Set::empty(),
    }
}

/// Lines of a session log with their calendar days, counted one after the other.
pub open spec fn scan_lines(s: ScanModel, lines: Seq<(Json, Option<Seq<char>>)>) -> ScanModel
    decreases lines.len(),
{
    if lines.len() == 0 {
        s
    } else {
        let before = scan_lines(s, lines.drop_last());
        line_step(before, lines.last().0, lines.last().1)
    }
}

/// Counting a log in two parts is counting it in one go.
pub proof fn scan_lines_splits(
    s: ScanModel,
    a: Seq<(Json, Option<Seq<char>>)>,
    b: Seq<(Json, Option<Seq<char>>)>,
)
    ensures
        scan_lines(s, a + b) == scan_lines(scan_lines(s, a), b),
    decreases b.len(),
{
    if b.len() == 0 {
        assert(a + b =~= a);
    } else {
        scan_lines_splits(s, a, b.drop_last());
        assert((a + b).drop_last() =~= a + b.drop_last());
        assert((a + b).last() == b.last());
    }
}

/// Two scans agree on everything but the runs that they have seen.
pub open spec fn same_but_runs(a: ScanModel, b: ScanModel) -> bool {
    ScanModel { runs: Set::empty(), ..a } == ScanModel { runs: Set::empty(), ..b }
}

/// A scan that has forgotten the runs that it saw, as a cached one has.
pub open spec fn forget_runs(s: ScanModel) -> ScanModel {
    ScanModel { runs: Set::empty(), ..s }
}

/// `full` is `part` with the runs of `old_runs` seen as well.
pub open spec fn has_seen(full: ScanModel, part: ScanModel, old_runs: Set<i64>) -> bool {
    full == (ScanModel { runs: old_runs.union(part.runs), ..part })
}

proof fn track_ignores_runs(
    full: ScanModel,
    part: ScanModel,
    old_runs: Set<i64>,
    ms: i64,
    day: Option<Seq<char>>,
)
    requires
        has_seen(full, part, old_runs),
    ensures
        has_seen(track(full, ms, day), track(part, ms, day), old_runs),
{
}

proof fn count_run_ignores_old_runs(
    full: ScanModel,
    part: ScanModel,
    old_runs: Set<i64>,
    ms: i64,
    day: Option<Seq<char>>,
)
    requires
        has_seen(full, part, old_runs),
        !old_runs.contains(ms),
    ensures
        has_seen(count_run(full, ms, day), count_run(part, ms, day), old_runs),
{
    assert(old_runs.union(part.runs).insert(ms) =~= old_runs.union(part.runs.insert(ms)));
}

proof fn token_ignores_runs(
    full: ScanModel,
    part: ScanModel,
    old_runs: Set<i64>,
    line: Json,
    skip: bool,
    ms: Option<i64>,
    day: Option<Seq<char>>,
)
    requires
        has_seen(full, part, old_runs),
    ensures
        has_seen(
            token_step(full, line, skip, ms, day),
            token_step(part, line, skip, ms, day),
            old_runs,
        ),
{
}

proof fn event_ignores_old_runs(
    full: ScanModel,
    part: ScanModel,
    old_runs: Set<i64>,
    line: Json,
    skip: bool,
    ms: Option<i64>,
    day: Option<Seq<char>>,
)
    requires
        has_seen(full, part, old_runs),
        ms is Some ==> !old_runs.contains(ms->0),
    ensures
        has_seen(
            event_step(full, line, skip, ms, day),
            event_step(part, line, skip, ms, day),
            old_runs,
        ),
        has_seen(item_step(full, line, ms, day), item_step(part, line, ms, day), old_runs),
{
    token_ignores_runs(full, part, old_runs, line, skip, ms, day);
    if ms is Some {
        let t = ms->0;
        track_ignores_runs(full, part, old_runs, t, day);
        count_run_ignores_old_runs(full, part, old_runs, t, day);
        track_ignores_runs(count_run(full, t, day), count_run(part, t, day), old_runs, t, day);
    }
}

proof fn start_ignores_runs(full: ScanModel, part: ScanModel, old_runs: Set<i64>, line: Json)
    requires
        has_seen(full, part, old_runs),
    ensures
        has_seen(
            start_replay(note_owner(full, line), line),
            start_replay(note_owner(part, line), line),
            old_runs,
        ),
{
    assert(has_seen(note_owner(full, line), note_owner(part, line), old_runs));
}

#[verifier::spinoff_prover]
#[verifier::rlimit(60)]
proof fn step_ignores_old_runs(
    full: ScanModel,
    part: ScanModel,
    old_runs: Set<i64>,
    line: Json,
    day: Option<Seq<char>>,
)
    requires
        has_seen(full, part, old_runs),
        line_ms(line) is Some ==> !old_runs.contains(line_ms(line)->0),
    ensures
        has_seen(line_step(full, line, day), line_step(part, line, day), old_runs),
{
    let ms = line_ms(line);
    let f1 = start_replay(note_owner(full, line), line);
    let p1 = start_replay(note_owner(part, line), line);
    start_ignores_runs(full, part, old_runs, line);
    let (skip, replay) = replay_step(p1.replay, ms);
    let f2 = ScanModel { replay, ..f1 };
    let p2 = ScanModel { replay, ..p1 };
    assert(has_seen(f2, p2, old_runs));
    event_ignores_old_runs(f2, p2, old_runs, line, skip, ms, day);
    let kind = line_type(line);
    if kind == "turn_context"@ || kind == "session_meta"@ {
    } else if kind == "event_msg"@ || kind.len() == 0 {
        assert(line_step(full, line, day) == event_step(f2, line, skip, ms, day));
        assert(line_step(part, line, day) == event_step(p2, line, skip, ms, day));
    } else if !skip && kind == "response_item"@ {
        assert(line_step(full, line, day) == item_step(f2, line, ms, day));
        assert(line_step(part, line, day) == item_step(p2, line, ms, day));
    }
}

/// A scan that goes on behind its cached part finds what a scan of the whole log finds, provided
/// that no line of the new part is of a point in time at which the old part already counted a run.
pub proof fn resumed_scan_equals_full_scan(
    old_part: Seq<(Json, Option<Seq<char>>)>,
    new_part: Seq<(Json, Option<Seq<char>>)>,
)
    requires
        forall|i: int|
            0 <= i < new_part.len() && line_ms((#[trigger] new_part[i]).0) is Some
                ==> !scan_lines(fresh_scan(), old_part).runs.contains(line_ms(new_part[i].0)->0),
    ensures
        same_but_runs(
            scan_lines(forget_runs(scan_lines(fresh_scan(), old_part)), new_part),
            scan_lines(fresh_scan(), old_part + new_part),
        ),
{
    let mid = scan_lines(fresh_scan(), old_part);
    scan_lines_splits(fresh_scan(), old_part, new_part);
    assert(mid.runs =~= mid.runs.union(forget_runs(mid).runs));
    assert(has_seen(mid, forget_runs(mid), mid.runs));
    resumed_scan_from(mid, forget_runs(mid), mid.runs, new_part);
}

proof fn resumed_scan_from(
    full: ScanModel,
    part: ScanModel,
    old_runs: Set<i64>,
    lines: Seq<(Json, Option<Seq<char>>)>,
)
    requires
        has_seen(full, part, old_runs),
        forall|i: int|
            0 <= i < lines.len() && line_ms((#[trigger] lines[i]).0) is Some ==> !old_runs.contains(
                line_ms(lines[i].0)->0,
            ),
    ensures
        has_seen(scan_lines(full, lines), scan_lines(part, lines), old_runs),
    decreases lines.len(),
{
    if lines.len() > 0 {
        resumed_scan_from(full, part, old_runs, lines.drop_last());
        assert(lines.last() == lines[lines.len() - 1]);
        step_ignores_old_runs(
            scan_lines(full, lines.drop_last()),
            scan_lines(part, lines.drop_last()),
            old_runs,
            lines.last().0,
            lines.last().1,
        );
    }
}

/// What a line of the replayed history reports counts for no day and no model.
#[verifier::spinoff_prover]
#[verifier::rlimit(60)]
pub proof fn replayed_lines_count_for_nothing(s: ScanModel, line: Json, day: Option<Seq<char>>)
    requires
        replay_step(start_replay(note_owner(s, line), line).replay, line_ms(line)).0,
    ensures
        line_step(s, line, day).daily == s.daily,
        line_step(s, line, day).models == s.models,
        line_step(s, line, day).runs == s.runs,
        line_step(s, line, day).last_ms == s.last_ms,
{
}

/// A replay that has ended does not start again.
#[verifier::spinoff_prover]
#[verifier::rlimit(60)]
pub proof fn ended_replay_stays_ended(s: ScanModel, line: Json, day: Option<Seq<char>>)
    requires
        s.replay.done,
        s.meta_seen,
    ensures
        line_step(s, line, day).replay == s.replay,
        !replay_step(s.replay, line_ms(line)).0,
{
}

/// A session keeps the owner that its first `session_meta` with a working directory names.
#[verifier::spinoff_prover]
#[verifier::rlimit(60)]
pub proof fn owner_is_kept(s: ScanModel, line: Json, day: Option<Seq<char>>)
    requires
        s.from_meta,
        s.cwd is Some,
    ensures
        line_step(s, line, day).cwd == s.cwd,
        line_step(s, line, day).from_meta,
{
}

/// A line that is longer than a line may be, or that is no JSON, changes nothing.
pub proof fn unreadable_lines_count_for_nothing(
    s: ScanModel,
    text: Seq<char>,
    max_bytes: nat,
    day: Option<Seq<char>>,
)
    requires
        byte_len(text) > max_bytes || parsed_json(text) is None,
    ensures
        text_step(s, text, max_bytes, day) == s,
{
}

/// A map of models names no more models than it may, besides `other`.
pub open spec fn models_bounded(m: Map<Seq<char>, i64>) -> bool {
    m.dom().finite() && m.dom().remove("other"@).len() <= MAX_DISTINCT_MODELS
}

/// However many models a log names, their number stays bounded.
pub proof fn models_stay_bounded(m: Map<Seq<char>, i64>, model: Seq<char>, tokens: i64)
    requires
        models_bounded(m),
    ensures
        models_bounded(add_tokens(m, model, tokens)),
{
    if tokens > 0 {
        let key = if m.dom().len() < MAX_DISTINCT_MODELS || m.dom().contains(model) {
            model
        } else {
            "other"@
        };
        let after = add_tokens(m, model, tokens).dom();
        assert(after =~= m.dom().insert(key));
        if key == "other"@ {
            assert(after.remove("other"@) =~= m.dom().remove("other"@));
        } else {
            assert(after.remove("other"@) =~= m.dom().remove("other"@).insert(key));
            if m.dom().contains(model) {
                assert(m.dom().remove("other"@).insert(key) =~= m.dom().remove("other"@));
            }
        }
    }
}

} // verus!
