//! What the lines of a session log are read for: owners, models and counters under all their names.

use crate::clock::line_ms;
use crate::json::{field, text_field, Json};
use crate::usage::counting::{is_count, is_token_count, outside_replay, token_info};
use crate::usage::session::{
    add_tokens, line_step, models_on, reported_usage, usage_counters, ScanModel,
    MAX_DISTINCT_MODELS,
};
use vstd::prelude::*;

verus! {

/// A usage object has a counter under a name.
pub open spec fn counts(usage: Json, name: Seq<char>) -> bool {
    field(usage, name) is Some
}

/// A counter is read under each of its names, the earlier before the later; where it has none of
/// them it is zero. No counter is read under the name of another one.
pub proof fn counters_are_read_under_all_their_names(usage: Json, n: i64)
    requires
        usage is Object,
    ensures
        is_count(usage, "input_tokens"@, n as int) ==> usage_counters(usage).input == n,
        !counts(usage, "input_tokens"@) && is_count(usage, "inputTokens"@, n as int)
            ==> usage_counters(usage).input == n,
        !counts(usage, "input_tokens"@) && !counts(usage, "inputTokens"@) ==> usage_counters(
            usage,
        ).input == 0,
        is_count(usage, "output_tokens"@, n as int) ==> usage_counters(usage).output == n,
        !counts(usage, "output_tokens"@) && is_count(usage, "outputTokens"@, n as int)
            ==> usage_counters(usage).output == n,
        !counts(usage, "output_tokens"@) && !counts(usage, "outputTokens"@) ==> usage_counters(
            usage,
        ).output == 0,
        is_count(usage, "cached_input_tokens"@, n as int) ==> usage_counters(usage).cached == n,
        !counts(usage, "cached_input_tokens"@) && is_count(
            usage,
            "cache_read_input_tokens"@,
            n as int,
        ) ==> usage_counters(usage).cached == n,
        !counts(usage, "cached_input_tokens"@) && !counts(usage, "cache_read_input_tokens"@)
            && is_count(usage, "cachedInputTokens"@, n as int) ==> usage_counters(usage).cached
            == n,
        !counts(usage, "cached_input_tokens"@) && !counts(usage, "cache_read_input_tokens"@)
            && !counts(usage, "cachedInputTokens"@) && is_count(
            usage,
            "cacheReadInputTokens"@,
            n as int,
        ) ==> usage_counters(usage).cached == n,
        !counts(usage, "cached_input_tokens"@) && !counts(usage, "cache_read_input_tokens"@)
            && !counts(usage, "cachedInputTokens"@) && !counts(usage, "cacheReadInputTokens"@)
            ==> usage_counters(usage).cached == 0,
{
}

/// An object among the members of another one.
pub open spec fn has_object(j: Json, name: Seq<char>, object: Json) -> bool {
    field(j, name) == Some(object) && object is Object
}

/// A token count reports usage since the start of the session where it has it under either name,
/// and that of one turn only where it has it not; one without either reports nothing.
pub proof fn totals_are_reported_before_turns(line: Json, usage: Json)
    requires
        is_token_count(line),
        has_object(field(line, "payload"@)->0, "info"@, token_info(line)),
    ensures
        has_object(token_info(line), "total_token_usage"@, usage) ==> reported_usage(line) == Some(
            (usage_counters(usage), true),
        ),
        field(token_info(line), "total_token_usage"@) is None && has_object(
            token_info(line),
            "totalTokenUsage"@,
            usage,
        ) ==> reported_usage(line) == Some((usage_counters(usage), true)),
        field(token_info(line), "total_token_usage"@) is None && field(
            token_info(line),
            "totalTokenUsage"@,
        ) is None ==> {
            &&& has_object(token_info(line), "last_token_usage"@, usage) ==> reported_usage(line)
                == Some((usage_counters(usage), false))
            &&& field(token_info(line), "last_token_usage"@) is None && has_object(
                token_info(line),
                "lastTokenUsage"@,
                usage,
            ) ==> reported_usage(line) == Some((usage_counters(usage), false))
            &&& field(token_info(line), "last_token_usage"@) is None && field(
                token_info(line),
                "lastTokenUsage"@,
            ) is None ==> reported_usage(line) is None
        },
{
}

/// The names of kinds of lines differ.
proof fn kinds_differ()
    ensures
        "event_msg"@ != "turn_context"@,
        "event_msg"@ != "session_meta"@,
        "turn_context"@ != "session_meta"@,
        "turn_context"@.len() > 0,
        "session_meta"@.len() > 0,
{
    reveal_strlit("event_msg");
    reveal_strlit("turn_context");
    reveal_strlit("session_meta");
    assert("event_msg"@.len() == 9);
    assert("turn_context"@.len() == 12 && "session_meta"@.len() == 12);
    assert("turn_context"@[0] == 't' && "session_meta"@[0] == 's');
}

/// The model that a token count itself names: in its information, in its payload, or beside it.
pub open spec fn names_model(line: Json, model: Seq<char>) -> bool {
    let payload = field(line, "payload"@)->0;
    let info = token_info(line);
    let beside = field(info, "model"@) is None && field(info, "model_name"@) is None;
    ||| text_field(info, "model"@) == Some(model)
    ||| field(info, "model"@) is None && text_field(info, "model_name"@) == Some(model)
    ||| beside && text_field(payload, "model"@) == Some(model)
    ||| beside && text_field(payload, "model"@) is None && text_field(line, "model"@) == Some(model)
}

/// A token count names no model.
pub open spec fn names_no_model(line: Json) -> bool {
    &&& field(token_info(line), "model"@) is None
    &&& field(token_info(line), "model_name"@) is None
    &&& field(field(line, "payload"@)->0, "model"@) is None
    &&& field(line, "model"@) is None
}

/// A report of what one turn used, without more than this.
pub open spec fn reports_used(line: Json, input: i64, output: i64) -> bool {
    &&& is_token_count(line)
    &&& has_object(field(line, "payload"@)->0, "info"@, token_info(line))
    &&& reported_usage(line) is Some
    &&& !(reported_usage(line)->0).1
    &&& (reported_usage(line)->0).0.input == input
    &&& (reported_usage(line)->0).0.cached == 0
    &&& (reported_usage(line)->0).0.output == output
}

/// Tokens of a session whose turns name no model belong to the model that the token count names, and
/// to a model that is not known where it names none either.
#[verifier::spinoff_prover]
#[verifier::rlimit(60)]
pub proof fn token_counts_name_the_model_where_turns_do_not(
    s: ScanModel,
    line: Json,
    day: Seq<char>,
    at: i64,
    model: Seq<char>,
    input: i64,
    output: i64,
)
    requires
        reports_used(line, input, output),
        line_ms(line) == Some(at),
        outside_replay(s),
        s.model is None,
        0 <= input,
        0 <= output,
        0 < input + output <= i64::MAX,
        !models_on(s.models, day).dom().contains(model),
        models_on(s.models, day).dom().len() < MAX_DISTINCT_MODELS,
        names_model(line, model) || (names_no_model(line) && model == "unknown"@),
    ensures
        ({
            let after = models_on(line_step(s, line, Some(day)).models, day);
            &&& after.dom() == models_on(s.models, day).dom().insert(model)
            &&& after[model] == input + output
        }),
{
    kinds_differ();
}

/// A turn that does not name its model itself names it in its information.
pub proof fn turns_name_the_model_in_their_information(
    s: ScanModel,
    line: Json,
    day: Option<Seq<char>>,
    info: Json,
    model: Seq<char>,
)
    requires
        text_field(line, "type"@) == Some("turn_context"@),
        field(line, "payload"@) is Some,
        field(line, "payload"@)->0 is Object,
        field(field(line, "payload"@)->0, "model"@) is None,
        has_object(field(line, "payload"@)->0, "info"@, info),
        outside_replay(s),
    ensures
        text_field(info, "model"@) == Some(model) ==> line_step(s, line, day).model == Some(model),
        text_field(info, "model"@) is None ==> line_step(s, line, day).model == s.model,
{
    kinds_differ();
}

/// Where as many models are named as may be, a further model counts as another one; those that are
/// named count on.
pub proof fn further_models_count_together(
    m: Map<Seq<char>, i64>,
    model: Seq<char>,
    tokens: i64,
)
    requires
        m.dom().len() >= MAX_DISTINCT_MODELS,
        tokens > 0,
    ensures
        m.dom().contains(model) && m[model] + tokens <= i64::MAX ==> add_tokens(m, model, tokens)
            == m.insert(model, (m[model] + tokens) as i64),
        !m.dom().contains(model) && !m.dom().contains("other"@) ==> add_tokens(m, model, tokens)
            == m.insert("other"@, tokens),
        !m.dom().contains(model) && m.dom().contains("other"@) && m["other"@] + tokens <= i64::MAX
            && m["other"@] >= 0 ==> add_tokens(m, model, tokens) == m.insert(
            "other"@,
            (m["other"@] + tokens) as i64,
        ),
{
}

/// The description of a session names its owner, whatever a turn named before; of several, the first
/// one does. A turn names the owner only where nothing has.
#[verifier::spinoff_prover]
#[verifier::rlimit(60)]
pub proof fn descriptions_name_the_owner(
    s: ScanModel,
    line: Json,
    day: Option<Seq<char>>,
    dir: Seq<char>,
)
    requires
        field(line, "payload"@) is Some,
        text_field(field(line, "payload"@)->0, "cwd"@) == Some(dir),
    ensures
        ({
            let r = line_step(s, line, day);
            &&& text_field(line, "type"@) == Some("session_meta"@) && !s.from_meta ==> r.cwd
                == Some(dir) && r.from_meta
            &&& text_field(line, "type"@) == Some("session_meta"@) && s.from_meta ==> r.cwd == s.cwd
            &&& text_field(line, "type"@) == Some("turn_context"@) && s.cwd is None ==> r.cwd
                == Some(dir) && r.from_meta == s.from_meta
            &&& text_field(line, "type"@) == Some("turn_context"@) && s.cwd is Some ==> r.cwd
                == s.cwd
            &&& text_field(line, "type"@) != Some("session_meta"@) && text_field(line, "type"@)
                != Some("turn_context"@) ==> r.cwd == s.cwd && r.from_meta == s.from_meta
        }),
{
    kinds_differ();
}

/// A replay in which no tokens were counted ends two seconds after its start, even without a pause;
/// one in which tokens were counted goes on until there is one.
#[verifier::spinoff_prover]
#[verifier::rlimit(60)]
pub proof fn quiet_replays_end_by_themselves(
    s: ScanModel,
    line: Json,
    day: Option<Seq<char>>,
    start: i64,
    last: i64,
    at: i64,
)
    requires
        s.replay.active,
        !s.replay.done,
        s.replay.start_ms == Some(start),
        s.replay.last_event_ms == Some(last),
        0 <= start <= last <= at,
        at < last + 1_000,
        line_ms(line) == Some(at),
        text_field(line, "type"@) != Some("session_meta"@),
    ensures
        s.replay.token_events == 0 && at >= start + 2_000 ==> outside_replay(
            line_step(s, line, day),
        ),
        s.replay.token_events > 0 || at < start + 2_000 ==> !outside_replay(
            line_step(s, line, day),
        ),
{
    kinds_differ();
}

} // verus!
