//! What the cards of the usage screen and the lines of reset credits say.

use crate::app::worker::DataState;
use crate::calendar::Date;
use crate::clock::{same_day, Moment};
use crate::codex_rpc::account::RateLimitResetCredit;
use crate::locale::{localized, number_text, reset_date, tenths_text, time_text, DisplayFormatter};
use crate::text::{trimmed, views};
use crate::ui::cards::{
    are_cards, card_of, cards_of, filled_captions, leading_cards, metric_cards, no_limits,
    totals_model, usage_card_views, UsageCard,
};
use crate::ui::limit_laws::{closes_with, opens_with, shown_at};
use crate::ui::resets::{
    credit_metadata, details, earliest_is_first, moments_match,
    summary_text, CreditMoments, DetailKind,
};
use crate::ui::values::duration_words;
use crate::usage::format::{at_least_zero, long_duration, short_duration};
use crate::usage::labels::{overview_text, styled_day_label, tokens_text};
use crate::usage::snapshot::{LocalUsageSnapshot, UsageDay, UsageMetric};
use crate::usage::summary::{
    are_labels, are_totals, column_sum, last_of, DayColumn, UsageTotalsView,
};
use vstd::prelude::*;

verus! {

/// The title of a card.
pub open spec fn title_of(cards: Seq<UsageCard>, i: int) -> Seq<char> {
    cards[i].title@
}

/// The value that a card shows: its first line.
pub open spec fn value_of(cards: Seq<UsageCard>, i: int) -> Seq<char> {
    cards[i].card.lines@[0]@
}

/// A card shows a caption, where that is more than white space.
pub open spec fn captioned(cards: Seq<UsageCard>, i: int, caption: Seq<char>) -> bool {
    trimmed(caption).len() > 0 ==> views(cards[i].card.lines@).contains(caption)
}

proof fn lemma_caption_stays(captions: Seq<Seq<char>>, k: int)
    requires
        0 <= k < captions.len(),
        trimmed(captions[k]).len() > 0,
    ensures
        filled_captions(captions).contains(captions[k]),
    decreases captions.len(),
{
    let s = captions.drop_last();
    if k < s.len() {
        assert(s[k] == captions[k]);
        lemma_caption_stays(s, k);
        let i = choose|i: int|
            0 <= i < filled_captions(s).len() && filled_captions(s)[i] == captions[k];
        assert(filled_captions(captions)[i] == captions[k]);
    } else {
        let f = filled_captions(captions);
        assert(f[f.len() - 1] == captions[k]);
    }
}

proof fn lemma_card(value: Seq<char>, captions: Seq<Seq<char>>)
    ensures
        card_of(value, captions)[0] == value,
        forall|k: int|
            0 <= k < captions.len() && trimmed(#[trigger] captions[k]).len() > 0 ==> card_of(
                value,
                captions,
            ).contains(captions[k]),
{
    assert forall|k: int|
        0 <= k < captions.len() && trimmed(#[trigger] captions[k]).len() > 0 implies card_of(
        value,
        captions,
    ).contains(captions[k]) by {
        lemma_caption_stays(captions, k);
        let f = filled_captions(captions);
        let i = choose|i: int| 0 <= i < f.len() && f[i] == captions[k];
        assert(card_of(value, captions)[i + 1] == captions[k]);
    }
}

proof fn lemma_card_at(
    cards: Seq<UsageCard>,
    i: int,
    title: Seq<char>,
    value: Seq<char>,
    captions: Seq<Seq<char>>,
)
    requires
        0 <= i < cards.len(),
        usage_card_views(cards)[i] == (title, card_of(value, captions)),
    ensures
        title_of(cards, i) == title,
        value_of(cards, i) == value,
        forall|k: int|
            0 <= k < captions.len() ==> captioned(cards, i, #[trigger] captions[k]),
{
    lemma_card(value, captions);
    let lines = cards[i].card.lines@;
    assert(usage_card_views(cards)[i] == (title, views(lines)));
    assert(card_of(value, captions).len() >= 1);
    assert(views(lines).len() == lines.len());
    assert(views(lines)[0] == lines[0]@);
}

/// The card of today shows the last day of the snapshot: its tokens, its runs and its time.
pub proof fn today_is_the_last_day(
    cards: Seq<UsageCard>,
    f: DisplayFormatter,
    metric: UsageMetric,
    s: LocalUsageSnapshot,
    limits: Seq<Seq<char>>,
    without_days: Seq<char>,
    before: Seq<UsageDay>,
    today: UsageDay,
)
    requires
        are_cards(cards, f, metric, Some(s), limits, without_days),
        s.days@ == before.push(today),
        limits.len() > 0,
    ensures
        cards.len() == 6,
        title_of(cards, 1) == "TODAY"@,
        value_of(cards, 1) == overview_text(f, today.total_tokens as int) + " tokens"@,
        captioned(
            cards,
            1,
            "Runs "@ + number_text(f, at_least_zero(today.agent_runs as int)),
        ),
        captioned(cards, 1, "Time "@ + duration_words(today.agent_time_ms as int)),
        title_of(cards, 0) == "LIMITS"@,
        value_of(cards, 0) == limits[0],
        forall|k: int| 0 < k < limits.len() ==> captioned(cards, 0, #[trigger] limits[k]),
{
    let t = choose|t: Option<UsageTotalsView>|
        (t is Some <==> Some(s) is Some) && are_labels(t->0, s, metric, f) && usage_card_views(
            cards,
        ) == #[trigger] cards_of(f, metric, Some(s), totals_model(t), limits, without_days);
    let all = cards_of(f, metric, Some(s), totals_model(t), limits, without_days);
    assert(leading_cards(f, Some(s), limits).len() == 2);
    assert(metric_cards(f, metric, Some(s), totals_model(t), without_days).len() == 4);
    assert(usage_card_views(cards).len() == cards.len());
    assert(s.days@.last() == today);
    let captions = seq![
        "Runs "@ + number_text(f, at_least_zero(today.agent_runs as int)),
        "Time "@ + duration_words(today.agent_time_ms as int),
    ];
    lemma_card_at(
        cards,
        1,
        "TODAY"@,
        overview_text(f, today.total_tokens as int) + " tokens"@,
        captions,
    );
    assert(captioned(cards, 1, captions[0]));
    assert(captioned(cards, 1, captions[1]));
    lemma_card_at(cards, 0, "LIMITS"@, limits[0], limits.skip(1));
    assert forall|k: int| 0 < k < limits.len() implies captioned(cards, 0, #[trigger] limits[k]) by {
        assert(limits.skip(1)[k - 1] == limits[k]);
    }
}

/// What a metric has come to over days, in words.
pub open spec fn period_text(f: DisplayFormatter, metric: UsageMetric, days: Seq<UsageDay>) -> Seq<
    char,
> {
    match metric {
        UsageMetric::Tokens => tokens_text(f, column_sum(days, DayColumn::Total) as int)
            + " tokens"@,
        UsageMetric::Time => short_duration(column_sum(days, DayColumn::Time) as int),
        UsageMetric::Runs => number_text(
            f,
            at_least_zero(column_sum(days, DayColumn::Runs) as int),
        ) + " runs"@,
    }
}

/// The cards of the periods show what the metric has come to in the last seven days and in all
/// days; the seven days are the end of them, and what lies before changes nothing of their card.
pub proof fn periods_show_their_days(
    cards: Seq<UsageCard>,
    f: DisplayFormatter,
    metric: UsageMetric,
    s: LocalUsageSnapshot,
    limits: Seq<Seq<char>>,
    without_days: Seq<char>,
    before: Seq<UsageDay>,
    week: Seq<UsageDay>,
)
    requires
        are_cards(cards, f, metric, Some(s), limits, without_days),
        are_totals(s.totals, s.days@),
        s.days@ == before + week,
        week.len() == 7,
    ensures
        cards.len() == 6,
        title_of(cards, 2) == "LAST_7_DAYS"@,
        value_of(cards, 2) == period_text(f, metric, week),
        title_of(cards, 3) == "LAST_30_DAYS"@,
        value_of(cards, 3) == period_text(f, metric, before + week),
        metric != UsageMetric::Runs ==> captioned(
            cards,
            2,
            "Runs "@ + number_text(f, at_least_zero(column_sum(week, DayColumn::Runs) as int)),
        ) && captioned(
            cards,
            3,
            "Runs "@ + number_text(
                f,
                at_least_zero(column_sum(before + week, DayColumn::Runs) as int),
            ),
        ),
        metric == UsageMetric::Runs ==> captioned(
            cards,
            2,
            "Tokens "@ + tokens_text(f, column_sum(week, DayColumn::Total) as int),
        ) && captioned(
            cards,
            3,
            "Tokens "@ + tokens_text(f, column_sum(before + week, DayColumn::Total) as int),
        ),
        metric == UsageMetric::Tokens ==> captioned(
            cards,
            3,
            "Total "@ + number_text(
                f,
                at_least_zero(column_sum(before + week, DayColumn::Total) as int),
            ),
        ) && title_of(cards, 4) == "CACHE_HIT_RATE"@ && value_of(cards, 4) == localized(
            f,
            tenths_text(s.totals.cache_hit_rate_tenths as int),
        ) + "%"@,
        metric == UsageMetric::Time ==> captioned(
            cards,
            3,
            "Total "@ + long_duration(column_sum(before + week, DayColumn::Time) as int),
        ) && title_of(cards, 4) == "RUNS"@ && value_of(cards, 4) == number_text(
            f,
            at_least_zero(column_sum(week, DayColumn::Runs) as int),
        ) + " runs"@,
        metric == UsageMetric::Runs ==> title_of(cards, 4) == "TIME"@ && value_of(cards, 4)
            == short_duration(column_sum(week, DayColumn::Time) as int),
{
    let t = choose|t: Option<UsageTotalsView>|
        (t is Some <==> Some(s) is Some) && are_labels(t->0, s, metric, f) && usage_card_views(
            cards,
        ) == #[trigger] cards_of(f, metric, Some(s), totals_model(t), limits, without_days);
    let m = totals_model(t);
    let all = cards_of(f, metric, Some(s), m, limits, without_days);
    assert(leading_cards(f, Some(s), limits).len() == 2);
    assert(metric_cards(f, metric, Some(s), m, without_days).len() == 4);
    assert(usage_card_views(cards).len() == cards.len());
    assert(last_of(s.days@, 7) =~= week);
    let avg = "Avg "@ + m.avg + " / day"@;
    let total = "Total "@ + m.total;
    let week_text = "Last 7 days"@;
    let runs7 = "Runs "@ + number_text(f, at_least_zero(column_sum(week, DayColumn::Runs) as int));
    let runs30 = "Runs "@ + number_text(
        f,
        at_least_zero(column_sum(before + week, DayColumn::Runs) as int),
    );
    if metric == UsageMetric::Runs {
        let tokens7 = "Tokens "@ + tokens_text(f, column_sum(week, DayColumn::Total) as int);
        let tokens30 = "Tokens "@ + tokens_text(
            f,
            column_sum(before + week, DayColumn::Total) as int,
        );
        let avg30 = "Avg "@ + crate::ui::cards::average_runs(f, Some(s), without_days) + " / day"@;
        let c7 = seq![avg, tokens7];
        let c30 = seq![avg30, tokens30];
        lemma_card_at(cards, 2, "LAST_7_DAYS"@, m.last7, c7);
        lemma_card_at(cards, 3, "LAST_30_DAYS"@, m.last30, c30);
        lemma_card_at(
            cards,
            4,
            "TIME"@,
            short_duration(column_sum(week, DayColumn::Time) as int),
            seq![week_text],
        );
        assert(captioned(cards, 2, c7[1]));
        assert(captioned(cards, 3, c30[1]));
    } else {
        let c7 = seq![avg, runs7];
        let c30 = seq![total, runs30];
        lemma_card_at(cards, 2, "LAST_7_DAYS"@, m.last7, c7);
        lemma_card_at(cards, 3, "LAST_30_DAYS"@, m.last30, c30);
        assert(captioned(cards, 2, c7[1]));
        assert(captioned(cards, 3, c30[1]));
        assert(captioned(cards, 3, c30[0]));
        if metric == UsageMetric::Tokens {
            lemma_card_at(cards, 4, "CACHE_HIT_RATE"@, m.cache, seq![week_text, runs7]);
        } else {
            lemma_card_at(cards, 4, "RUNS"@, m.runs, seq![week_text]);
        }
    }
}

/// The value of a day under a metric, in words of the card of the peak.
pub open spec fn peak_text(f: DisplayFormatter, metric: UsageMetric, d: UsageDay) -> Seq<char> {
    match metric {
        UsageMetric::Tokens => tokens_text(f, d.total_tokens as int) + " tokens"@,
        UsageMetric::Time => short_duration(d.agent_time_ms as int) + " agent time"@,
        UsageMetric::Runs => number_text(f, at_least_zero(d.agent_runs as int)) + " runs"@,
    }
}

/// A day has more than nothing under a metric, and no less than another.
pub open spec fn outdoes(a: UsageDay, b: UsageDay, metric: UsageMetric) -> bool {
    match metric {
        UsageMetric::Tokens => a.total_tokens > 0 && a.total_tokens >= b.total_tokens,
        UsageMetric::Time => a.agent_time_ms > 0 && a.agent_time_ms >= b.agent_time_ms,
        UsageMetric::Runs => a.agent_runs > 0 && a.agent_runs >= b.agent_runs,
    }
}

/// The card of the peak shows a day than which none has more under the metric, with what that day
/// has; dashes where no day has anything.
pub proof fn peak_card_shows_the_largest_day(
    cards: Seq<UsageCard>,
    f: DisplayFormatter,
    metric: UsageMetric,
    s: LocalUsageSnapshot,
    limits: Seq<Seq<char>>,
    without_days: Seq<char>,
    p: int,
)
    requires
        are_cards(cards, f, metric, Some(s), limits, without_days),
        are_totals(s.totals, s.days@),
        0 <= p < s.days@.len(),
        forall|i: int| 0 <= i < s.days@.len() ==> outdoes(s.days@[p], #[trigger] s.days@[i], metric),
        forall|i: int|
            p < i < s.days@.len() ==> !outdoes(#[trigger] s.days@[i], s.days@[p], metric),
    ensures
        cards.len() == 6,
        title_of(cards, 5) == "PEAK_DAY"@,
        metric == UsageMetric::Tokens ==> value_of(cards, 5) == s.days@[p].day@,
        metric != UsageMetric::Tokens ==> value_of(cards, 5) == styled_day_label(
            f,
            s.days@[p].day@,
        ),
        captioned(cards, 5, peak_text(f, metric, s.days@[p])),
{
    let t = choose|t: Option<UsageTotalsView>|
        (t is Some <==> Some(s) is Some) && are_labels(t->0, s, metric, f) && usage_card_views(
            cards,
        ) == #[trigger] cards_of(f, metric, Some(s), totals_model(t), limits, without_days);
    let m = totals_model(t);
    let all = cards_of(f, metric, Some(s), m, limits, without_days);
    assert(leading_cards(f, Some(s), limits).len() == 2);
    assert(metric_cards(f, metric, Some(s), m, without_days).len() == 4);
    assert(usage_card_views(cards).len() == cards.len());
    let c = crate::usage::summary::metric_column(metric);
    crate::usage::summary::peak_is_largest(s.days@, c);
    let q = crate::usage::summary::peak_place(s.days@, c);
    assert(outdoes(s.days@[p], s.days@[q], metric));
    if q > p {
        assert(!outdoes(s.days@[q], s.days@[p], metric));
    }
    assert(q == p);
    let captions = seq![m.peak_sub];
    lemma_card_at(cards, 5, "PEAK_DAY"@, m.peak, captions);
    assert(captioned(cards, 5, captions[0]));
}

/// Without limits the card says why: that they are to come, or the error before any notice.
pub proof fn missing_limits_are_explained(d: DataState)
    ensures
        d.limits_enabled ==> no_limits(d) == seq!["Loading..."@],
        !d.limits_enabled && d.limits_error is Some ==> no_limits(d) == seq![
            "Unavailable"@,
            d.limits_error->0@,
        ],
        !d.limits_enabled && d.limits_error is None && d.limits_notice is Some ==> no_limits(d)
            == seq!["Unavailable"@, d.limits_notice->0@],
{
}

/// The summary of reset credits gives how many there are, and the moment at which the first of them
/// expires: none of them expires before it.
pub proof fn resets_tell_the_first_expiry(
    f: DisplayFormatter,
    credits: Seq<RateLimitResetCredit>,
    available: int,
    at: Moment,
    i: int,
)
    requires
        0 <= i < credits.len(),
        credits[i].expires_at is Some,
    ensures
        opens_with(
            summary_text(f, available, Some(at)),
            "Resets: "@ + number_text(f, at_least_zero(available)) + " available"@,
        ),
        closes_with(
            summary_text(f, available, Some(at)),
            " | earliest expires "@ + (reset_date(f, at.date) + seq![',', ' '] + time_text(
                f,
                at.time,
            )),
        ),
        summary_text(f, available, None) == "Resets: "@ + number_text(
            f,
            at_least_zero(available),
        ) + " available"@,
        crate::ui::resets::earliest(credits) is Some,
        crate::ui::resets::earliest(credits)->0 <= credits[i].expires_at->0,
{
    earliest_is_first(credits);
    let head = "Resets: "@ + number_text(f, at_least_zero(available)) + " available"@;
    let tail = " | earliest expires "@ + (reset_date(f, at.date) + seq![',', ' '] + time_text(
        f,
        at.time,
    ));
    let whole = summary_text(f, available, Some(at));
    assert(whole =~= head + tail);
    assert(whole.take(head.len() as int) =~= head);
    assert(whole.skip(whole.len() - tail.len()) =~= tail);
}

/// A moment in the words of a credit.
pub open spec fn credit_words(f: DisplayFormatter, at: Moment, today: Date) -> Seq<char> {
    if same_day(at.date, today) {
        "today "@ + time_text(f, at.time)
    } else {
        reset_date(f, at.date) + seq![',', ' '] + time_text(f, at.time)
    }
}

/// The lines of credits: those of a further credit stand behind those that were there, which stay
/// as they are, and say what that credit says: its own title or its number, its status, when it
/// expires and when it was granted, in this order.
pub proof fn credits_say_what_they_are(
    f: DisplayFormatter,
    credits: Seq<RateLimitResetCredit>,
    c: RateLimitResetCredit,
    moments: Seq<CreditMoments>,
    expires: Moment,
    granted: Moment,
    today: Date,
)
    requires
        moments.len() == credits.len() + 1,
        moments.last() == (CreditMoments { expires: Some(expires), granted: Some(granted) }),
        c.status is Some,
    ensures
        ({
            let all = details(f, credits.push(c), moments, today);
            let before = details(f, credits, moments, today);
            let start = if credits.len() == 0 {
                0int
            } else {
                before.len() as int + 1
            };
            &&& all.len() >= start + 2
            &&& forall|k: int| 0 <= k < before.len() ==> #[trigger] all[k] == before[k]
            &&& credits.len() > 0 ==> all[before.len() as int] == (
                DetailKind::Blank,
                Seq::<char>::empty(),
            )
            &&& all[start].0 == DetailKind::Title
            &&& all[start + 1].0 == DetailKind::Metadata
            &&& c.title is Some && trimmed(c.title->0@).len() > 0 ==> all[start].1 == c.title->0@
            &&& c.title is None ==> all[start].1 == "Reset credit "@ + crate::decimal::digits(
                (credits.len() + 1) as nat,
            )
            &&& opens_with(
                all[start + 1].1,
                c.status->0@ + " | expires "@ + credit_words(f, expires, today) + " | granted "@
                    + credit_words(f, granted, today),
            )
            &&& c.reset_type is Some ==> closes_with(all[start + 1].1, " | "@ + c.reset_type->0@)
            &&& c.description is Some && trimmed(c.description->0@).len() > 0 ==> all.len()
                == start + 3 && all[start + 2] == (DetailKind::Description, c.description->0@)
            &&& c.description is None ==> all.len() == start + 2
        }),
{
    let next = credits.push(c);
    assert(next.drop_last() =~= credits);
    assert(next.last() == c);
    let all = details(f, next, moments, today);
    let before = details(f, credits, moments, today);
    let n = credits.len();
    assert(moments[n as int] == moments.last());
    let m = moments.last();
    let meta = credit_metadata(f, c, m, today);
    reveal_strlit(" | expires ");
    reveal_strlit(" | granted ");
    reveal_strlit(" | ");
    reveal_strlit("expires ");
    reveal_strlit("granted ");
    assert(" | expires "@ =~= " | "@ + "expires "@);
    assert(" | granted "@ =~= " | "@ + "granted "@);
    let head = c.status->0@ + " | expires "@ + credit_words(f, expires, today) + " | granted "@
        + credit_words(f, granted, today);
    let kind = match c.reset_type {
        Some(t) => " | "@ + t@,
        None => Seq::empty(),
    };
    assert(meta =~= head + kind);
    assert(meta.take(head.len() as int) =~= head);
    assert(meta.skip(meta.len() - kind.len()) =~= kind);
    if n == 0 {
        assert(before.len() == 0);
    }
}

/// The moments of a credit are those of its own points in time.
pub proof fn credits_are_shown_at_their_own_times(
    credits: Seq<RateLimitResetCredit>,
    moments: Seq<CreditMoments>,
    i: int,
)
    requires
        moments_match(credits, moments),
        0 <= i < credits.len(),
    ensures
        credits[i].expires_at is Some ==> shown_at(credits[i].expires_at->0, moments[i].expires),
        credits[i].granted_at is Some ==> shown_at(credits[i].granted_at->0, moments[i].granted),
        credits[i].expires_at is None ==> moments[i].expires is None,
        credits[i].granted_at is None ==> moments[i].granted is None,
{
    let m = moments[i];
}

} // verus!
