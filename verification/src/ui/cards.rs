//! The cards of the usage screen.

use crate::app::state::{sat16, Rect};
use crate::app::worker::DataState;
use crate::locale::{number_text, DisplayFormatter};
use crate::text::{is_blank, trimmed, views};
use crate::ui::geometry::{
    all_fit, all_percentages, demands, extents, less, lies_in, percent_cell, percents,
    split_columns, split_rows, usage_card_layout, Share,
};
use crate::ui::limits::{card_lines, format_limits_compact_card_lines, moments_fit, LimitMoments};
use crate::ui::values::{duration_words, format_duration_words};
use crate::ui::wrap::{wrapped_line_count, wrapped_lines};
use crate::usage::format::{at_least_zero, format_duration_compact, short_duration};
use crate::usage::labels::{overview_text, tokens_text};
use crate::usage::snapshot::{LocalUsageSnapshot, UsageDay, UsageMetric};
use crate::usage::summary::{
    are_labels, column_sum, keys_cut, last_of, mean_column, mean_of, sum_column, DayColumn,
    UsageTotalsView,
};
use vstd::prelude::*;

verus! {

/// The lines of a card: its value, and the captions that are not blank.
#[derive(Debug)]
pub struct CardSpec {
    pub lines: Vec<String>,
}

/// The captions that are not blank.
pub open spec fn filled_captions(captions: Seq<Seq<char>>) -> Seq<Seq<char>>
    decreases captions.len(),
{
    if captions.len() == 0 {
        Seq::empty()
    } else if trimmed(captions.last()).len() > 0 {
        filled_captions(captions.drop_last()).push(captions.last())
    } else {
        filled_captions(captions.drop_last())
    }
}

/// The lines of a card.
pub open spec fn card_of(value: Seq<char>, captions: Seq<Seq<char>>) -> Seq<Seq<char>> {
    seq![value] + filled_captions(captions)
}

/// How many rows lines take, each wrapped at a width.
pub open spec fn rows_of(lines: Seq<Seq<char>>, width: nat) -> int
    decreases lines.len(),
{
    if lines.len() == 0 {
        0
    } else {
        sat16(rows_of(lines.drop_last(), width) + wrapped_lines(lines.last(), width))
    }
}

/// How high a card must be: border, padding, lines and an empty row; at least six.
pub open spec fn height_of(lines: Seq<Seq<char>>, card_width: nat) -> int {
    let width = less(card_width as int, 5);
    let rows = sat16(
        4 + rows_of(
            lines,
            if width < 1 {
                1
            } else {
                width as nat
            },
        ),
    );
    if rows < 6 {
        6
    } else {
        rows
    }
}

impl CardSpec {
    /// A card from its value and its captions.
    pub fn new(value: String, captions: Vec<String>) -> (r: Self)
        ensures
            views(r.lines@) == card_of(value@, views(captions@)),
    {
        let mut lines: Vec<String> = Vec::new();
        lines.push(value);
        let mut i: usize = 0;
        assert(views(captions@).take(0) =~= Seq::<Seq<char>>::empty());
        assert(views(lines@) =~= card_of(value@, views(captions@).take(0)));
        while i < captions.len()
            invariant
                i <= captions@.len(),
                views(lines@) == card_of(value@, views(captions@).take(i as int)),
            decreases captions@.len() - i,
        {
            let ghost next = views(captions@).take(i + 1);
            let ghost before = views(lines@);
            assert(next.drop_last() =~= views(captions@).take(i as int));
            assert(next.last() == captions@[i as int]@);
            if !is_blank(captions[i].as_str()) {
                lines.push(captions[i].as_str().to_owned());
                assert(views(lines@) =~= before.push(captions@[i as int]@));
                assert(before.push(captions@[i as int]@) =~= card_of(value@, next));
            }
            i += 1;
        }
        assert(views(captions@).take(i as int) =~= views(captions@));
        CardSpec { lines }
    }

    /// How high the card must be.
    pub fn required_height(&self, card_width: u16) -> (r: u16)
        ensures
            r == height_of(views(self.lines@), card_width as nat),
            r >= 6,
    {
        let inner: u16 = card_width.saturating_sub(5);
        let width: u16 = if inner < 1 {
            1
        } else {
            inner
        };
        let mut rows: u16 = 0;
        let mut i: usize = 0;
        assert(views(self.lines@).take(0) =~= Seq::<Seq<char>>::empty());
        while i < self.lines.len()
            invariant
                i <= self.lines@.len(),
                rows == rows_of(views(self.lines@).take(i as int), width as nat),
            decreases self.lines@.len() - i,
        {
            let ghost next = views(self.lines@).take(i + 1);
            assert(next.drop_last() =~= views(self.lines@).take(i as int));
            assert(next.last() == self.lines@[i as int]@);
            rows = rows.saturating_add(wrapped_line_count(self.lines[i].as_str(), width));
            i += 1;
        }
        assert(views(self.lines@).take(i as int) =~= views(self.lines@));
        let total: u16 = rows.saturating_add(4);
        if total < 6 {
            6
        } else {
            total
        }
    }
}

/// What the cards of a row say.
pub open spec fn card_views(cards: Seq<CardSpec>) -> Seq<Seq<Seq<char>>> {
    cards.map_values(|c: CardSpec| views(c.lines@))
}

/// The height of the tallest card.
pub open spec fn tallest(cards: Seq<Seq<Seq<char>>>, card_width: nat) -> int
    decreases cards.len(),
{
    if cards.len() == 0 {
        0
    } else {
        let before = tallest(cards.drop_last(), card_width);
        let last = height_of(cards.last(), card_width);
        if last > before {
            last
        } else {
            before
        }
    }
}

/// No card of a row is taller than the row.
pub proof fn row_holds_every_card(cards: Seq<Seq<Seq<char>>>, card_width: nat)
    ensures
        forall|i: int|
            0 <= i < cards.len() ==> height_of(#[trigger] cards[i], card_width) <= tallest(
                cards,
                card_width,
            ),
        cards.len() > 0 ==> exists|i: int|
            0 <= i < cards.len() && height_of(#[trigger] cards[i], card_width) == tallest(
                cards,
                card_width,
            ),
    decreases cards.len(),
{
    if cards.len() > 0 {
        let init = cards.drop_last();
        row_holds_every_card(init, card_width);
        assert forall|i: int| 0 <= i < cards.len() implies height_of(#[trigger] cards[i], card_width)
            <= tallest(cards, card_width) by {
            if i < init.len() {
                assert(init[i] == cards[i]);
            }
        }
        if init.len() > 0 && height_of(cards.last(), card_width) <= tallest(init, card_width) {
            let k = choose|i: int|
                0 <= i < init.len() && height_of(#[trigger] init[i], card_width) == tallest(
                    init,
                    card_width,
                );
            assert(height_of(cards[k], card_width) == tallest(cards, card_width));
        } else {
            assert(height_of(cards[cards.len() - 1], card_width) >= 6);
            assert(height_of(cards[cards.len() - 1], card_width) == tallest(cards, card_width));
        }
    }
}

fn row_height(cards: &Vec<CardSpec>, from: usize, to: usize, card_width: u16) -> (r: u16)
    requires
        from <= to <= cards@.len(),
    ensures
        r == tallest(
            card_views(cards@).subrange(from as int, to as int),
            card_width as nat,
        ),
{
    let mut height: u16 = 0;
    let mut i: usize = from;
    let ghost all = card_views(cards@);
    assert(all.subrange(from as int, from as int) =~= Seq::<Seq<Seq<char>>>::empty());
    while i < to
        invariant
            from <= i <= to <= cards@.len(),
            all == card_views(cards@),
            height == tallest(all.subrange(from as int, i as int), card_width as nat),
        decreases to - i,
    {
        let ghost next = all.subrange(from as int, i + 1);
        assert(next.drop_last() =~= all.subrange(from as int, i as int));
        assert(next.last() == views(cards@[i as int].lines@));
        let h: u16 = cards[i].required_height(card_width);
        if h > height {
            height = h;
        }
        i += 1;
    }
    height
}

/// The height of a row of cards.
pub fn card_row_height(cards: &Vec<CardSpec>, card_width: u16) -> (r: u16)
    ensures
        r == tallest(card_views(cards@), card_width as nat),
{
    let total: usize = cards.len();
    assert(card_views(cards@).subrange(0, total as int) =~= card_views(cards@));
    row_height(cards, 0, total, card_width)
}

/// A card with its title.
#[derive(Debug)]
pub struct UsageCard {
    pub title: &'static str,
    pub card: CardSpec,
}

/// A title and the lines of its card.
pub open spec fn usage_card_views(cards: Seq<UsageCard>) -> Seq<(Seq<char>, Seq<Seq<char>>)> {
    cards.map_values(|c: UsageCard| (c.title@, views(c.card.lines@)))
}

/// What the totals say; dashes where there are none.
pub ghost struct TotalsModel {
    pub last7: Seq<char>,
    pub last30: Seq<char>,
    pub avg: Seq<char>,
    pub cache: Seq<char>,
    pub total: Seq<char>,
    pub runs: Seq<char>,
    pub peak: Seq<char>,
    pub peak_sub: Seq<char>,
}

/// What the totals say; dashes where there are none.
pub open spec fn totals_model(t: Option<UsageTotalsView>) -> TotalsModel {
    match t {
        Some(v) => TotalsModel {
            last7: v.last7_primary_label@,
            last30: v.last30_primary_label@,
            avg: v.avg_primary_label@,
            cache: v.cache_label@,
            total: v.total_label@,
            runs: v.runs_label@,
            peak: v.peak_day_label@,
            peak_sub: v.peak_sub_label@,
        },
        None => TotalsModel {
            last7: "--"@,
            last30: "--"@,
            avg: "--"@,
            cache: "--"@,
            total: "--"@,
            runs: "--"@,
            peak: "--"@,
            peak_sub: Seq::empty(),
        },
    }
}

/// The runs of days; nothing where there are no days.
pub open spec fn runs_caption(f: DisplayFormatter, days: Option<Seq<UsageDay>>) -> Seq<char> {
    match days {
        Some(d) => "Runs "@ + number_text(f, at_least_zero(column_sum(d, DayColumn::Runs) as int)),
        None => Seq::empty(),
    }
}

/// The last seven days of a snapshot.
pub open spec fn week_of(s: Option<LocalUsageSnapshot>) -> Option<Seq<UsageDay>> {
    match s {
        Some(s) => Some(last_of(s.days@, 7)),
        None => None,
    }
}

/// All days of a snapshot.
pub open spec fn all_days(s: Option<LocalUsageSnapshot>) -> Option<Seq<UsageDay>> {
    match s {
        Some(s) => Some(s.days@),
        None => None,
    }
}

/// The last day of a snapshot.
pub open spec fn today_of(s: Option<LocalUsageSnapshot>) -> Option<UsageDay> {
    match s {
        Some(s) => if s.days@.len() > 0 {
            Some(s.days@.last())
        } else {
            None
        },
        None => None,
    }
}

/// The card of today: tokens, runs and time, whatever the metric.
pub open spec fn today_card(f: DisplayFormatter, day: Option<UsageDay>) -> Seq<Seq<char>> {
    match day {
        Some(d) => card_of(
            overview_text(f, d.total_tokens as int) + " tokens"@,
            seq![
                "Runs "@ + number_text(f, at_least_zero(d.agent_runs as int)),
                "Time "@ + duration_words(d.agent_time_ms as int),
            ],
        ),
        None => card_of("--"@, seq![Seq::empty(), Seq::empty()]),
    }
}

/// The average number of runs of a day; `without_days` where there are no days.
pub open spec fn average_runs(
    f: DisplayFormatter,
    s: Option<LocalUsageSnapshot>,
    without_days: Seq<char>,
) -> Seq<char> {
    match s {
        Some(s) => if s.days@.len() > 0 {
            number_text(f, at_least_zero(mean_of(s.days@, DayColumn::Runs)))
        } else {
            without_days
        },
        None => "--"@,
    }
}

/// The tokens of a period.
pub open spec fn tokens_caption(f: DisplayFormatter, tokens: Option<i64>) -> Seq<char> {
    match tokens {
        Some(n) => "Tokens "@ + tokens_text(f, n as int),
        None => "--"@,
    }
}

/// The first two cards: the limits and today.
pub open spec fn leading_cards(
    f: DisplayFormatter,
    s: Option<LocalUsageSnapshot>,
    limits: Seq<Seq<char>>,
) -> Seq<(Seq<char>, Seq<Seq<char>>)> {
    seq![
        ("LIMITS"@, card_of(limits[0], limits.skip(1))),
        ("TODAY"@, today_card(f, today_of(s))),
    ]
}

/// The six cards of the usage screen under a metric.
pub open spec fn cards_of(
    f: DisplayFormatter,
    metric: UsageMetric,
    s: Option<LocalUsageSnapshot>,
    t: TotalsModel,
    limits: Seq<Seq<char>>,
    without_days: Seq<char>,
) -> Seq<(Seq<char>, Seq<Seq<char>>)> {
    leading_cards(f, s, limits) + metric_cards(f, metric, s, t, without_days)
}

/// The four cards whose content goes by the metric.
pub open spec fn metric_cards(
    f: DisplayFormatter,
    metric: UsageMetric,
    s: Option<LocalUsageSnapshot>,
    t: TotalsModel,
    without_days: Seq<char>,
) -> Seq<(Seq<char>, Seq<Seq<char>>)> {
    let avg = "Avg "@ + t.avg + " / day"@;
    let total = "Total "@ + t.total;
    let week = "Last 7 days"@;
    let runs7 = runs_caption(f, week_of(s));
    let runs30 = runs_caption(f, all_days(s));
    let last = ("PEAK_DAY"@, card_of(t.peak, seq![t.peak_sub]));
    match metric {
        UsageMetric::Tokens => seq![
            ("LAST_7_DAYS"@, card_of(t.last7, seq![avg, runs7])),
            ("LAST_30_DAYS"@, card_of(t.last30, seq![total, runs30])),
            ("CACHE_HIT_RATE"@, card_of(t.cache, seq![week, runs7])),
            last,
        ],
        UsageMetric::Time => seq![
            ("LAST_7_DAYS"@, card_of(t.last7, seq![avg, runs7])),
            ("LAST_30_DAYS"@, card_of(t.last30, seq![total, runs30])),
            ("RUNS"@, card_of(t.runs, seq![week])),
            last,
        ],
        UsageMetric::Runs => {
            let avg30 = "Avg "@ + average_runs(f, s, without_days) + " / day"@;
            let tokens7 = tokens_caption(
                f,
                match s {
                    Some(s) => Some(s.totals.last7_days_tokens),
                    None => None,
                },
            );
            let tokens30 = tokens_caption(
                f,
                match s {
                    Some(s) => Some(s.totals.last30_days_tokens),
                    None => None,
                },
            );
            let time7 = match s {
                Some(s) => short_duration(
                    column_sum(last_of(s.days@, 7), DayColumn::Time) as int,
                ),
                None => "--"@,
            };
            seq![
                ("LAST_7_DAYS"@, card_of(t.last7, seq![avg, tokens7])),
                ("LAST_30_DAYS"@, card_of(t.last30, seq![avg30, tokens30])),
                ("TIME"@, card_of(time7, seq![week])),
                last,
            ]
        },
    }
}

fn empty_text() -> (r: String)
    ensures
        r@ == Seq::<char>::empty(),
{
    proof {
        reveal_strlit("");
        assert(""@ =~= Seq::<char>::empty());
    }
    "".to_owned()
}

fn joined2(a: &str, b: &str) -> (r: String)
    ensures
        r@ == a@ + b@,
{
    let mut text = a.to_owned();
    text.append(b);
    text
}

fn card1(title: &'static str, value: String, caption: String) -> (r: UsageCard)
    ensures
        r.title@ == title@,
        views(r.card.lines@) == card_of(value@, seq![caption@]),
{
    let mut captions: Vec<String> = Vec::new();
    captions.push(caption);
    assert(views(captions@) =~= seq![caption@]);
    UsageCard { title, card: CardSpec::new(value, captions) }
}

fn card2(title: &'static str, value: String, first: String, second: String) -> (r: UsageCard)
    ensures
        r.title@ == title@,
        views(r.card.lines@) == card_of(value@, seq![first@, second@]),
{
    let mut captions: Vec<String> = Vec::new();
    captions.push(first);
    captions.push(second);
    assert(views(captions@) =~= seq![first@, second@]);
    UsageCard { title, card: CardSpec::new(value, captions) }
}

fn limits_card(lines: &Vec<String>) -> (r: UsageCard)
    requires
        lines@.len() > 0,
    ensures
        r.title@ == "LIMITS"@,
        views(r.card.lines@) == card_of(views(lines@)[0], views(lines@).skip(1)),
{
    let mut captions: Vec<String> = Vec::new();
    let mut i: usize = 1;
    assert(views(captions@) =~= views(lines@).subrange(1, 1));
    while i < lines.len()
        invariant
            1 <= i <= lines@.len(),
            views(captions@) == views(lines@).subrange(1, i as int),
        decreases lines@.len() - i,
    {
        let ghost before = views(captions@);
        captions.push(lines[i].as_str().to_owned());
        assert(views(captions@) =~= before.push(lines@[i as int]@));
        assert(views(lines@).subrange(1, i + 1) =~= before.push(lines@[i as int]@));
        i += 1;
    }
    assert(views(lines@).subrange(1, i as int) =~= views(lines@).skip(1));
    UsageCard { title: "LIMITS", card: CardSpec::new(lines[0].as_str().to_owned(), captions) }
}

fn today_usage_card(snapshot: Option<&LocalUsageSnapshot>, formatter: DisplayFormatter) -> (r:
    UsageCard)
    ensures
        r.title@ == "TODAY"@,
        views(r.card.lines@) == today_card(
            formatter,
            today_of(
                match snapshot {
                    Some(s) => Some(*s),
                    None => None,
                },
            ),
        ),
{
    if let Some(s) = snapshot {
        if s.days.len() > 0 {
            let day = &s.days[s.days.len() - 1];
            let mut value = formatter.tokens_overview(day.total_tokens);
            value.append(" tokens");
            return card2(
                "TODAY",
                value,
                joined2("Runs ", formatter.format_count(day.agent_runs).as_str()),
                joined2("Time ", format_duration_words(day.agent_time_ms).as_str()),
            );
        }
    }
    card2("TODAY", "--".to_owned(), empty_text(), empty_text())
}

/// A snapshot behind a reference.
pub open spec fn opt_snapshot(s: Option<&LocalUsageSnapshot>) -> Option<LocalUsageSnapshot> {
    match s {
        Some(s) => Some(*s),
        None => None,
    }
}

fn week_runs(snapshot: Option<&LocalUsageSnapshot>, formatter: DisplayFormatter) -> (r: String)
    ensures
        r@ == runs_caption(formatter, week_of(opt_snapshot(snapshot))),
{
    match snapshot {
        Some(s) => joined2(
            "Runs ",
            formatter.format_count(sum_column(&s.last7_days(), DayColumn::Runs)).as_str(),
        ),
        None => empty_text(),
    }
}

fn all_runs(snapshot: Option<&LocalUsageSnapshot>, formatter: DisplayFormatter) -> (r: String)
    ensures
        r@ == runs_caption(formatter, all_days(opt_snapshot(snapshot))),
{
    match snapshot {
        Some(s) => joined2(
            "Runs ",
            formatter.format_count(sum_column(&s.days, DayColumn::Runs)).as_str(),
        ),
        None => empty_text(),
    }
}

/// The labels of the totals; dashes where there is no snapshot.
#[derive(Debug)]
pub struct TotalsLabels {
    pub last7: String,
    pub last30: String,
    pub avg: String,
    pub cache: String,
    pub total: String,
    pub runs: String,
    pub peak: String,
    pub peak_sub: String,
}

impl View for TotalsLabels {
    type V = TotalsModel;

    open spec fn view(&self) -> TotalsModel {
        TotalsModel {
            last7: self.last7@,
            last30: self.last30@,
            avg: self.avg@,
            cache: self.cache@,
            total: self.total@,
            runs: self.runs@,
            peak: self.peak@,
            peak_sub: self.peak_sub@,
        }
    }
}

fn totals_labels(t: Option<UsageTotalsView>) -> (r: TotalsLabels)
    ensures
        r@ == totals_model(t),
{
    match t {
        Some(v) => TotalsLabels {
            last7: v.last7_primary_label,
            last30: v.last30_primary_label,
            avg: v.avg_primary_label,
            cache: v.cache_label,
            total: v.total_label,
            runs: v.runs_label,
            peak: v.peak_day_label,
            peak_sub: v.peak_sub_label,
        },
        None => TotalsLabels {
            last7: "--".to_owned(),
            last30: "--".to_owned(),
            avg: "--".to_owned(),
            cache: "--".to_owned(),
            total: "--".to_owned(),
            runs: "--".to_owned(),
            peak: "--".to_owned(),
            peak_sub: empty_text(),
        },
    }
}

fn per_day(average: &str) -> (r: String)
    ensures
        r@ == "Avg "@ + average@ + " / day"@,
{
    let mut text = "Avg ".to_owned();
    text.append(average);
    text.append(" / day");
    text
}

fn runs_cards(
    cards: &mut Vec<UsageCard>,
    snapshot: Option<&LocalUsageSnapshot>,
    t: TotalsLabels,
    without_days: &str,
    formatter: DisplayFormatter,
)
    ensures
        usage_card_views(final(cards)@) == usage_card_views(old(cards)@) + metric_cards(
            formatter,
            UsageMetric::Runs,
            opt_snapshot(snapshot),
            t@,
            without_days@,
        ),
{
    let ghost before = usage_card_views(cards@);
    let ghost want = metric_cards(
        formatter,
        UsageMetric::Runs,
        opt_snapshot(snapshot),
        t@,
        without_days@,
    );
    let avg30 = match snapshot {
        Some(s) => if s.days.len() > 0 {
            formatter.format_count(mean_column(&s.days, DayColumn::Runs))
        } else {
            without_days.to_owned()
        },
        None => "--".to_owned(),
    };
    let tokens7 = match snapshot {
        Some(s) => joined2(
            "Tokens ",
            formatter.tokens_compact(s.totals.last7_days_tokens).as_str(),
        ),
        None => "--".to_owned(),
    };
    let tokens30 = match snapshot {
        Some(s) => joined2(
            "Tokens ",
            formatter.tokens_compact(s.totals.last30_days_tokens).as_str(),
        ),
        None => "--".to_owned(),
    };
    let time7 = match snapshot {
        Some(s) => format_duration_compact(sum_column(&s.last7_days(), DayColumn::Time)),
        None => "--".to_owned(),
    };
    cards.push(card2("LAST_7_DAYS", t.last7, per_day(t.avg.as_str()), tokens7));
    cards.push(card2("LAST_30_DAYS", t.last30, per_day(avg30.as_str()), tokens30));
    cards.push(card1("TIME", time7, "Last 7 days".to_owned()));
    cards.push(card1("PEAK_DAY", t.peak, t.peak_sub));
    assert(usage_card_views(cards@) =~= before + want);
}

fn sums_cards(
    cards: &mut Vec<UsageCard>,
    metric: UsageMetric,
    snapshot: Option<&LocalUsageSnapshot>,
    t: TotalsLabels,
    formatter: DisplayFormatter,
)
    requires
        metric != UsageMetric::Runs,
    ensures
        forall|without_days: Seq<char>|
            usage_card_views(final(cards)@) == usage_card_views(old(cards)@)
                + #[trigger] metric_cards(
            formatter,
            metric,
            opt_snapshot(snapshot),
            t@,
            without_days,
        ),
{
    let ghost before = usage_card_views(cards@);
    let ghost want = metric_cards(
        formatter,
        metric,
        opt_snapshot(snapshot),
        t@,
        Seq::empty(),
    );
    cards.push(
        card2("LAST_7_DAYS", t.last7, per_day(t.avg.as_str()), week_runs(snapshot, formatter)),
    );
    cards.push(
        card2(
            "LAST_30_DAYS",
            t.last30,
            joined2("Total ", t.total.as_str()),
            all_runs(snapshot, formatter),
        ),
    );
    if metric == UsageMetric::Tokens {
        cards.push(
            card2(
                "CACHE_HIT_RATE",
                t.cache,
                "Last 7 days".to_owned(),
                week_runs(snapshot, formatter),
            ),
        );
    } else {
        cards.push(card1("RUNS", t.runs, "Last 7 days".to_owned()));
    }
    cards.push(card1("PEAK_DAY", t.peak, t.peak_sub));
    assert(usage_card_views(cards@) =~= before + want);
}

/// The cards are right for a snapshot and the lines of the limits card.
pub open spec fn are_cards(
    cards: Seq<UsageCard>,
    f: DisplayFormatter,
    metric: UsageMetric,
    s: Option<LocalUsageSnapshot>,
    limits: Seq<Seq<char>>,
    without_days: Seq<char>,
) -> bool {
    exists|t: Option<UsageTotalsView>|
        (t is Some <==> s is Some) && (s is Some ==> are_labels(t->0, s->0, metric, f))
            && usage_card_views(cards) == #[trigger] cards_of(
            f,
            metric,
            s,
            totals_model(t),
            limits,
            without_days,
        )
}

fn build_cards(
    metric: UsageMetric,
    snapshot: Option<&LocalUsageSnapshot>,
    limits: &Vec<String>,
    without_days: &str,
    formatter: DisplayFormatter,
) -> (r: Vec<UsageCard>)
    requires
        snapshot is Some ==> keys_cut(snapshot->0.days@),
        limits@.len() > 0,
    ensures
        r@.len() == 6,
        are_cards(
            r@,
            formatter,
            metric,
            opt_snapshot(snapshot),
            views(limits@),
            without_days@,
        ),
{
    let totals = match snapshot {
        Some(s) => Some(s.totals_view(metric, formatter)),
        None => None,
    };
    let ghost t = totals;
    let labels = totals_labels(totals);
    let mut cards: Vec<UsageCard> = Vec::new();
    cards.push(limits_card(limits));
    cards.push(today_usage_card(snapshot, formatter));
    assert(usage_card_views(cards@) =~= leading_cards(
        formatter,
        opt_snapshot(snapshot),
        views(limits@),
    ));
    if metric == UsageMetric::Runs {
        runs_cards(&mut cards, snapshot, labels, without_days, formatter);
    } else {
        sums_cards(&mut cards, metric, snapshot, labels, formatter);
    }
    assert(usage_card_views(cards@) == cards_of(
        formatter,
        metric,
        opt_snapshot(snapshot),
        totals_model(t),
        views(limits@),
        without_days@,
    ));
    assert(cards@.len() == usage_card_views(cards@).len());
    cards
}

/// The cards by which the height of the rows is measured.
pub fn usage_card_specs(
    metric: UsageMetric,
    snapshot: Option<&LocalUsageSnapshot>,
    limits: &Vec<String>,
    formatter: DisplayFormatter,
) -> (r: Vec<UsageCard>)
    requires
        snapshot is Some ==> keys_cut(snapshot->0.days@),
        limits@.len() > 0,
    ensures
        r@.len() == 6,
        are_cards(r@, formatter, metric, opt_snapshot(snapshot), views(limits@), "--"@),
{
    build_cards(metric, snapshot, limits, "--", formatter)
}

/// The cards as they are shown; without days the average number of runs is zero.
pub fn usage_cards(
    metric: UsageMetric,
    snapshot: Option<&LocalUsageSnapshot>,
    limits: &Vec<String>,
    formatter: DisplayFormatter,
) -> (r: Vec<UsageCard>)
    requires
        snapshot is Some ==> keys_cut(snapshot->0.days@),
        limits@.len() > 0,
    ensures
        r@.len() == 6,
        are_cards(
            r@,
            formatter,
            metric,
            opt_snapshot(snapshot),
            views(limits@),
            number_text(formatter, 0),
        ),
{
    let zero = formatter.format_u64(0);
    build_cards(metric, snapshot, limits, zero.as_str(), formatter)
}

/// The lines of the limits card where no limits are shown: why there are none, or that they are
/// still to come.
pub open spec fn no_limits(d: DataState) -> Seq<Seq<char>> {
    if !d.limits_enabled {
        seq![
            "Unavailable"@,
            match d.limits_error {
                Some(e) => e@,
                None => match d.limits_notice {
                    Some(n) => n@,
                    None => "Limits unavailable."@,
                },
            },
        ]
    } else {
        seq!["Loading..."@]
    }
}

/// The lines of the limits card. Which time zone the machine has and what day it is are left open.
pub fn limits_card_content(data: &DataState, compact: bool, formatter: DisplayFormatter) -> (r: Vec<
    String,
>)
    ensures
        r@.len() > 0,
        if data.limits_enabled && data.limits is Some {
            exists|m: LimitMoments|
                moments_fit(data.limits->0, m) && views(r@) == #[trigger] card_lines(
                    formatter,
                    data.limits->0,
                    m,
                    compact,
                )
        } else {
            views(r@) == no_limits(*data)
        },
{
    if data.limits_enabled {
        if let Some(l) = &data.limits {
            let lines = format_limits_compact_card_lines(l, compact, formatter);
            proof {
                let m = choose|m: LimitMoments|
                    moments_fit(*l, m) && views(lines@) == #[trigger] card_lines(
                        formatter,
                        *l,
                        m,
                        compact,
                    );
                assert(views(lines@).len() >= 3);
                assert(views(lines@) == card_lines(formatter, data.limits->0, m, compact));
            }
            return lines;
        }
    }
    let mut lines: Vec<String> = Vec::new();
    if data.limits_enabled {
        lines.push("Loading...".to_owned());
    } else {
        lines.push("Unavailable".to_owned());
        lines.push(
            match &data.limits_error {
                Some(e) => e.as_str().to_owned(),
                None => match &data.limits_notice {
                    Some(n) => n.as_str().to_owned(),
                    None => "Limits unavailable.".to_owned(),
                },
            },
        );
    }
    assert(views(lines@) =~= no_limits(*data));
    lines
}

/// What the six cards say, without their titles.
pub open spec fn lines_of_cards(cards: Seq<UsageCard>) -> Seq<Seq<Seq<char>>> {
    cards.map_values(|c: UsageCard| views(c.card.lines@))
}

/// The heights of the rows of cards: one row of six or two rows of three.
pub open spec fn row_heights(cards: Seq<Seq<Seq<char>>>, columns: int, card_width: nat) -> Seq<
    int,
> {
    if columns == 6 {
        seq![tallest(cards, card_width)]
    } else {
        seq![
            tallest(cards.subrange(0, 3), card_width),
            tallest(cards.subrange(3, 6), card_width),
        ]
    }
}

/// The heights of the rows of the six cards.
pub fn usage_card_row_heights(cards: Vec<UsageCard>, width: u16) -> (r: Vec<u16>)
    requires
        cards@.len() == 6,
    ensures
        r@.map_values(|h: u16| h as int) == row_heights(
            lines_of_cards(cards@),
            if width >= 180 {
                6
            } else {
                3
            },
            if card_cells(width) < 1 {
                1
            } else {
                card_cells(width) as nat
            },
        ),
        r@.len() == (if width >= 180 {
            1int
        } else {
            2
        }),
{
    let layout = usage_card_layout(width);
    let card_width: u16 = if layout.min_card_width < 1 {
        1
    } else {
        layout.min_card_width
    };
    let ghost all = lines_of_cards(cards@);
    let mut specs: Vec<CardSpec> = Vec::new();
    let mut rest = cards;
    let mut i: usize = 0;
    while i < 6
        invariant
            i <= 6,
            all.len() == 6,
            rest@.len() == 6 - i,
            specs@.len() == i,
            all == lines_of_cards(cards@),
            forall|k: int| 0 <= k < rest@.len() ==> rest@[k] == cards@[i + k],
            forall|k: int| 0 <= k < i ==> views((#[trigger] specs@[k]).lines@) == all[k],
        decreases 6 - i,
    {
        let c = rest.remove(0);
        assert(c == cards@[i as int]);
        specs.push(c.card);
        i += 1;
    }
    assert(card_views(specs@) =~= all);
    let mut out: Vec<u16> = Vec::new();
    if layout.columns == 6 {
        assert(all.subrange(0, 6) =~= all);
        out.push(row_height(&specs, 0, 6, card_width));
    } else {
        out.push(row_height(&specs, 0, 3, card_width));
        out.push(row_height(&specs, 3, 6, card_width));
    }
    assert(out@.map_values(|h: u16| h as int) =~= row_heights(
        all,
        if width >= 180 {
            6
        } else {
            3
        },
        card_width as nat,
    ));
    out
}

/// The width of the narrowest card.
pub open spec fn card_cells(width: u16) -> int {
    if width >= 180 {
        sat16(width * 16) / 100
    } else {
        sat16(width * 33) / 100
    }
}

/// The height of all rows of cards.
pub fn usage_cards_height(heights: &Vec<u16>) -> (r: u16)
    ensures
        r == total_height(heights@),
{
    let mut total: u16 = 0;
    let mut i: usize = 0;
    assert(heights@.take(0) =~= Seq::<u16>::empty());
    while i < heights.len()
        invariant
            i <= heights@.len(),
            total == total_height(heights@.take(i as int)),
        decreases heights@.len() - i,
    {
        let ghost next = heights@.take(i + 1);
        assert(next.drop_last() =~= heights@.take(i as int));
        total = total.saturating_add(heights[i]);
        i += 1;
    }
    assert(heights@.take(i as int) =~= heights@);
    total
}

/// The height of all rows of cards.
pub open spec fn total_height(heights: Seq<u16>) -> int
    decreases heights.len(),
{
    if heights.len() == 0 {
        0
    } else {
        sat16(total_height(heights.drop_last()) + heights.last())
    }
}

/// What the cards of a row want, from left to right: six cards in one row, three in each of two.
pub fn card_shares(one_row: bool) -> (r: Vec<Share>)
    ensures
        r@ == (if one_row {
            seq![
                Share::Percentage(17),
                Share::Percentage(17),
                Share::Percentage(17),
                Share::Percentage(17),
                Share::Percentage(16),
                Share::Percentage(16),
            ]
        } else {
            seq![Share::Percentage(34), Share::Percentage(33), Share::Percentage(33)]
        }),
{
    let mut shares: Vec<Share> = Vec::new();
    if one_row {
        shares.push(Share::Percentage(17));
        shares.push(Share::Percentage(17));
        shares.push(Share::Percentage(17));
        shares.push(Share::Percentage(17));
        shares.push(Share::Percentage(16));
        shares.push(Share::Percentage(16));
    } else {
        shares.push(Share::Percentage(34));
        shares.push(Share::Percentage(33));
        shares.push(Share::Percentage(33));
    }
    shares
}

/// The percentage of a row at which a card begins; the one after the last card is where it ends.
pub open spec fn card_start(one_row: bool, i: int) -> int {
    if one_row {
        if i <= 4 {
            17 * i
        } else {
            4 * 17 + 16 * (i - 4)
        }
    } else if i <= 0 {
        0
    } else {
        34 + 33 * (i - 1)
    }
}

/// A card stands in its row: it begins and ends at the cells nearest to its percentages.
pub open spec fn in_its_row(r: Rect, area: Rect, one_row: bool, i: int) -> bool {
    &&& r.x == percent_cell(area.x as int, area.width as int, card_start(one_row, i))
    &&& r.x + r.width == percent_cell(
        area.x as int,
        area.width as int,
        card_start(one_row, i + 1),
    )
}

/// Where the six cards stand: in one row, or in two rows of three. The cards of a row are equally
/// high and stand side by side. Two rows that fit are as high as they want and lie one below the
/// other; else their heights are left to the layout.
pub fn card_areas(area: Rect, heights: &Vec<u16>) -> (r: Vec<Rect>)
    requires
        heights@.len() > 0,
    ensures
        r@.len() == 6,
        forall|i: int| 0 <= i < 6 ==> lies_in(#[trigger] r@[i], area),
        heights@.len() == 1 ==> forall|i: int|
            0 <= i < 6 ==> (#[trigger] r@[i]).y == area.y && r@[i].height == area.height,
        forall|i: int|
            0 <= i < 3 ==> (#[trigger] r@[i]).y == r@[0].y && r@[i].height == r@[0].height,
        forall|i: int|
            3 <= i < 6 ==> (#[trigger] r@[i]).y == r@[3].y && r@[i].height == r@[3].height,
        area.x + area.width <= u16::MAX ==> forall|i: int|
            0 <= i < 6 ==> in_its_row(
                #[trigger] r@[i],
                area,
                heights@.len() == 1,
                if heights@.len() == 1 {
                    i
                } else {
                    i % 3
                },
            ),
        area.y + area.height <= u16::MAX && heights@.len() > 1 && heights@[0] + heights@[1]
            <= area.height ==> {
            &&& r@[0].y == area.y && r@[0].height == heights@[0]
            &&& r@[3].y == area.y + heights@[0] && r@[3].height == heights@[1]
        },
{
    let shares = card_shares(heights.len() == 1);
    proof {
        reveal_with_fuel(percents, 7);
        reveal_with_fuel(demands, 3);
        reveal_with_fuel(extents, 3);
    }
    assert(all_percentages(shares@));
    if heights.len() == 1 {
        return split_columns(area, &shares);
    }
    let mut rows: Vec<Share> = Vec::new();
    rows.push(Share::Length(heights[0]));
    rows.push(Share::Length(heights[1]));
    assert(heights@[0] + heights@[1] <= area.height ==> all_fit(rows@, area.height as int));
    let areas = split_rows(area, &rows);
    let top = split_columns(areas[0], &shares);
    let bottom = split_columns(areas[1], &shares);
    let mut out: Vec<Rect> = Vec::new();
    out.push(top[0]);
    out.push(top[1]);
    out.push(top[2]);
    out.push(bottom[0]);
    out.push(bottom[1]);
    out.push(bottom[2]);
    assert(lies_in(areas@[0], area) && lies_in(areas@[1], area));
    out
}

} // verus!
