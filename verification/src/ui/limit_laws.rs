//! What the lines of the limits card say of the limits that they stand for.

use crate::calendar::{real_date, Date};
use crate::clock::{epoch_millis, in_every_zone, is_moment_of, same_day, Moment};
use crate::codex_rpc::account::{
    AccountRateLimits, RateLimitSnapshot, RateLimitWindow, SpendControlLimitSnapshot,
};
use crate::locale::{reset_date, time_text, DisplayFormatter};
use crate::decimal::digits;
use crate::rounding::{is_natural, sixty_minutes_are_an_hour, whole_numbers_stay};
use crate::text::{middle_cut, opt_view, trimmed};
use crate::ui::limits::{
    bucket_label, bucket_window, card_lines, classified, credits_line, extra_line, first_other,
    first_spend, first_with_windows, has_windows, is_head, limit_line, moments_fit, percent_text,
    rolling_lines, short_label_text, shown_spend, shown_windows, spend_lines, tidy, weekly,
    window_text, LimitMoments,
};
use vstd::prelude::*;

verus! {

/// A text begins with another.
pub open spec fn opens_with(s: Seq<char>, head: Seq<char>) -> bool {
    s.len() >= head.len() && s.take(head.len() as int) == head
}

/// A text ends in another.
pub open spec fn closes_with(s: Seq<char>, tail: Seq<char>) -> bool {
    s.len() >= tail.len() && s.skip(s.len() - tail.len()) == tail
}

/// A line tells when its limit resets: in full the time of day and, unless it is today, the day
/// behind it; in short the one of the two that matters.
pub open spec fn tells_reset(
    f: DisplayFormatter,
    line: Seq<char>,
    at: Moment,
    today: Date,
    compact: bool,
) -> bool {
    if compact {
        closes_with(
            line,
            " | "@ + (if same_day(at.date, today) {
                time_text(f, at.time)
            } else {
                reset_date(f, at.date)
            }),
        )
    } else if same_day(at.date, today) {
        closes_with(line, " (resets "@ + time_text(f, at.time) + ")"@)
    } else {
        closes_with(
            line,
            " (resets "@ + time_text(f, at.time) + ", "@ + reset_date(f, at.date) + ")"@,
        )
    }
}

proof fn lemma_reset_words()
    ensures
        " (resets "@ == " ("@ + "resets "@,
{
    reveal_strlit(" (resets ");
    reveal_strlit(" (");
    reveal_strlit("resets ");
    assert(" (resets "@ =~= " ("@ + "resets "@);
}

proof fn lemma_closes(head: Seq<char>, tail: Seq<char>)
    ensures
        closes_with(head + tail, tail),
{
    assert((head + tail).skip(head.len() as int) =~= tail);
}

/// The line of a window tells the moment that it was given.
proof fn lemma_line_tells(
    f: DisplayFormatter,
    label: Seq<char>,
    w: RateLimitWindow,
    at: Moment,
    today: Date,
    compact: bool,
)
    ensures
        tells_reset(f, limit_line(f, label, Some(w), Some(at), today, compact), at, today, compact),
{
    lemma_reset_words();
    let line = limit_line(f, label, Some(w), Some(at), today, compact);
    let part = crate::ui::limits::reset_part(f, Some(at), today, compact);
    let head = if compact {
        crate::ui::limits::without_suffix(crate::ui::limits::without_colons(label), " limit"@)
            + ": "@ + percent_text(w.used_percent)
    } else {
        crate::ui::limits::left_aligned(label, crate::ui::limits::LABEL_WIDTH as nat)
            + percent_text(w.used_percent)
    };
    assert(line =~= head + part);
    lemma_closes(head, part);
    if !compact {
        if same_day(at.date, today) {
            assert(part =~= " (resets "@ + time_text(f, at.time) + ")"@);
        } else {
            assert(part =~= " (resets "@ + time_text(f, at.time) + ", "@ + reset_date(f, at.date)
                + ")"@);
        }
    }
}

/// With both windows there, the first line tells when the short window resets and the second when
/// the weekly one does. With the weekly one alone, its line is the first.
pub proof fn windows_tell_their_own_resets(
    f: DisplayFormatter,
    short: Option<RateLimitWindow>,
    long: Option<RateLimitWindow>,
    m: LimitMoments,
    compact: bool,
)
    ensures
        ({
            let lines = rolling_lines(f, (short, long), m, compact);
            &&& short is Some && m.short is Some ==> tells_reset(
                f,
                lines.0,
                m.short->0,
                m.today,
                compact,
            )
            &&& short is Some && long is Some && m.weekly is Some ==> tells_reset(
                f,
                lines.1,
                m.weekly->0,
                m.today,
                compact,
            )
            &&& short is None && long is Some && m.weekly is Some ==> tells_reset(
                f,
                lines.0,
                m.weekly->0,
                m.today,
                compact,
            )
        }),
{
    if short is Some && m.short is Some {
        lemma_line_tells(
            f,
            crate::ui::limits::short_label_text(short),
            short->0,
            m.short->0,
            m.today,
            compact,
        );
    }
    if long is Some && m.weekly is Some {
        lemma_line_tells(
            f,
            crate::ui::limits::weekly_label_text(compact),
            long->0,
            m.weekly->0,
            m.today,
            compact,
        );
    }
}

/// What becomes of one window leaves the line of the other as it is: when the weekly window resets
/// and how much of it is used do not show in the line of the short one, nor the other way round.
pub proof fn windows_do_not_mix(
    f: DisplayFormatter,
    short: RateLimitWindow,
    long: RateLimitWindow,
    other_short: RateLimitWindow,
    other_long: RateLimitWindow,
    m: LimitMoments,
    at: Option<Moment>,
    compact: bool,
)
    ensures
        ({
            let lines = rolling_lines(f, (Some(short), Some(long)), m, compact);
            let weekly_changed = rolling_lines(
                f,
                (Some(short), Some(other_long)),
                LimitMoments { weekly: at, ..m },
                compact,
            );
            let short_changed = rolling_lines(
                f,
                (Some(other_short), Some(long)),
                LimitMoments { short: at, ..m },
                compact,
            );
            &&& weekly_changed.0 == lines.0
            &&& short_changed.1 == lines.1
        }),
{
}

/// The line of a window shows what is left of that window: right behind its label.
pub proof fn windows_show_what_is_left(
    f: DisplayFormatter,
    short: RateLimitWindow,
    long: RateLimitWindow,
    m: LimitMoments,
)
    requires
        m.short is None,
        m.weekly is None,
    ensures
        closes_with(
            rolling_lines(f, (Some(short), Some(long)), m, false).0,
            percent_text(short.used_percent),
        ),
        closes_with(
            rolling_lines(f, (Some(short), Some(long)), m, false).1,
            percent_text(long.used_percent),
        ),
        closes_with(
            rolling_lines(f, (Some(short), Some(long)), m, true).0,
            percent_text(short.used_percent),
        ),
        closes_with(
            rolling_lines(f, (Some(short), Some(long)), m, true).1,
            percent_text(long.used_percent),
        ),
        opens_with(rolling_lines(f, (Some(short), Some(long)), m, false).1, "Weekly:"@),
        opens_with(rolling_lines(f, (Some(short), Some(long)), m, true).1, "7d: "@),
        opens_with(rolling_lines(f, (None, Some(long)), m, false).0, "Weekly:"@),
        opens_with(rolling_lines(f, (None, Some(long)), m, false).1, "5h limit:"@),
{
    reveal_strlit("Weekly:");
    reveal_strlit("7d:");
    reveal_strlit("7d: ");
    reveal_strlit(": ");
    reveal_strlit(" limit");
    reveal_strlit("5h limit:");
    let a = percent_text(short.used_percent);
    let b = percent_text(long.used_percent);
    let wide = rolling_lines(f, (Some(short), Some(long)), m, false);
    let slim = rolling_lines(f, (Some(short), Some(long)), m, true);
    let width = crate::ui::limits::LABEL_WIDTH as nat;
    let label = crate::ui::limits::short_label_text(Some(short));
    let none = Seq::<char>::empty();
    let h0 = crate::ui::limits::left_aligned(label, width);
    let h1 = crate::ui::limits::left_aligned("Weekly:"@, width);
    assert(wide.0 =~= h0 + a);
    assert(wide.1 =~= h1 + b);
    lemma_closes(h0, a);
    lemma_closes(h1, b);
    let g0 = crate::ui::limits::without_suffix(
        crate::ui::limits::without_colons(label),
        " limit"@,
    ) + ": "@;
    let cut = crate::ui::limits::without_colons("7d:"@);
    reveal_with_fuel(crate::ui::limits::without_colons, 2);
    assert("7d:"@.drop_last() =~= seq!['7', 'd']);
    assert(cut =~= seq!['7', 'd']);
    let g1 = cut + ": "@;
    assert(slim.0 =~= g0 + a);
    assert(slim.1 =~= g1 + b);
    lemma_closes(g0, a);
    lemma_closes(g1, b);
    assert(slim.1.take(4) =~= "7d: "@);
    assert(wide.1.take(7) =~= "Weekly:"@);
    let alone = rolling_lines(f, (None, Some(long)), m, false);
    assert(alone.0.take(7) =~= "Weekly:"@);
    assert(alone.1.take(9) =~= "5h limit:"@);
}

/// A point in time that is given in seconds or milliseconds is shown at its own moment.
pub open spec fn shown_at(at: i64, m: Option<Moment>) -> bool {
    let ms = if 0 < at < 1_000_000_000_000 {
        at * 1000
    } else {
        at as int
    };
    in_every_zone(ms) ==> m is Some && is_moment_of(ms, m->0)
}

/// The moments that the card shows are those of the limits' own points in time.
pub proof fn moments_are_those_of_the_limits(l: AccountRateLimits, m: LimitMoments)
    requires
        moments_fit(l, m),
    ensures
        shown_windows(l).0 is Some && shown_windows(l).0->0.resets_at is Some ==> shown_at(
            shown_windows(l).0->0.resets_at->0,
            m.short,
        ),
        shown_windows(l).1 is Some && shown_windows(l).1->0.resets_at is Some ==> shown_at(
            shown_windows(l).1->0.resets_at->0,
            m.weekly,
        ),
        l.individual_limit is Some && l.individual_limit->0.resets_at is Some ==> shown_at(
            l.individual_limit->0.resets_at->0,
            m.monthly,
        ),
        shown_windows(l).0 is None ==> m.short is None,
        shown_windows(l).1 is None ==> m.weekly is None,
        shown_windows(l).0 is Some && shown_windows(l).0->0.resets_at is None ==> m.short is None,
        shown_windows(l).1 is Some && shown_windows(l).1->0.resets_at is None ==> m.weekly is None,
{
}

/// The windows at the head of the limits are the ones that the card shows; those of the sets stand
/// in only where the head has none, the first set that has one before the others.
pub proof fn windows_of_the_head_come_first(l: AccountRateLimits, i: int)
    ensures
        l.primary is Some && l.secondary is Some && !weekly(l.primary->0) ==> shown_windows(l) == (
            l.primary,
            l.secondary,
        ),
        l.primary is Some && l.secondary is Some && weekly(l.primary->0) && !weekly(
            l.secondary->0,
        ) ==> shown_windows(l) == (l.secondary, l.primary),
        l.primary is None && l.secondary is None && 0 <= i < l.buckets@.len() && has_windows(
            l.buckets@[i],
        ) && (forall|k: int| 0 <= k < i ==> !has_windows(#[trigger] l.buckets@[k]))
            ==> shown_windows(l) == classified(l.buckets@[i].primary, l.buckets@[i].secondary),
        l.primary is None && l.secondary is None && (forall|k: int|
            0 <= k < l.buckets@.len() ==> !has_windows(#[trigger] l.buckets@[k]))
            ==> shown_windows(l) == (None::<RateLimitWindow>, None::<RateLimitWindow>),
{
    if 0 <= i < l.buckets@.len() && has_windows(l.buckets@[i]) && (forall|k: int|
        0 <= k < i ==> !has_windows(#[trigger] l.buckets@[k])) {
        lemma_first_with_windows(l.buckets@, i);
    }
    if forall|k: int| 0 <= k < l.buckets@.len() ==> !has_windows(#[trigger] l.buckets@[k]) {
        lemma_no_windows(l.buckets@);
    }
}

proof fn lemma_first_with_windows(s: Seq<RateLimitSnapshot>, i: int)
    requires
        0 <= i < s.len(),
        has_windows(s[i]),
        forall|k: int| 0 <= k < i ==> !has_windows(#[trigger] s[k]),
    ensures
        first_with_windows(s) == Some(s[i]),
    decreases i,
{
    if i > 0 {
        assert(!has_windows(s[0]));
        assert forall|k: int| 0 <= k < i - 1 implies !has_windows(#[trigger] s.skip(1)[k]) by {
            assert(s.skip(1)[k] == s[k + 1]);
        }
        lemma_first_with_windows(s.skip(1), i - 1);
    }
}

proof fn lemma_no_windows(s: Seq<RateLimitSnapshot>)
    requires
        forall|k: int| 0 <= k < s.len() ==> !has_windows(#[trigger] s[k]),
    ensures
        first_with_windows(s) is None,
    decreases s.len(),
{
    if s.len() > 0 {
        assert(!has_windows(s[0]));
        assert forall|k: int| 0 <= k < s.skip(1).len() implies !has_windows(
            #[trigger] s.skip(1)[k],
        ) by {
            assert(s.skip(1)[k] == s[k + 1]);
        }
        lemma_no_windows(s.skip(1));
    }
}

proof fn lemma_first_spend(s: Seq<RateLimitSnapshot>, i: int)
    requires
        0 <= i < s.len(),
        s[i].individual_limit is Some,
        forall|k: int| 0 <= k < i ==> (#[trigger] s[k]).individual_limit is None,
    ensures
        first_spend(s) == s[i].individual_limit,
    decreases i,
{
    if i > 0 {
        assert(s[0].individual_limit is None);
        assert forall|k: int| 0 <= k < i - 1 implies (#[trigger] s.skip(1)[k]).individual_limit
            is None by {
            assert(s.skip(1)[k] == s[k + 1]);
        }
        lemma_first_spend(s.skip(1), i - 1);
    }
}

/// The limit on spending that the card shows is the one at the head, and else that of the first
/// set that has one.
pub proof fn spending_of_the_head_comes_first(l: AccountRateLimits, i: int)
    ensures
        l.individual_limit is Some ==> shown_spend(l) == l.individual_limit,
        l.individual_limit is None && 0 <= i < l.buckets@.len()
            && l.buckets@[i].individual_limit is Some && (forall|k: int|
            0 <= k < i ==> (#[trigger] l.buckets@[k]).individual_limit is None) ==> shown_spend(l)
            == l.buckets@[i].individual_limit,
{
    if 0 <= i < l.buckets@.len() && l.buckets@[i].individual_limit is Some && (forall|k: int|
        0 <= k < i ==> (#[trigger] l.buckets@[k]).individual_limit is None) {
        lemma_first_spend(l.buckets@, i);
    }
}

proof fn lemma_first_other(l: AccountRateLimits, s: Seq<RateLimitSnapshot>, i: int)
    requires
        0 <= i < s.len(),
        !is_head(l, s[i]),
        forall|k: int| 0 <= k < i ==> is_head(l, #[trigger] s[k]),
    ensures
        first_other(l, s) == Some(s[i]),
    decreases i,
{
    if i > 0 {
        assert(is_head(l, s[0]));
        assert forall|k: int| 0 <= k < i - 1 implies is_head(l, #[trigger] s.skip(1)[k]) by {
            assert(s.skip(1)[k] == s[k + 1]);
        }
        lemma_first_other(l, s.skip(1), i - 1);
    }
}

/// The further line is that of the first set whose identifier is not the one at the head; it tells
/// when that set's own window resets.
pub proof fn further_line_is_of_another_set(
    f: DisplayFormatter,
    l: AccountRateLimits,
    m: LimitMoments,
    compact: bool,
    i: int,
)
    requires
        l.limit_id is Some,
        0 <= i < l.buckets@.len(),
        opt_view(l.buckets@[i].limit_id) != opt_view(l.limit_id),
        forall|k: int|
            0 <= k < i ==> opt_view((#[trigger] l.buckets@[k]).limit_id) == opt_view(l.limit_id),
    ensures
        extra_line(f, l, m, compact) is Some <==> l.buckets@[i].primary is Some
            || l.buckets@[i].secondary is Some,
        extra_line(f, l, m, compact) is Some && m.extra is Some ==> tells_reset(
            f,
            extra_line(f, l, m, compact)->0,
            m.extra->0,
            m.today,
            compact,
        ),
        moments_fit(l, m) && l.buckets@[i].primary is Some && l.buckets@[i].primary->0.resets_at
            is Some ==> shown_at(l.buckets@[i].primary->0.resets_at->0, m.extra),
{
    let b = l.buckets@[i];
    assert forall|k: int| 0 <= k < i implies is_head(l, #[trigger] l.buckets@[k]) by {}
    lemma_first_other(l, l.buckets@, i);
    if bucket_window(b) is Some && m.extra is Some {
        lemma_line_tells(
            f,
            crate::ui::limits::bucket_label(b),
            bucket_window(b)->0,
            m.extra->0,
            m.today,
            compact,
        );
    }
}

/// The first line of a limit on spending tells when it resets, and the second what is used of how
/// much: used before the limit.
pub proof fn spending_tells_its_own_reset(
    f: DisplayFormatter,
    l: AccountRateLimits,
    s: SpendControlLimitSnapshot,
    m: LimitMoments,
    compact: bool,
)
    requires
        l.individual_limit == Some(s),
    ensures
        spend_lines(f, l, m, compact) is Some,
        m.monthly is Some ==> tells_reset(
            f,
            (spend_lines(f, l, m, compact)->0).0,
            m.monthly->0,
            m.today,
            compact,
        ),
        opens_with((spend_lines(f, l, m, compact)->0).0, "Monthly:  "@),
        (spend_lines(f, l, m, compact)->0).1 == "Credits:  "@ + (match s.used {
            Some(t) => crate::ui::limits::opt_amount(f, Some(t@)),
            None => "--"@,
        }) + "/"@ + (match s.limit {
            Some(t) => crate::ui::limits::opt_amount(f, Some(t@)),
            None => "--"@,
        }) + " used"@,
{
    lemma_reset_words();
    reveal_strlit("Monthly:");
    reveal_strlit("Monthly:  ");
    reveal_strlit("Credits:");
    reveal_strlit("Credits:  ");
    let lines = spend_lines(f, l, m, compact)->0;
    let width = crate::ui::limits::LABEL_WIDTH as nat;
    let head = crate::ui::limits::left_aligned("Monthly:"@, width)
        + crate::ui::limits::remaining_text(s.remaining_percent);
    let part = crate::ui::limits::reset_part(f, m.monthly, m.today, compact);
    assert(lines.0 =~= head + part);
    lemma_closes(head, part);
    if m.monthly is Some && !compact {
        let at = m.monthly->0;
        if same_day(at.date, m.today) {
            assert(part =~= " (resets "@ + time_text(f, at.time) + ")"@);
        } else {
            assert(part =~= " (resets "@ + time_text(f, at.time) + ", "@ + reset_date(f, at.date)
                + ")"@);
        }
    }
    assert(crate::ui::limits::left_aligned("Monthly:"@, width) =~= "Monthly:  "@);
    assert(crate::ui::limits::left_aligned("Credits:"@, width) =~= "Credits:  "@);
    assert(lines.0.take(10) =~= "Monthly:  "@);
}

/// The card shows both windows whatever else it shows, a limit on spending before them and the
/// credits only without one, at the end.
pub proof fn card_holds_the_lines_of_all_limits(
    f: DisplayFormatter,
    l: AccountRateLimits,
    m: LimitMoments,
    compact: bool,
)
    ensures
        ({
            let card = card_lines(f, l, m, compact);
            let (first, second) = rolling_lines(f, shown_windows(l), m, compact);
            &&& 3 <= card.len() <= 4
            &&& l.individual_limit is Some ==> card.len() == 4 && card[2] == first && card[3]
                == second && card[0] == (spend_lines(f, l, m, compact)->0).0 && card[1]
                == (spend_lines(f, l, m, compact)->0).1
            &&& shown_spend(l) is None ==> card[0] == first && card[1] == second && (card.len()
                == 4 <==> extra_line(f, l, m, compact) is Some) && (credits_line(f, l) is Some
                ==> card.last() == credits_line(f, l)->0) && (credits_line(f, l) is None
                ==> card.last() == "Credits:  --"@) && (card.len() == 4 ==> card[2]
                == extra_line(f, l, m, compact)->0)
        }),
{
}

/// Credits show where the account has any: an unlimited account says so, one with a balance shows
/// it, and an account without credits shows none whatever its balance.
pub proof fn credits_show_where_there_are_any(f: DisplayFormatter, l: AccountRateLimits)
    ensures
        l.credits is None ==> credits_line(f, l) is None,
        l.credits is Some && !l.credits->0.has_credits ==> credits_line(f, l) is None,
        l.credits is Some && l.credits->0.has_credits && l.credits->0.unlimited ==> credits_line(
            f,
            l,
        ) == Some("Credits:  Unlimited"@),
        l.credits is Some && l.credits->0.has_credits && !l.credits->0.unlimited
            && l.credits->0.balance is None ==> credits_line(f, l) is None,
        credits_line(f, l) is Some && !l.credits->0.unlimited ==> closes_with(
            credits_line(f, l)->0,
            " credits"@,
        ),
{
    reveal_strlit("Credits:");
    reveal_strlit("Unlimited");
    reveal_strlit("Credits:  Unlimited");
    let head = crate::ui::limits::left_aligned("Credits:"@, crate::ui::limits::LABEL_WIDTH as nat);
    assert(head + "Unlimited"@ =~= "Credits:  Unlimited"@);
    if credits_line(f, l) is Some && !l.credits->0.unlimited {
        let line = credits_line(f, l)->0;
        assert(line.skip(line.len() - " credits"@.len()) =~= " credits"@);
    }
}

/// A set of limits has windows where it has either of them.
pub proof fn sets_with_either_window_are_shown(b: RateLimitSnapshot)
    ensures
        b.primary is Some ==> has_windows(b),
        b.secondary is Some ==> has_windows(b),
        b.primary is None && b.secondary is None ==> !has_windows(b),
{
}

/// A set belongs to the head where the two have the same identifier; where the head has none, where
/// the two have the same name.
pub proof fn sets_belong_to_the_head_by_identifier(l: AccountRateLimits, b: RateLimitSnapshot)
    ensures
        l.limit_id is Some && b.limit_id is Some ==> (is_head(l, b) <==> l.limit_id->0@
            == b.limit_id->0@),
        l.limit_id is Some && b.limit_id is None ==> !is_head(l, b),
        l.limit_id is None && l.limit_name is Some && b.limit_name is Some ==> (is_head(l, b)
            <==> l.limit_name->0@ == b.limit_name->0@),
        l.limit_id is None && l.limit_name is None ==> !is_head(l, b),
{
}

/// A window of whole minutes is a weekly one from six days on; a window without a length is not.
pub proof fn windows_of_days_are_weekly(w: RateLimitWindow, bits: u64, n: nat)
    requires
        is_natural(bits, n),
    ensures
        w.window_duration_mins == Some(bits) ==> (weekly(w) <==> n >= 6 * 24 * 60),
        w.window_duration_mins is None ==> !weekly(w),
{
    let (m, e) = crate::double::parts(bits);
    if e < 0 {
        crate::double::lemma_two_to((-e) as nat);
        let p = crate::double::two_to((-e) as nat);
        assert(n >= 8640 ==> n * p >= 8640 * p) by (nonlinear_arith)
            requires
                p >= 1,
        ;
        assert(n < 8640 ==> n * p < 8640 * p) by (nonlinear_arith)
            requires
                p >= 1,
        ;
    }
}

/// A head with one window shows it in its place and nothing from the sets in the other's.
pub proof fn heads_with_one_window_show_no_other(l: AccountRateLimits)
    ensures
        l.primary is Some && l.secondary is None && !weekly(l.primary->0) ==> shown_windows(l) == (
            l.primary,
            None::<RateLimitWindow>,
        ),
        l.primary is Some && l.secondary is None && weekly(l.primary->0) ==> shown_windows(l) == (
            None::<RateLimitWindow>,
            l.primary,
        ),
        l.primary is None && l.secondary is Some ==> shown_windows(l) == (
            None::<RateLimitWindow>,
            l.secondary,
        ),
        l.primary is Some && l.secondary is Some && weekly(l.primary->0) && weekly(l.secondary->0)
            ==> shown_windows(l) == (None::<RateLimitWindow>, l.primary),
{
}

/// Two dates of the calendar are the same day exactly where they are the same date.
pub proof fn same_days_are_same_dates(a: Date, b: Date)
    requires
        real_date(a),
        real_date(b),
    ensures
        same_day(a, b) <==> a == b,
{
}

proof fn lemma_reaches_natural(bits: u64, n: nat, k: nat)
    requires
        is_natural(bits, n),
    ensures
        crate::double::reaches(bits, k) <==> n >= k,
{
    let (m, e) = crate::double::parts(bits);
    if e < 0 {
        crate::double::lemma_two_to((-e) as nat);
        let p = crate::double::two_to((-e) as nat);
        assert(n >= k ==> n * p >= k * p) by (nonlinear_arith)
            requires
                p >= 1,
        ;
        assert(n < k ==> n * p < k * p) by (nonlinear_arith)
            requires
                p >= 1,
        ;
    }
}

/// The length of a window is told in hours from an hour on and in minutes below; a window of no
/// length tells none, and its line is that of five hours.
pub proof fn windows_are_named_by_their_length(w: RateLimitWindow, bits: u64, n: nat)
    requires
        is_natural(bits, n),
        n < 0x1_0000_0000,
    ensures
        0 < n < 60 ==> window_text(bits) == Some(digits(n) + "m"@),
        n >= 60 && n % 60 == 0 ==> window_text(bits) == Some(digits((n / 60) as nat) + "h"@),
        n == 0 ==> window_text(bits) is None,
        w.window_duration_mins == Some(bits) && n > 0 ==> short_label_text(Some(w)) == window_text(
            bits,
        )->0 + " limit:"@,
        short_label_text(None) == "5h limit:"@,
        w.window_duration_mins is None ==> short_label_text(Some(w)) == "5h limit:"@,
{
    lemma_reaches_natural(bits, n, 1);
    lemma_reaches_natural(bits, n, 60);
    whole_numbers_stay(bits, n);
    if n % 60 == 0 {
        assert(n == 60 * (n / 60));
        sixty_minutes_are_an_hour(bits, (n / 60) as nat);
    }
}

/// The line of a further set is named by the set's name, and by its identifier where it has no name;
/// it is a line of others where neither says anything.
pub proof fn further_sets_are_named(b: RateLimitSnapshot, c: RateLimitSnapshot)
    ensures
        b.limit_name is Some && c.limit_name is Some && b.limit_name->0@ == c.limit_name->0@
            ==> bucket_label(b) == bucket_label(c),
        b.limit_name is None && c.limit_name is Some && b.limit_id is Some && b.limit_id->0@
            == c.limit_name->0@ ==> bucket_label(b) == bucket_label(c),
        b.limit_name is Some && !opens_with(trimmed(b.limit_name->0@), "GPT-"@) && tidy(
            trimmed(b.limit_name->0@),
        ).len() > 0 ==> bucket_label(b) == middle_cut(tidy(trimmed(b.limit_name->0@)), 9) + ":"@,
        b.limit_name is Some && tidy(trimmed(b.limit_name->0@)).len() == 0 && !opens_with(
            trimmed(b.limit_name->0@),
            "GPT-"@,
        ) ==> bucket_label(b) == "Other:"@,
        closes_with(bucket_label(b), ":"@),
{
    reveal_strlit("Other:");
    reveal_strlit(":");
    assert("Other:"@.skip(5) =~= ":"@);
    let l = bucket_label(b);
    assert(l.skip(l.len() - 1) =~= ":"@);
}

} // verus!
