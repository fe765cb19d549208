//! Credits that reset limits.

use crate::app::state::sat16;
use crate::calendar::Date;
use crate::clock::{
    calendar_moment, is_same_day, local_today, opt_moment_at, opt_moment_fits, same_day,
    Moment,
};
use crate::codex_rpc::account::{AccountRateLimits, RateLimitResetCredit};
use crate::decimal::{decimal, digits};
use crate::locale::{number_text, reset_date, time_text, DisplayFormatter};
use crate::text::{is_blank, opt_view, trimmed};
use crate::ui::wrap::{wrapped_line_count, wrapped_lines};
use crate::usage::format::at_least_zero;
use vstd::prelude::*;

verus! {

/// The earliest time at which one of the credits expires.
pub open spec fn earliest(credits: Seq<RateLimitResetCredit>) -> Option<i64>
    decreases credits.len(),
{
    if credits.len() == 0 {
        None
    } else {
        let before = earliest(credits.drop_last());
        match (before, credits.last().expires_at) {
            (Some(a), Some(b)) => if b < a {
                Some(b)
            } else {
                Some(a)
            },
            (None, b) => b,
            (a, None) => a,
        }
    }
}

/// The earliest time is that of a credit, and no credit expires before it.
pub proof fn earliest_is_first(credits: Seq<RateLimitResetCredit>)
    ensures
        earliest(credits) is Some ==> exists|i: int|
            0 <= i < credits.len() && (#[trigger] credits[i]).expires_at == earliest(credits),
        forall|i: int|
            0 <= i < credits.len() && (#[trigger] credits[i]).expires_at is Some ==> earliest(
                credits,
            ) is Some && earliest(credits)->0 <= credits[i].expires_at->0,
    decreases credits.len(),
{
    if credits.len() > 0 {
        let init = credits.drop_last();
        earliest_is_first(init);
        if earliest(init) is Some && earliest(credits) == earliest(init) {
            let k = choose|i: int|
                0 <= i < init.len() && (#[trigger] init[i]).expires_at == earliest(init);
            assert(credits[k].expires_at == earliest(credits));
        } else if earliest(credits) is Some {
            assert(credits[credits.len() - 1].expires_at == earliest(credits));
        }
        assert forall|i: int|
            0 <= i < credits.len() && (#[trigger] credits[i]).expires_at is Some implies earliest(
            credits,
        ) is Some && earliest(credits)->0 <= credits[i].expires_at->0 by {
            if i < init.len() {
                assert(init[i] == credits[i]);
            }
        }
    }
}

/// The earliest time at which one of the credits expires.
pub fn earliest_expiry(credits: &Vec<RateLimitResetCredit>) -> (r: Option<i64>)
    ensures
        r == earliest(credits@),
{
    let mut best: Option<i64> = None;
    let mut i: usize = 0;
    assert(credits@.take(0) =~= Seq::<RateLimitResetCredit>::empty());
    while i < credits.len()
        invariant
            i <= credits@.len(),
            best == earliest(credits@.take(i as int)),
        decreases credits@.len() - i,
    {
        let ghost next = credits@.take(i + 1);
        assert(next.drop_last() =~= credits@.take(i as int));
        assert(next.last() == credits@[i as int]);
        best = match (best, credits[i].expires_at) {
            (Some(a), Some(b)) => if b < a {
                Some(b)
            } else {
                Some(a)
            },
            (None, b) => b,
            (a, None) => a,
        };
        i += 1;
    }
    assert(credits@.take(i as int) =~= credits@);
    best
}

/// The earliest time at which a listed credit expires.
pub open spec fn listed_expiry(l: AccountRateLimits) -> Option<i64> {
    match l.reset_credits {
        Some(credits) => earliest(credits@),
        None => None,
    }
}

/// A moment in words.
pub open spec fn moment_text(f: DisplayFormatter, m: Moment) -> Seq<char> {
    reset_date(f, m.date) + seq![',', ' '] + time_text(f, m.time)
}

/// How many reset credits there are and when the first one expires.
pub open spec fn summary_text(f: DisplayFormatter, available: int, expiry: Option<Moment>) -> Seq<
    char,
> {
    let count = "Resets: "@ + number_text(f, at_least_zero(available)) + " available"@;
    match expiry {
        Some(m) => count + " | earliest expires "@ + moment_text(f, m),
        None => count,
    }
}

/// How many reset credits there are and when the first one expires.
pub fn reset_summary_at(available: i64, expiry: Option<Moment>, formatter: DisplayFormatter) -> (r:
    String)
    requires
        calendar_moment(expiry),
    ensures
        r@ == summary_text(formatter, available as int, expiry),
{
    let mut text = "Resets: ".to_owned();
    text.append(formatter.format_count(available).as_str());
    text.append(" available");
    if let Some(m) = expiry {
        text.append(" | earliest expires ");
        text.append(formatter.format_reset_datetime(m.date, m.time).as_str());
    }
    text
}

/// How many reset credits there are and when the first one expires, in the machine's time zone;
/// none where their number is not known. Which zone that is, is left open.
pub fn reset_summary_for_limits(limits: &AccountRateLimits, formatter: DisplayFormatter) -> (r:
    Option<String>)
    ensures
        match limits.reset_credits_available {
            Some(available) => r is Some && exists|m: Option<Moment>|
                opt_moment_fits(listed_expiry(*limits), m) && r->0@ == #[trigger] summary_text(
                    formatter,
                    available as int,
                    m,
                ),
            None => r is None,
        },
{
    match limits.reset_credits_available {
        Some(available) => {
            let first = match &limits.reset_credits {
                Some(credits) => earliest_expiry(credits),
                None => None,
            };
            let expiry = opt_moment_at(first);
            let text = reset_summary_at(available, expiry, formatter);
            assert(text@ == summary_text(formatter, available as int, expiry));
            Some(text)
        },
        None => None,
    }
}

/// The summary with its label.
pub fn reset_summary_display_text(text: &str) -> (r: String)
    ensures
        r@ == "LIMIT RESETS  "@ + text@,
{
    let mut out = "LIMIT RESETS  ".to_owned();
    out.append(text);
    out
}

/// How many lines the summary takes, with an empty one below it.
pub open spec fn summary_lines(summary: Option<Seq<char>>, width: nat) -> int {
    match summary {
        Some(text) => sat16(wrapped_lines("LIMIT RESETS  "@ + text, width) + 1),
        None => 0,
    }
}

/// How many lines the summary takes.
pub fn reset_summary_height(summary: Option<&str>, width: u16) -> (r: u16)
    ensures
        r == summary_lines(crate::text::opt_str(summary), width as nat),
{
    match summary {
        Some(text) => {
            let shown = reset_summary_display_text(text);
            wrapped_line_count(shown.as_str(), width).saturating_add(1)
        },
        None => 0,
    }
}

/// How many lines the controls take.
pub fn usage_controls_height(summary: Option<&str>, width: u16) -> (r: u16)
    ensures
        r == sat16(1 + summary_lines(crate::text::opt_str(summary), width as nat)),
{
    reset_summary_height(summary, width).saturating_add(1)
}

/// A time of a credit in words: today by the time of day, else by date and time.
pub open spec fn credit_time_text(f: DisplayFormatter, at: Moment, today: Date) -> Seq<char> {
    if same_day(at.date, today) {
        "today "@ + time_text(f, at.time)
    } else {
        moment_text(f, at)
    }
}

/// A time of a credit in words.
pub fn reset_credit_date_time_label(at: Moment, today: Date, formatter: DisplayFormatter) -> (r:
    String)
    requires
        at.date.valid(),
    ensures
        r@ == credit_time_text(formatter, at, today),
{
    if is_same_day(at.date, today) {
        let mut text = "today ".to_owned();
        text.append(formatter.format_time(at.time).as_str());
        text
    } else {
        formatter.format_reset_datetime(at.date, at.time)
    }
}

/// When a credit expires and when it was granted.
#[derive(Debug, Clone, Copy, PartialEq, Eq, Structural)]
pub struct CreditMoments {
    pub expires: Option<Moment>,
    pub granted: Option<Moment>,
}

impl CreditMoments {
    /// The dates are in the ranges of a calendar.
    pub open spec fn valid(self) -> bool {
        calendar_moment(self.expires) && calendar_moment(self.granted)
    }
}

/// What a line of the details is.
#[derive(Debug, Clone, Copy, PartialEq, Eq, Structural)]
pub enum DetailKind {
    Blank,
    Title,
    Metadata,
    Description,
}

/// A line of the details.
#[derive(Debug)]
pub struct DetailLine {
    pub kind: DetailKind,
    pub text: String,
}

/// What lines of the details say.
pub open spec fn detail_views(s: Seq<DetailLine>) -> Seq<(DetailKind, Seq<char>)> {
    s.map_values(|d: DetailLine| (d.kind, d.text@))
}

/// A text that is more than white space.
pub open spec fn filled(s: Option<Seq<char>>) -> bool {
    s is Some && trimmed(s->0).len() > 0
}

/// The title of a credit; its number where it has none.
pub open spec fn credit_title(c: RateLimitResetCredit, number: nat) -> Seq<char> {
    if filled(opt_view(c.title)) {
        c.title->0@
    } else {
        "Reset credit "@ + digits(number)
    }
}

/// The status of a credit, when it expires and was granted, and its type.
pub open spec fn credit_metadata(
    f: DisplayFormatter,
    c: RateLimitResetCredit,
    m: CreditMoments,
    today: Date,
) -> Seq<char> {
    let status = match c.status {
        Some(s) => s@,
        None => "Unknown"@,
    };
    let expires = match m.expires {
        Some(at) => "expires "@ + credit_time_text(f, at, today),
        None => "expiration unavailable"@,
    };
    let granted = match m.granted {
        Some(at) => " | "@ + ("granted "@ + credit_time_text(f, at, today)),
        None => Seq::empty(),
    };
    let kind = match c.reset_type {
        Some(t) => " | "@ + t@,
        None => Seq::empty(),
    };
    status + " | "@ + expires + granted + kind
}

/// The lines of one credit.
pub open spec fn credit_lines(
    f: DisplayFormatter,
    c: RateLimitResetCredit,
    m: CreditMoments,
    today: Date,
    number: nat,
) -> Seq<(DetailKind, Seq<char>)> {
    let head = seq![
        (DetailKind::Title, credit_title(c, number)),
        (DetailKind::Metadata, credit_metadata(f, c, m, today)),
    ];
    if filled(opt_view(c.description)) {
        head.push((DetailKind::Description, c.description->0@))
    } else {
        head
    }
}

/// The lines of credits, with an empty line between two.
pub open spec fn details(
    f: DisplayFormatter,
    credits: Seq<RateLimitResetCredit>,
    moments: Seq<CreditMoments>,
    today: Date,
) -> Seq<(DetailKind, Seq<char>)>
    decreases credits.len(),
{
    if credits.len() == 0 {
        Seq::empty()
    } else {
        let n = credits.len() - 1;
        let before = details(f, credits.drop_last(), moments, today);
        let lines = credit_lines(f, credits.last(), moments[n], today, credits.len());
        if n == 0 {
            before + lines
        } else {
            before.push((DetailKind::Blank, Seq::empty())) + lines
        }
    }
}

fn metadata_of(
    c: &RateLimitResetCredit,
    m: CreditMoments,
    today: Date,
    formatter: DisplayFormatter,
) -> (r: String)
    requires
        m.valid(),
    ensures
        r@ == credit_metadata(formatter, *c, m, today),
{
    let mut text = match &c.status {
        Some(s) => s.as_str().to_owned(),
        None => "Unknown".to_owned(),
    };
    text.append(" | ");
    let expires = match m.expires {
        Some(at) => {
            let mut t = "expires ".to_owned();
            t.append(reset_credit_date_time_label(at, today, formatter).as_str());
            t
        },
        None => "expiration unavailable".to_owned(),
    };
    text.append(expires.as_str());
    let ghost base = text@;
    if let Some(at) = m.granted {
        let mut t = "granted ".to_owned();
        t.append(reset_credit_date_time_label(at, today, formatter).as_str());
        text.append(" | ");
        text.append(t.as_str());
    }
    let ghost with_granted = text@;
    if let Some(t) = &c.reset_type {
        text.append(" | ");
        text.append(t.as_str());
    }
    assert(text@ =~= credit_metadata(formatter, *c, m, today));
    text
}

/// The lines of credits, given when each expires and was granted.
pub fn reset_credit_details(
    credits: &Vec<RateLimitResetCredit>,
    moments: &Vec<CreditMoments>,
    today: Date,
    formatter: DisplayFormatter,
) -> (r: Vec<DetailLine>)
    requires
        moments@.len() == credits@.len(),
        forall|i: int| 0 <= i < moments@.len() ==> (#[trigger] moments@[i]).valid(),
    ensures
        detail_views(r@) == details(formatter, credits@, moments@, today),
{
    let mut out: Vec<DetailLine> = Vec::new();
    let mut i: usize = 0;
    assert(credits@.take(0) =~= Seq::<RateLimitResetCredit>::empty());
    assert(detail_views(out@) =~= Seq::<(DetailKind, Seq<char>)>::empty());
    while i < credits.len()
        invariant
            i <= credits@.len(),
            moments@.len() == credits@.len(),
            forall|k: int| 0 <= k < moments@.len() ==> (#[trigger] moments@[k]).valid(),
            detail_views(out@) == details(formatter, credits@.take(i as int), moments@, today),
        decreases credits@.len() - i,
    {
        let ghost next = credits@.take(i + 1);
        let ghost before = detail_views(out@);
        assert(next.drop_last() =~= credits@.take(i as int));
        assert(next.last() == credits@[i as int]);
        let c = &credits[i];
        let ghost lines = credit_lines(formatter, *c, moments@[i as int], today, (i + 1) as nat);
        if i > 0 {
            proof {
                reveal_strlit("");
            }
            out.push(DetailLine { kind: DetailKind::Blank, text: "".to_owned() });
            assert(""@ =~= Seq::<char>::empty());
            assert(detail_views(out@) =~= before.push((DetailKind::Blank, Seq::empty())));
        }
        let ghost start = detail_views(out@);
        let mut title: Option<String> = None;
        if let Some(t) = &c.title {
            if !is_blank(t.as_str()) {
                title = Some(t.as_str().to_owned());
            }
        }
        let shown = match title {
            Some(t) => t,
            None => {
                let mut t = "Reset credit ".to_owned();
                t.append(decimal(i as u64 + 1).as_str());
                t
            },
        };
        assert(shown@ == credit_title(*c, (i + 1) as nat));
        out.push(DetailLine { kind: DetailKind::Title, text: shown });
        assert(detail_views(out@) =~= start.push((DetailKind::Title, shown@)));
        let meta = metadata_of(c, moments[i], today, formatter);
        out.push(DetailLine { kind: DetailKind::Metadata, text: meta });
        assert(detail_views(out@) =~= start.push((DetailKind::Title, shown@)).push(
            (DetailKind::Metadata, meta@),
        ));
        if let Some(d) = &c.description {
            if !is_blank(d.as_str()) {
                out.push(
                    DetailLine { kind: DetailKind::Description, text: d.as_str().to_owned() },
                );
                assert(detail_views(out@) =~= start.push((DetailKind::Title, shown@)).push(
                    (DetailKind::Metadata, meta@),
                ).push((DetailKind::Description, d@)));
            }
        }
        assert(detail_views(out@) =~= start + lines);
        i += 1;
    }
    assert(credits@.take(i as int) =~= credits@);
    out
}

/// One pair of moments for each credit: each time that it names and the calendar has, in some time
/// zone.
pub open spec fn moments_match(
    credits: Seq<RateLimitResetCredit>,
    moments: Seq<CreditMoments>,
) -> bool {
    moments.len() == credits.len() && forall|i: int|
        0 <= i < moments.len() ==> opt_moment_fits(
            credits[i].expires_at,
            (#[trigger] moments[i]).expires,
        ) && opt_moment_fits(credits[i].granted_at, moments[i].granted)
}

/// The lines of credits, with the times in the machine's time zone. Which zone that is and what day
/// it is are left open.
pub fn reset_credit_details_text(
    credits: &Vec<RateLimitResetCredit>,
    formatter: DisplayFormatter,
) -> (r: Vec<DetailLine>)
    ensures
        exists|moments: Seq<CreditMoments>, today: Date|
            moments_match(credits@, moments) && detail_views(r@) == #[trigger] details(
                formatter,
                credits@,
                moments,
                today,
            ),
{
    let today = local_today().date;
    let mut moments: Vec<CreditMoments> = Vec::new();
    let mut i: usize = 0;
    while i < credits.len()
        invariant
            i <= credits@.len(),
            moments@.len() == i,
            forall|k: int| 0 <= k < moments@.len() ==> (#[trigger] moments@[k]).valid(),
            forall|k: int|
                0 <= k < moments@.len() ==> opt_moment_fits(
                    credits@[k].expires_at,
                    (#[trigger] moments@[k]).expires,
                ) && opt_moment_fits(credits@[k].granted_at, moments@[k].granted),
        decreases credits@.len() - i,
    {
        let expires = opt_moment_at(credits[i].expires_at);
        let granted = opt_moment_at(credits[i].granted_at);
        moments.push(CreditMoments { expires, granted });
        i += 1;
    }
    let lines = reset_credit_details(credits, &moments, today, formatter);
    assert(detail_views(lines@) == details(formatter, credits@, moments@, today));
    lines
}

} // verus!
