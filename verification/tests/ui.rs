use comon::app::state::{ActiveScreen, ChartOrientation, ChartRange, Rect};
use comon::app::worker::DataState;
use comon::calendar::{Date, TimeOfDay, Weekday};
use comon::clock::Moment;
use comon::codex_rpc::account::{
    AccountRateLimits, CreditsSnapshot, RateLimitResetCredit, RateLimitSnapshot, RateLimitWindow,
    SpendControlLimitSnapshot,
};
use comon::locale::{DisplayFormatter, DisplayStyle, SystemLocale};
use comon::text::truncate_middle;
use comon::ui::cards::{
    card_areas, card_row_height, card_shares, limits_card_content, usage_card_row_heights, usage_card_specs,
    usage_cards, usage_cards_height, CardSpec,
};
use comon::ui::chart::{chart_days, range_label, usage_chart};
use comon::ui::drawing::Stroke;
use comon::ui::geometry::{
    apply_margin, centered_rect, compute_bar_layout, inset_with_border_and_padding,
    usage_card_layout, usage_layout, usage_shares, uses_compact_limit_lines, Padding, Share,
};
use comon::ui::heatmap::{
    activity_color_level, activity_day_cell_width, activity_day_value, activity_heatmaps,
    activity_metric_total_label, activity_project_name, activity_weekday_for_row,
    activity_weekday_label, activity_weekday_row, format_activity_project_header, ActivityView,
};
use comon::ui::limits::{
    align_left, classify_rolling_windows, format_credit_amount, format_limits_compact_card_lines,
    format_window_label, limits_lines, percent_left_value, reset_compact_label, resets_label,
    rolling_windows_for_limits, LimitMoments,
};
use comon::ui::resets::{
    earliest_expiry, reset_credit_date_time_label, reset_credit_details_text, reset_summary_at,
    reset_summary_for_limits, reset_summary_height, usage_controls_height, DetailKind,
};
use comon::ui::screen::{
    footer_error, footer_height, footer_hint, footer_text, help_lines, no_sessions_lines,
    reset_details_message, screen_title, top_model_labels, workspace_label,
};
use comon::ui::values::{
    format_activity_date_short, format_day_label_weekday_mmdd, format_duration_words,
    format_horizontal_value, format_minutes_hhmm, format_updated_label,
    format_vertical_token_value, updated_or_dashes, usage_chart_metric_label,
};
use comon::ui::wrap::wrapped_line_count;
use comon::usage::snapshot::{
    LocalUsageModel, LocalUsageSnapshot, ProjectActivity, UsageDay, UsageMetric, UsageTotalsTokens,
};

fn bits(value: f64) -> Option<u64> {
    Some(value.to_bits())
}

fn no_limits() -> AccountRateLimits {
    AccountRateLimits {
        limit_id: None,
        limit_name: None,
        individual_limit: None,
        primary: None,
        secondary: None,
        credits: None,
        buckets: Vec::new(),
        reset_credits_available: None,
        reset_credits: None,
    }
}

fn credit(id: &str, expires_at: Option<i64>) -> RateLimitResetCredit {
    RateLimitResetCredit {
        id: Some(id.to_string()),
        reset_type: Some("codexRateLimits".to_string()),
        status: Some("available".to_string()),
        granted_at: None,
        expires_at,
        title: None,
        description: None,
    }
}

fn window(used: f64, minutes: f64) -> RateLimitWindow {
    RateLimitWindow {
        used_percent: bits(used),
        window_duration_mins: bits(minutes),
        resets_at: None,
    }
}

fn area(x: u16, y: u16, width: u16, height: u16) -> Rect {
    Rect { x, y, width, height }
}

fn day(key: &str, total: i64, cached: i64, time: i64, runs: i64) -> UsageDay {
    UsageDay {
        day: key.to_string(),
        input_tokens: total,
        cached_input_tokens: cached,
        total_tokens: total,
        agent_time_ms: time,
        agent_runs: runs,
    }
}

fn snapshot() -> LocalUsageSnapshot {
    let days = vec![
        day("2026-03-01", 100, 40, 60_000, 1),
        day("2026-03-02", 2_000, 500, 120_000, 3),
        day("2026-03-03", 300, 100, 0, 0),
    ];
    LocalUsageSnapshot {
        days,
        totals: UsageTotalsTokens {
            last7_days_tokens: 2_400,
            last30_days_tokens: 2_400,
            average_daily_tokens: 800,
            cache_hit_rate_tenths: 266,
            peak_day: Some("2026-03-02".to_string()),
            peak_day_tokens: 2_000,
        },
        top_models: vec![LocalUsageModel {
            model: "gpt-5".to_string(),
            tokens: 2_400,
            share_tenths: 1_000,
        }],
        activity_first_weekday: Weekday::Mon,
        project_activity: Vec::new(),
        matched_session_files: 0,
    }
}

fn texts(strokes: &[Stroke]) -> Vec<String> {
    strokes
        .iter()
        .filter_map(|s| match s {
            Stroke::Text { text, .. } => Some(text.iter().collect::<String>()),
            Stroke::Fill { .. } => None,
        })
        .collect()
}

#[test]
fn token_chart_header_explains_the_slash_pair() {
    assert_eq!(usage_chart_metric_label(UsageMetric::Tokens), "TOKENS (TOTAL / NON-CACHED)");
}

#[test]
fn truncate_middle_is_unicode_safe_and_strips_control_chars() {
    let input = "ab\x1b[31mcd\x1b[0m-zu\u{0308}rich";
    let out = truncate_middle(input, 10);
    assert!(!out.chars().any(|c| c.is_control()));
    assert!(out.chars().count() <= 10);
}

#[test]
fn truncate_middle_handles_small_limits() {
    assert_eq!(truncate_middle("hello", 0), "...");
    assert_eq!(truncate_middle("hello", 1), "...");
    assert_eq!(truncate_middle("hello", 2), "...");
    assert_eq!(truncate_middle("hello", 3), "...");
}

#[test]
fn card_row_uses_the_tallest_measured_card() {
    let short = CardSpec::new("42".to_string(), vec!["One line".to_string()]);
    let tall = CardSpec::new(
        "Weekly limit".to_string(),
        vec!["Resets: 3 available | earliest expires 21 Jul".to_string()],
    );
    let width = 20;
    let expected = tall.required_height(width);

    assert_eq!(card_row_height(&vec![short, tall], width), expected);
}

#[test]
fn short_usage_layout_preserves_measured_card_height() {
    let chunks = usage_layout(area(0, 0, 140, 18), 2, 12);

    assert_eq!(chunks[0].height, 2);
    assert_eq!(chunks[1].height, 12);
    assert_eq!(chunks[2].height, 1);
    assert_eq!(chunks[3].height, 3);
}

#[test]
fn card_format_density_uses_the_actual_card_width() {
    let six_columns = usage_card_layout(180);
    assert_eq!(six_columns.columns, 6);
    assert_eq!(six_columns.min_card_width, 28);
    assert!(uses_compact_limit_lines(six_columns.min_card_width));

    let three_columns = usage_card_layout(179);
    assert_eq!(three_columns.columns, 3);
    assert_eq!(three_columns.min_card_width, 59);
    assert!(!uses_compact_limit_lines(three_columns.min_card_width));
}

#[test]
fn wrapped_line_count_matches_word_wrapping_and_long_words() {
    assert_eq!(wrapped_line_count("one two three", 7), 2);
    assert_eq!(wrapped_line_count("abcdefghijk", 10), 2);
    assert!(wrapped_line_count(footer_hint(ActiveScreen::Usage), 48) > 1);
}

#[test]
fn reset_summary_uses_earliest_returned_expiration() {
    let system_locale = SystemLocale::c_locale();
    let formatter = DisplayFormatter::new(DisplayStyle::Classic, &system_locale);
    let mut limits = no_limits();
    limits.reset_credits_available = Some(3);
    limits.reset_credits =
        Some(vec![credit("later", Some(1_784_434_782)), credit("earlier", Some(1_784_334_782))]);

    let summary = reset_summary_for_limits(&limits, formatter).expect("reset summary");
    assert!(summary.starts_with("Resets: 3 available | earliest expires "));
    assert!(summary.contains(", "));
}

#[test]
fn reset_summary_height_accounts_for_its_label() {
    let summary = "Resets: 3 available | earliest expires 18 Jul";
    assert!(reset_summary_height(Some(summary), 24) > wrapped_line_count(summary, 24));
    assert_eq!(usage_controls_height(None, 80), 1);
}

#[test]
fn limits_card_uses_monthly_and_named_rolling_bucket() {
    let system_locale = SystemLocale::c_locale();
    let formatter = DisplayFormatter::new(DisplayStyle::Classic, &system_locale);
    let limits = AccountRateLimits {
        limit_id: Some("codex".to_string()),
        limit_name: None,
        individual_limit: Some(SpendControlLimitSnapshot {
            limit: Some("60000".to_string()),
            remaining_percent: bits(99.0),
            resets_at: None,
            used: Some("564".to_string()),
        }),
        primary: None,
        secondary: None,
        credits: None,
        buckets: vec![RateLimitSnapshot {
            limit_id: Some("codex_bengalfox".to_string()),
            limit_name: Some("GPT-5.3-Codex-Spark-Preview".to_string()),
            individual_limit: None,
            primary: Some(window(0.0, 300.0)),
            secondary: Some(window(0.0, 10080.0)),
            credits: None,
        }],
        reset_credits_available: None,
        reset_credits: None,
    };

    let lines = format_limits_compact_card_lines(&limits, false, formatter);
    assert_eq!(lines[0], "Monthly:  99%");
    assert_eq!(lines.get(1).map(String::as_str), Some("Credits:  564/60,000 used"));
    assert_eq!(lines.get(2).map(String::as_str), Some("5h limit: 100%"));
    assert_eq!(lines.get(3).map(String::as_str), Some("Weekly:   100%"));

    let compact = format_limits_compact_card_lines(&limits, true, formatter);
    assert_eq!(compact.get(2).map(String::as_str), Some("5h: 100%"));
    assert_eq!(compact.get(3).map(String::as_str), Some("7d: 100%"));
}

#[test]
fn limits_card_treats_weekly_primary_as_weekly() {
    let system_locale = SystemLocale::c_locale();
    let formatter = DisplayFormatter::new(DisplayStyle::Classic, &system_locale);
    let mut limits = no_limits();
    limits.limit_id = Some("codex".to_string());
    limits.primary = Some(window(4.0, 10080.0));

    let (short_window, weekly_window) = rolling_windows_for_limits(&limits);
    assert!(short_window.is_none());
    assert_eq!(
        weekly_window.and_then(|window| window.window_duration_mins),
        bits(10080.0)
    );

    let lines = format_limits_compact_card_lines(&limits, false, formatter);
    assert_eq!(lines[0], "Weekly:   96%");
    assert_eq!(lines.get(1).map(String::as_str), Some("5h limit: --"));

    let compact = format_limits_compact_card_lines(&limits, true, formatter);
    assert_eq!(compact[0], "7d: 96%");
    assert_eq!(compact.get(1).map(String::as_str), Some("5h limit: --"));
}

#[test]
fn classic_horizontal_tokens_keep_full_total_and_non_cached() {
    let system_locale = SystemLocale::c_locale();
    let formatter = DisplayFormatter::new(DisplayStyle::Classic, &system_locale);
    let out = format_horizontal_value(
        45_456_785,
        Some(1_756_241),
        UsageMetric::Tokens,
        u16::MAX,
        formatter,
    );
    assert_eq!(out, "45,456,785 / 1,756,241");
}

#[test]
fn system_horizontal_tokens_use_compact_total_and_non_cached() {
    let system_locale = SystemLocale::c_locale();
    let formatter = DisplayFormatter::new(DisplayStyle::SystemCompact, &system_locale);
    let out = format_horizontal_value(
        45_456_785,
        Some(1_756_241),
        UsageMetric::Tokens,
        u16::MAX,
        formatter,
    );
    assert_eq!(out, "45.46M / 1.76M");
}

#[test]
fn vertical_token_values_compact_only_in_system_mode() {
    let system_locale = SystemLocale::c_locale();
    let classic = DisplayFormatter::new(DisplayStyle::Classic, &system_locale);
    let system = DisplayFormatter::new(DisplayStyle::SystemCompact, &system_locale);

    assert_eq!(format_vertical_token_value(45_456_785, 20, classic), "45456785");
    assert_eq!(format_vertical_token_value(45_456_785, 20, system), "45.46M");
}

#[test]
fn system_full_keeps_chart_token_values_expanded() {
    let system_locale = SystemLocale::c_locale();
    let formatter = DisplayFormatter::new(DisplayStyle::SystemFull, &system_locale);

    assert_eq!(
        format_horizontal_value(
            45_456_785,
            Some(1_756_241),
            UsageMetric::Tokens,
            u16::MAX,
            formatter,
        ),
        "45456785 / 1756241"
    );
    assert_eq!(format_vertical_token_value(45_456_785, 20, formatter), "45456785");
    assert_eq!(
        format_horizontal_value(45_456_785, Some(1_756_241), UsageMetric::Tokens, 8, formatter),
        "45456785 / 1756241"
    );
    assert_eq!(format_vertical_token_value(45_456_785, 4, formatter), "45456785");
}

#[test]
fn horizontal_tokens_pair_compacts_when_tight() {
    let system_locale = SystemLocale::c_locale();
    let formatter = DisplayFormatter::new(DisplayStyle::Classic, &system_locale);
    let out = format_horizontal_value(
        45_456_785,
        Some(1_756_241),
        UsageMetric::Tokens,
        10,
        formatter,
    );
    assert!(out.contains(" / "));
    assert!(!out.is_empty());
}

#[test]
fn project_activity_tokens_show_total_and_out_of_cache() {
    let system_locale = SystemLocale::c_locale();
    let formatter = DisplayFormatter::new(DisplayStyle::Classic, &system_locale);
    let project = ProjectActivity {
        display_path: "/tmp/SFM".to_string(),
        days: Vec::new(),
        last_activity_day: Some("2026-06-05".to_string()),
        total_tokens: 250,
        cached_input_tokens: 150,
        agent_time_ms: 0,
        agent_runs: 0,
    };

    assert_eq!(
        activity_metric_total_label(&project, UsageMetric::Tokens, formatter),
        "250 / 100 tokens"
    );
}

#[test]
fn activity_color_levels_scale_to_project_max() {
    assert_eq!(activity_color_level(0, 100), 0);
    assert_eq!(activity_color_level(1, 100), 1);
    assert_eq!(activity_color_level(50, 100), 2);
    assert_eq!(activity_color_level(100, 100), 4);
}

#[test]
fn activity_project_name_uses_path_leaf() {
    assert_eq!(activity_project_name("/tmp/Photonia"), "Photonia");
    assert_eq!(activity_project_name(r"C:\src\SFM"), "SFM");
}

#[test]
fn activity_day_cell_width_expands_when_all_weeks_fit() {
    assert_eq!(activity_day_cell_width(108, 54), 2);
    assert_eq!(activity_day_cell_width(107, 54), 1);
}

#[test]
fn activity_weekday_labels_follow_first_weekday() {
    let system_locale = SystemLocale::c_locale();
    let formatter = DisplayFormatter::new(DisplayStyle::Classic, &system_locale);
    assert_eq!(activity_weekday_label(Weekday::Mon, 0, formatter), "Mon");
    assert_eq!(activity_weekday_label(Weekday::Mon, 6, formatter), "Sun");
    assert_eq!(activity_weekday_label(Weekday::Sun, 0, formatter), "");
    assert_eq!(activity_weekday_label(Weekday::Sun, 1, formatter), "Mon");
    assert_eq!(activity_weekday_label(Weekday::Sun, 6, formatter), "");
    assert_eq!(activity_weekday_label(Weekday::Sat, 2, formatter), "Mon");
}

#[test]
fn rows_and_weekdays_of_the_heat_map_fit_together() {
    for row in 0..7 {
        let weekday = activity_weekday_for_row(Weekday::Sun, row);
        assert_eq!(activity_weekday_row(Weekday::Sun, weekday), row);
    }
}

#[test]
fn truncation_keeps_both_ends() {
    assert_eq!(truncate_middle("abcdefghij", 7), "ab...ij");
    assert_eq!(truncate_middle("short", 10), "short");
}

#[test]
fn updates_are_told_in_the_largest_unit() {
    assert_eq!(format_updated_label(0), "Updated just now");
    assert_eq!(format_updated_label(59), "Updated 59s ago");
    assert_eq!(format_updated_label(3_599), "Updated 59m ago");
    assert_eq!(format_updated_label(7_200), "Updated 2h ago");
    assert_eq!(updated_or_dashes(None), "Updated --");
    assert_eq!(updated_or_dashes(Some(61)), "Updated 1m ago");
}

#[test]
fn days_and_durations_have_labels() {
    let system_locale = SystemLocale::c_locale();
    let f = DisplayFormatter::new(DisplayStyle::Classic, &system_locale);
    assert_eq!(format_day_label_weekday_mmdd("2026-03-04", f), "Wed 03/04");
    assert_eq!(format_day_label_weekday_mmdd("someday", f), "someday");
    assert_eq!(format_activity_date_short("2026-03-04", f), "Mar 04");
    assert_eq!(format_minutes_hhmm(125), "02:05");
    assert_eq!(format_minutes_hhmm(6_000), "99:59");
    assert!(format_duration_words(3_720_000).contains('2'));
}

#[test]
fn margins_and_borders_shrink_an_area() {
    assert_eq!(apply_margin(area(0, 0, 20, 10), 1, 2), area(2, 1, 16, 8));
    assert_eq!(apply_margin(area(0, 0, 3, 1), 1, 2), area(2, 1, 0, 0));
    let padding = Padding { left: 1, right: 1, top: 0, bottom: 0 };
    assert_eq!(inset_with_border_and_padding(area(5, 5, 20, 10), padding), area(7, 6, 16, 8));
    assert_eq!(centered_rect(10, 4, area(0, 0, 20, 10)), area(5, 3, 10, 4));
    assert_eq!(compute_bar_layout(area(0, 0, 32, 5), 0, 1), (1, 1));
}

#[test]
fn windows_are_named_by_their_length() {
    assert_eq!(format_window_label(300.0f64.to_bits()).as_deref(), Some("5h"));
    assert_eq!(percent_left_value(bits(4.0)), "96%");
    assert_eq!(percent_left_value(None), "--%");
    assert_eq!(align_left("5h:", 5), "5h:  ");
    let short = window(0.0, 300.0);
    let week = window(0.0, 10080.0);
    assert_eq!(classify_rolling_windows(Some(week), Some(short)), (Some(short), Some(week)));
}

#[test]
fn resets_are_told_by_the_day() {
    let system_locale = SystemLocale::c_locale();
    let f = DisplayFormatter::new(DisplayStyle::Classic, &system_locale);
    let today = Date { year: 2026, month: 7, day: 18, weekday: 5 };
    let at = Moment { date: today, time: TimeOfDay { hour: 9, minute: 5 } };
    let label = resets_label(Some(at), today, f).expect("label");
    assert!(label.contains("09:05"));
    assert!(!label.contains("Jul"));
    let later = Moment { date: Date { day: 20, weekday: 0, ..today }, ..at };
    assert!(resets_label(Some(later), today, f).expect("label").contains("Jul"));
    assert_eq!(resets_label(None, today, f), None);
    assert!(reset_compact_label(Some(at), today, f).is_some());
    assert_eq!(reset_credit_date_time_label(at, today, f), "today 09:05");
    assert_eq!(reset_credit_date_time_label(later, today, f), "20 Jul, 09:05");
    assert_eq!(
        reset_summary_at(3, Some(later), f),
        "Resets: 3 available | earliest expires 20 Jul, 09:05"
    );
    assert_eq!(reset_summary_at(0, None, f), "Resets: 0 available");
}

#[test]
fn the_earliest_credit_comes_first() {
    let credits = vec![credit("a", Some(9)), credit("b", None), credit("c", Some(4))];
    assert_eq!(earliest_expiry(&credits), Some(4));
    assert_eq!(earliest_expiry(&Vec::new()), None);
    let system_locale = SystemLocale::c_locale();
    let f = DisplayFormatter::new(DisplayStyle::Classic, &system_locale);
    let lines = reset_credit_details_text(&credits, f);
    assert!(lines.iter().any(|l| matches!(l.kind, DetailKind::Title)));
}

#[test]
fn limits_without_windows_say_so() {
    let system_locale = SystemLocale::c_locale();
    let f = DisplayFormatter::new(DisplayStyle::Classic, &system_locale);
    let today = Date { year: 2026, month: 7, day: 18, weekday: 5 };
    let moments = LimitMoments { today, short: None, weekly: None, monthly: None, extra: None };
    let mut limits = no_limits();
    limits.credits =
        Some(CreditsSnapshot { has_credits: true, unlimited: false, balance: Some("12".to_string()) });
    let lines = limits_lines(&limits, moments, false, f);
    assert!(lines.len() >= 3);
    assert!(lines.iter().any(|l| l.contains("12")));
    assert_eq!(format_credit_amount("60000", f), "60,000");
    assert_eq!(format_credit_amount("plenty", f), "plenty");
}

#[test]
fn six_cards_are_shown_under_every_metric() {
    let system_locale = SystemLocale::c_locale();
    let f = DisplayFormatter::new(DisplayStyle::Classic, &system_locale);
    let limits = vec!["Loading...".to_string()];
    let s = snapshot();
    for metric in [UsageMetric::Tokens, UsageMetric::Time, UsageMetric::Runs] {
        let cards = usage_cards(metric, Some(&s), &limits, f);
        assert_eq!(cards.len(), 6);
        assert_eq!(cards[0].title, "LIMITS");
        assert_eq!(cards[1].title, "TODAY");
        assert_eq!(cards[5].title, "PEAK_DAY");
        let measured = usage_card_specs(metric, None, &limits, f);
        let heights = usage_card_row_heights(measured, 180);
        assert_eq!(heights.len(), 1);
        assert_eq!(usage_cards_height(&heights), heights[0]);
        assert_eq!(card_areas(area(0, 0, 180, 12), &heights).len(), 6);
    }
    let cards = usage_cards(UsageMetric::Tokens, Some(&s), &limits, f);
    assert_eq!(cards[2].card.lines[0], "2.4K tokens");
    assert_eq!(cards[4].title, "CACHE_HIT_RATE");
}

#[test]
fn the_limits_card_tells_why_it_is_empty() {
    let system_locale = SystemLocale::c_locale();
    let f = DisplayFormatter::new(DisplayStyle::Classic, &system_locale);
    let mut data = DataState::new();
    data.limits_enabled = true;
    assert_eq!(limits_card_content(&data, false, f), vec!["Loading..."]);
    data.limits_enabled = false;
    assert_eq!(
        limits_card_content(&data, false, f),
        vec!["Unavailable", "Limits unavailable."]
    );
    data.limits_notice = Some("off".to_string());
    assert_eq!(limits_card_content(&data, false, f), vec!["Unavailable", "off"]);
}

#[test]
fn charts_show_the_days_of_their_range() {
    let system_locale = SystemLocale::c_locale();
    let f = DisplayFormatter::new(DisplayStyle::Classic, &system_locale);
    let s = snapshot();
    assert_eq!(chart_days(&s, ChartRange::Week).len(), 3);
    assert!(!range_label(ChartRange::Month).is_empty());
    for orientation in [ChartOrientation::Horizontal, ChartOrientation::Vertical] {
        let strokes = usage_chart(
            area(0, 0, 80, 20),
            Some(&s),
            UsageMetric::Tokens,
            ChartRange::Week,
            orientation,
            f,
        );
        assert!(strokes.iter().any(|s| matches!(s, Stroke::Fill { .. })));
        assert!(texts(&strokes).iter().any(|t| t.contains("2")));
    }
}

#[test]
fn heat_maps_need_projects() {
    let system_locale = SystemLocale::c_locale();
    let f = DisplayFormatter::new(DisplayStyle::Classic, &system_locale);
    let none = activity_heatmaps(area(0, 0, 80, 20), None, 5, UsageMetric::Tokens, Weekday::Mon, f);
    assert!(matches!(none, ActivityView::Message(_)));
    let d = day("2026-03-02", 2_000, 500, 120_000, 3);
    assert_eq!(activity_day_value(&d, UsageMetric::Runs), 3);
    let project = ProjectActivity {
        display_path: "/tmp/SFM".to_string(),
        days: vec![d],
        last_activity_day: Some("2026-03-02".to_string()),
        total_tokens: 2_000,
        cached_input_tokens: 500,
        agent_time_ms: 0,
        agent_runs: 0,
    };
    assert!(format_activity_project_header(&project, UsageMetric::Tokens, 80, f).contains("SFM"));
}

#[test]
fn screens_have_titles_hints_and_help() {
    assert_eq!(screen_title(ActiveScreen::Usage), " comon :: usage ");
    assert_eq!(footer_hint(ActiveScreen::Read), "");
    assert!(!help_lines(ActiveScreen::Usage).is_empty());
    let lines = no_sessions_lines(&Some("/tmp/x".to_string()));
    assert!(lines.iter().any(|l| l.contains("/tmp/x")));
    assert_eq!(workspace_label(&None), "All workspaces");
    let system_locale = SystemLocale::c_locale();
    let f = DisplayFormatter::new(DisplayStyle::Classic, &system_locale);
    let mut data = DataState::new();
    assert_eq!(footer_error(&data), "");
    data.limits_error = Some("limits".to_string());
    assert_eq!(footer_error(&data), "limits");
    data.usage_error = Some("usage".to_string());
    assert_eq!(footer_error(&data), "usage");
    let text = footer_text(ActiveScreen::LimitResets, &data, f);
    assert!(text.ends_with("  Style [n]: Classic  usage"));
    assert!(footer_height(20, ActiveScreen::LimitResets, &data, f) > 1);
    assert!(reset_details_message(&data).is_some());
    let labels = top_model_labels(&snapshot().top_models, f);
    assert!(labels[0].contains("gpt-5"));
}

#[test]
fn layouts_ask_for_fixed_shares() {
    assert_eq!(
        usage_shares(2, 12),
        vec![Share::Length(2), Share::Length(12), Share::Fill(1), Share::Length(3)]
    );
    assert_eq!(
        card_shares(false),
        vec![Share::Percentage(34), Share::Percentage(33), Share::Percentage(33)]
    );
    assert_eq!(card_shares(true).len(), 6);
    let areas = card_areas(area(2, 3, 90, 20), &vec![6, 7]);
    assert_eq!((areas[0].y, areas[0].height), (3, 6));
    assert_eq!(areas[3].y, 9);
    assert_eq!(areas[0].x, 2);
    assert!(areas.iter().all(|r| r.x >= 2 && r.x + r.width <= 92));
}

#[test]
fn screens_that_fit_stack_their_parts() {
    for height in [3, 4, 7, 12, 18, 24, 41, 63u16] {
        for controls in [0, 1, 3, 4u16] {
            for cards in [0, 1, 6, 12u16] {
                if controls + cards + 3 > height {
                    continue;
                }
                for y in [0, 901] {
                    let parts = usage_layout(area(4, y, 90, height), controls, cards);
                    let rest = height - controls - cards - 3;
                    let heights = [controls, cards, rest, 3];
                    let mut top = y;
                    for (part, wanted) in parts.iter().zip(heights) {
                        assert_eq!((part.x, part.y, part.width), (4, top, 90));
                        assert_eq!(part.height, wanted);
                        top += wanted;
                    }
                }
            }
        }
    }
    let tall = usage_layout(area(0, 0, 9, 65_535), 65_000, 500);
    assert_eq!(tall.map(|part| part.height), [65_000, 500, 32, 3]);
}

fn cell(x: u16, width: u16, percent: u32) -> u32 {
    u32::from(x) + (u32::from(width) * percent + 50) / 100
}

#[test]
fn cards_stand_side_by_side() {
    for width in (0..260u16).step_by(7).chain([1_000, 33_333, 65_000]) {
        for x in [0, 17, 535] {
            let row = card_areas(area(x, 2, width, 9), &vec![9]);
            let starts = [0, 17, 34, 51, 68, 84, 100];
            for i in 0..6 {
                assert_eq!(u32::from(row[i].x), cell(x, width, starts[i]));
                assert_eq!(
                    u32::from(row[i].x) + u32::from(row[i].width),
                    cell(x, width, starts[i + 1])
                );
            }
            let rows = card_areas(area(x, 2, width, 20), &vec![6, 7]);
            let starts = [0, 34, 67, 100];
            for i in 0..6 {
                let column = i % 3;
                assert_eq!(u32::from(rows[i].x), cell(x, width, starts[column]));
                assert_eq!(
                    u32::from(rows[i].x) + u32::from(rows[i].width),
                    cell(x, width, starts[column + 1])
                );
                let (y, height) = if i < 3 { (2, 6) } else { (8, 7) };
                assert_eq!((rows[i].y, rows[i].height), (y, height));
            }
        }
    }
}

#[test]
fn two_rows_of_cards_that_fit_keep_their_heights() {
    for height in [0, 1, 2, 9, 14, 20u16] {
        for first in (0..=height).step_by(3) {
            for second in (0..=(height - first)).step_by(2) {
                let rows = card_areas(area(0, 3, 60, height), &vec![first, second]);
                assert_eq!((rows[0].y, rows[0].height), (3, first));
                assert_eq!((rows[3].y, rows[3].height), (3 + first, second));
            }
        }
    }
}

#[test]
fn labels_of_upright_bars_stand_in_the_last_row() {
    let system_locale = SystemLocale::c_locale();
    let f = DisplayFormatter::new(DisplayStyle::Classic, &system_locale);
    let s = snapshot();
    for height in 6..40u16 {
        let strokes = usage_chart(
            area(1, 2, 60, height),
            Some(&s),
            UsageMetric::Tokens,
            ChartRange::Week,
            ChartOrientation::Vertical,
            f,
        );
        let inner = inset_with_border_and_padding(
            area(1, 2, 60, height),
            Padding { left: 2, right: 2, top: 1, bottom: 0 },
        );
        let mut last: u16 = 0;
        for stroke in &strokes {
            match stroke {
                Stroke::Text { row, .. } => last = last.max(*row),
                Stroke::Fill { area, .. } => {
                    assert!(area.y >= inner.y);
                    assert!(area.y + area.height < inner.y + inner.height);
                }
            }
        }
        assert_eq!(last, inner.y + inner.height - 1);
    }
}
