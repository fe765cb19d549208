use comon::calendar::{Date, TimeOfDay};
use comon::locale::{
    english_months, english_weekdays, fill_months, fill_weekdays, group_decimal_digits,
    parse_posix_date_pattern, parse_posix_time_separator, parse_windows_date_pattern,
    parse_windows_time_separator, DateOrder, DisplayFormatter, DisplayStyle, SystemLocale,
};
use comon::system::{locale_id_from_settings, posix_locale, windows_locale, LocaleAnswers};

fn european_profile() -> SystemLocale {
    SystemLocale {
        id: "et-EE".to_string(),
        decimal_separator: ",".to_string(),
        thousands_separator: "\u{a0}".to_string(),
        date_order: DateOrder::DayMonthYear,
        date_separator: ".".to_string(),
        time_24h: true,
        time_separator: ":".to_string(),
        abbreviated_weekdays: english_weekdays(),
        abbreviated_months: english_months(),
        am: "AM".to_string(),
        pm: "PM".to_string(),
    }
}

fn wednesday() -> Date {
    Date { year: 2026, month: 3, day: 4, weekday: 2 }
}

fn answers() -> LocaleAnswers {
    LocaleAnswers {
        decimal_separator: Some(",".to_string()),
        thousands_separator: Some(".".to_string()),
        date_pattern: Some("%d.%m.%Y".to_string()),
        time_pattern: Some("%H.%M.%S".to_string()),
        weekdays: std::array::from_fn(|i| if i == 0 { "Mo".to_string() } else { String::new() }),
        months: std::array::from_fn(|_| String::new()),
        am: Some(String::new()),
        pm: None,
    }
}

#[test]
fn classic_preserves_existing_number_format() {
    let system = european_profile();
    let formatter = DisplayFormatter::new(DisplayStyle::Classic, &system);
    assert_eq!(formatter.format_count(1_234_567), "1,234,567");
    assert_eq!(formatter.localize_decimal("1.23M"), "1.23M");
}

#[test]
fn display_style_cycles_and_accepts_legacy_system_value() {
    assert_eq!(DisplayStyle::Classic.toggled(), DisplayStyle::SystemCompact);
    assert_eq!(DisplayStyle::SystemCompact.toggled(), DisplayStyle::SystemFull);
    assert_eq!(DisplayStyle::SystemFull.toggled(), DisplayStyle::Classic);
    assert_eq!(DisplayStyle::from_store("system"), Some(DisplayStyle::SystemCompact));
}

#[test]
fn system_uses_detected_number_separators() {
    let system = european_profile();
    let formatter = DisplayFormatter::new(DisplayStyle::SystemCompact, &system);
    assert_eq!(formatter.format_count(1_234_567), "1\u{a0}234\u{a0}567");
    assert_eq!(formatter.localize_decimal("1.23M"), "1,23M");
}

#[test]
fn system_formats_dates_and_time_from_profile() {
    let system = european_profile();
    let formatter = DisplayFormatter::new(DisplayStyle::SystemCompact, &system);
    let date = wednesday();
    assert_eq!(formatter.format_chart_day(date), "Wed 04.03");
    assert_eq!(formatter.format_short_date(date), "04 Mar");
    assert_eq!(
        formatter.format_session_datetime(date, TimeOfDay { hour: 14, minute: 5 }),
        "04.03.2026 14:05"
    );
}

#[test]
fn parses_common_posix_and_windows_date_patterns() {
    assert_eq!(
        parse_posix_date_pattern("%m/%d/%y"),
        (DateOrder::MonthDayYear, "/".to_string())
    );
    assert_eq!(
        parse_posix_date_pattern("%d.%m.%Y"),
        (DateOrder::DayMonthYear, ".".to_string())
    );
    assert_eq!(
        parse_windows_date_pattern("yyyy-MM-dd"),
        (DateOrder::YearMonthDay, "-".to_string())
    );
    assert_eq!(
        parse_windows_date_pattern("dd.MM.yyyy"),
        (DateOrder::DayMonthYear, ".".to_string())
    );
    assert_eq!(parse_posix_time_separator("%H.%M.%S"), ".");
    assert_eq!(parse_windows_time_separator("HH.mm.ss"), ".");
}

#[test]
fn styles_come_back_from_the_store() {
    for style in [DisplayStyle::Classic, DisplayStyle::SystemCompact, DisplayStyle::SystemFull] {
        assert_eq!(DisplayStyle::from_store(style.store_value()), Some(style));
    }
    assert_eq!(DisplayStyle::from_store("other"), None);
}

#[test]
fn classic_dates_carry_a_sign_outside_four_digits() {
    let system = european_profile();
    let classic = DisplayFormatter::new(DisplayStyle::Classic, &system);
    assert_eq!(classic.format_full_date(wednesday()), "2026-03-04");
    let late = Date { year: 12026, ..wednesday() };
    assert_eq!(classic.format_full_date(late), "+12026-03-04");
    let early = Date { year: -7, ..wednesday() };
    assert_eq!(classic.format_full_date(early), "-0007-03-04");
    let machine = DisplayFormatter::new(DisplayStyle::SystemFull, &system);
    assert_eq!(machine.format_full_date(late), "04.03.12026");
}

#[test]
fn a_clock_of_twelve_hours_has_a_marker() {
    let mut system = european_profile();
    system.time_24h = false;
    let f = DisplayFormatter::new(DisplayStyle::SystemFull, &system);
    assert_eq!(f.format_time(TimeOfDay { hour: 0, minute: 5 }), "12:05 AM");
    assert_eq!(f.format_time(TimeOfDay { hour: 13, minute: 30 }), "1:30 PM");
}

#[test]
fn digits_are_grouped_by_three() {
    assert_eq!(group_decimal_digits(1_000, " "), "1 000");
    assert_eq!(group_decimal_digits(999, " "), "999");
    assert_eq!(group_decimal_digits(1_234_567, ""), "1234567");
}

#[test]
fn missing_names_are_english() {
    let weekdays = fill_weekdays(&std::array::from_fn(|i| {
        if i == 6 { "Dom".to_string() } else { String::new() }
    }));
    assert_eq!(weekdays[0], "Mon");
    assert_eq!(weekdays[6], "Dom");
    let months = fill_months(&std::array::from_fn(|_| String::new()));
    assert_eq!(months[11], "Dec");
}

#[test]
fn the_c_locale_formats_plainly() {
    let system = SystemLocale::c_locale();
    let f = DisplayFormatter::new(DisplayStyle::SystemFull, &system);
    assert_eq!(f.format_count(45_456_785), "45456785");
    assert_eq!(f.format_full_date(wednesday()), "03/04/2026");
    assert_eq!(f.style_label(), "System Full (C)");
    assert_eq!(DisplayFormatter::new(DisplayStyle::Classic, &system).style_label(), "Classic");
}

#[test]
fn a_posix_locale_is_made_from_its_answers() {
    let l = posix_locale("de_DE".to_string(), &answers());
    assert_eq!(l.id(), "de_DE");
    assert_eq!(l.decimal_separator, ",");
    assert_eq!(l.date_order, DateOrder::DayMonthYear);
    assert_eq!(l.date_separator, ".");
    assert!(l.time_24h);
    assert_eq!(l.time_separator, ".");
    assert_eq!(l.abbreviated_weekdays[0], "Mo");
    assert_eq!(l.abbreviated_weekdays[1], "Tue");
    assert_eq!(l.am, "AM");
    assert_eq!(l.pm, "PM");
    let mut silent = answers();
    silent.decimal_separator = Some(String::new());
    silent.date_pattern = None;
    silent.time_pattern = Some("%I:%M:%S %p".to_string());
    let l = posix_locale("C".to_string(), &silent);
    assert_eq!(l.decimal_separator, ".");
    assert_eq!(l.date_order, DateOrder::MonthDayYear);
    assert!(!l.time_24h);
}

#[test]
fn a_windows_locale_needs_its_patterns() {
    let mut a = answers();
    a.date_pattern = Some("yyyy-MM-dd".to_string());
    a.time_pattern = Some("h:mm tt".to_string());
    let l = windows_locale(None, &a).expect("patterns are there");
    assert_eq!(l.id(), "system");
    assert_eq!(l.date_order, DateOrder::YearMonthDay);
    assert!(!l.time_24h);
    assert_eq!(l.am, "");
    a.time_pattern = None;
    assert!(windows_locale(None, &a).is_none());
}

#[test]
fn the_first_variable_that_is_set_names_the_locale() {
    assert_eq!(locale_id_from_settings(Some(" "), Some(" de_DE "), Some("x"), None), "de_DE");
    assert_eq!(locale_id_from_settings(None, None, None, Some("fr")), "fr");
    assert_eq!(locale_id_from_settings(None, None, None, None), "C");
}

#[test]
fn full_style_groups_with_plain_spaces() {
    let system = european_profile();
    let full = DisplayFormatter::new(DisplayStyle::SystemFull, &system);
    assert_eq!(full.format_u64(1_234_567), "1 234 567");
    let compact = DisplayFormatter::new(DisplayStyle::SystemCompact, &system);
    assert_eq!(compact.format_u64(1_234_567), "1\u{a0}234\u{a0}567");
}
