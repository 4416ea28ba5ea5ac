use weather::cli::{parse_provider_kind, ProviderKind};
use weather::date::{parse_date, parse_date_in_year, Date};
use weather::error::WeatherError;
use weather::text::{decimal_text, same_text, signed_decimal_text, starts_with};

#[test]
fn full_names_of_providers() {
    assert_eq!(ProviderKind::Open.full_name(), "OpenWeather");
    assert_eq!(ProviderKind::Accu.full_name(), "AccuWeather");
}

#[test]
fn short_names_of_providers() {
    assert_eq!(ProviderKind::Open.to_string(), "open");
    assert_eq!(ProviderKind::Accu.to_string(), "accu");
}

#[test]
fn all_providers_in_order() {
    assert_eq!(ProviderKind::all(), vec![ProviderKind::Open, ProviderKind::Accu]);
}

#[test]
fn from_str_reads_full_names() {
    assert!(matches!(ProviderKind::from_str("OpenWeather"), Ok(ProviderKind::Open)));
    assert!(matches!(ProviderKind::from_str("AccuWeather"), Ok(ProviderKind::Accu)));
}

#[test]
fn from_str_refuses_other_names() {
    let e = ProviderKind::from_str("open").unwrap_err();
    assert!(matches!(e, WeatherError::UnknownProvider));
    assert_eq!(e.message(), "Unknown provider");
    assert!(ProviderKind::from_str("").is_err());
    assert!(ProviderKind::from_str("openweather").is_err());
}

#[test]
fn full_name_round_trip() {
    for kind in ProviderKind::all() {
        assert_eq!(ProviderKind::from_str(&kind.full_name()).unwrap(), kind);
    }
}

#[test]
fn parse_provider_kind_reads_short_names() {
    assert!(matches!(parse_provider_kind("open"), Ok(ProviderKind::Open)));
    assert!(matches!(parse_provider_kind("accu"), Ok(ProviderKind::Accu)));
    for kind in ProviderKind::all() {
        assert_eq!(parse_provider_kind(&kind.to_string()).unwrap(), kind);
    }
}

#[test]
fn parse_provider_kind_offers_options() {
    let e = parse_provider_kind("OpenWeather").unwrap_err();
    match &e {
        WeatherError::ProviderOptions { options } => {
            assert_eq!(options, &vec!["open".to_string(), "accu".to_string()]);
        }
        other => panic!("unexpected error {:?}", other),
    }
    assert_eq!(e.message(), "\ntry: 'open'|'accu'");
}

#[test]
fn dates_from_year_month_day() {
    assert!(Date::from_ymd(2024, 2, 29).is_some());
    assert!(Date::from_ymd(2023, 2, 29).is_none());
    assert!(Date::from_ymd(1900, 2, 29).is_none());
    assert!(Date::from_ymd(2000, 2, 29).is_some());
    assert!(Date::from_ymd(-4, 2, 29).is_some());
    assert!(Date::from_ymd(-100, 2, 29).is_none());
    assert!(Date::from_ymd(2024, 4, 31).is_none());
    assert!(Date::from_ymd(2024, 12, 31).is_some());
    assert!(Date::from_ymd(2024, 13, 1).is_none());
    assert!(Date::from_ymd(2024, 0, 1).is_none());
    assert!(Date::from_ymd(2024, 1, 0).is_none());
    assert!(Date::from_ymd(262142, 12, 31).is_some());
    assert!(Date::from_ymd(262143, 1, 1).is_none());
    assert!(Date::from_ymd(-262143, 1, 1).is_some());
    assert!(Date::from_ymd(-262144, 1, 1).is_none());
    let d = Date::from_ymd(2024, 3, 5).unwrap();
    assert_eq!((d.year(), d.month(), d.day()), (2024, 3, 5));
}

#[test]
fn dates_as_iso_text() {
    assert_eq!(Date::from_ymd(2024, 3, 5).unwrap().to_string(), "2024-03-05");
    assert_eq!(Date::from_ymd(987, 11, 25).unwrap().to_string(), "0987-11-25");
    assert_eq!(Date::from_ymd(12345, 6, 7).unwrap().to_string(), "+12345-06-07");
    assert_eq!(Date::from_ymd(-1, 1, 1).unwrap().to_string(), "-0001-01-01");
}

#[test]
fn dates_as_day_month() {
    assert_eq!(Date::from_ymd(2024, 3, 5).unwrap().format_day_month(), "05.03");
    assert_eq!(Date::from_ymd(2024, 12, 31).unwrap().format_day_month(), "31.12");
}

#[test]
fn parse_date_in_a_given_year() {
    let d = parse_date_in_year("05.03", 2024).unwrap();
    assert_eq!((d.year(), d.month(), d.day()), (2024, 3, 5));
    let d = parse_date_in_year("29.02", 2024).unwrap();
    assert_eq!((d.year(), d.month(), d.day()), (2024, 2, 29));
    let d = parse_date_in_year("31.12", 1999).unwrap();
    assert_eq!((d.year(), d.month(), d.day()), (1999, 12, 31));
}

#[test]
fn parse_date_refuses_bad_dates() {
    for bad in ["29.02", "31.04", "32.01", "1.13", "03-05", "", "x.y", "05.03.2024"] {
        let e = parse_date_in_year(bad, 2023).unwrap_err();
        assert!(matches!(e, WeatherError::InvalidDate), "{bad}");
        assert_eq!(e.message(), "Accepted date format: day.month");
    }
}

#[test]
fn parse_date_uses_the_current_year() {
    let year = chrono::Datelike::year(&chrono::Utc::now().naive_utc());
    let d = parse_date("01.01").unwrap();
    assert_eq!((d.year(), d.month(), d.day()), (year, 1, 1));
    assert!(matches!(parse_date("00.01"), Err(WeatherError::InvalidDate)));
}

#[test]
fn decimal_numerals() {
    assert_eq!(decimal_text(0), "0");
    assert_eq!(decimal_text(7), "7");
    assert_eq!(decimal_text(10), "10");
    assert_eq!(decimal_text(2024), "2024");
    assert_eq!(decimal_text(u64::MAX), u64::MAX.to_string());
    assert_eq!(signed_decimal_text(-42), "-42");
    assert_eq!(signed_decimal_text(i64::MIN), i64::MIN.to_string());
    assert_eq!(signed_decimal_text(5), "5");
}

#[test]
fn text_comparisons() {
    assert!(same_text("abc", "abc"));
    assert!(!same_text("abc", "abd"));
    assert!(starts_with("2024-03-05 12:00:00", "2024-03-05"));
    assert!(!starts_with("2024-03-05", "2024-03-05 12"));
    assert!(starts_with("äbc", "ä"));
    assert!(starts_with("x", ""));
}

#[test]
fn printed_day_month_is_read_back() {
    for (y, m, d) in [(2024, 2, 29), (1999, 12, 31), (2025, 1, 1), (1000, 7, 4), (9999, 10, 10)] {
        let date = Date::from_ymd(y, m, d).unwrap();
        let text = date.format_day_month();
        assert_eq!(parse_date_in_year(&text, y).unwrap(), date);
    }
}
