use remaining::date::Date;
use remaining::period::{CalendarMonthPeriodConfiguration, ErrorPeriodsBetween, Period, PeriodConfigurationVaultValue};

fn date(month: u32, day: u32) -> Date {
    return Date::from_ymd(2023, month, day).unwrap();
}

fn date_bisextile(month: u32, day: u32) -> Date {
    return Date::from_ymd(2024, month, day).unwrap();
}

fn date_next_year(month: u32, day: u32) -> Date {
    return Date::from_ymd(2024, month, day).unwrap();
}

fn date_several_years(month: u32, day: u32) -> Date {
    return Date::from_ymd(2026, month, day).unwrap();
}

fn check_period(input: Date, expected_output: Period) {
    let config = CalendarMonthPeriodConfiguration {};
    let result = config.period_for_date(&input).unwrap();
    assert_eq!(result, expected_output)
}

fn thirty_days() -> Period {
    Period { start_date: date(4, 1), end_date: date(4, 30) }
}

fn thirty_one_days() -> Period {
    Period { start_date: date(5, 1), end_date: date(5, 31) }
}

fn end_of_year() -> Period {
    Period { start_date: date(12, 1), end_date: date(12, 31) }
}

fn february_28() -> Period {
    Period { start_date: date(2, 1), end_date: date(2, 28) }
}

fn february_29() -> Period {
    Period { start_date: date_bisextile(2, 1), end_date: date_bisextile(2, 29) }
}

#[test]
fn calendar_month_period_mid_month() {
    check_period(date(4, 15), thirty_days());
    check_period(date(5, 15), thirty_one_days());
    check_period(date(12, 15), end_of_year());
    check_period(date(2, 15), february_28());
    check_period(date_bisextile(2, 15), february_29());
}

#[test]
fn calendar_month_period_end_of_month() {
    check_period(date(4, 30), thirty_days());
    check_period(date(5, 31), thirty_one_days());
    check_period(date(12, 31), end_of_year());
    check_period(date(2, 28), february_28());
    check_period(date_bisextile(2, 29), february_29());
}

#[test]
fn calendar_month_period_beginning_of_month() {
    check_period(date(4, 1), thirty_days());
    check_period(date(5, 1), thirty_one_days());
    check_period(date(12, 1), end_of_year());
    check_period(date(2, 1), february_28());
    check_period(date_bisextile(2, 1), february_29());
}

fn check_between(start: Date, end: Date, expected_output: u16) {
    let config = CalendarMonthPeriodConfiguration {};
    let result = config.periods_between_nb(&start, &end).unwrap();
    assert_eq!(result, expected_output)
}

#[test]
fn calendar_month_period_mid() {
    // same month
    check_between(date(4, 4), date(4, 15), 1);
    // adjacent months
    check_between(date(4, 4), date(5, 15), 2);
    // several months
    check_between(date(2, 26), date(6, 15), 5);
    // adjacent years
    check_between(date(10, 17), date_next_year(2, 14), 5);
    // several years: 2024 and 2025 make 24 months, 3 in 2023, 2 in 2026
    check_between(date(10, 17), date_several_years(2, 15), 29);
}

#[test]
fn calendar_month_period_ends() {
    check_between(date(4, 1), date(5, 31), 2);
    check_between(date(2, 1), date(6, 30), 5);
    check_between(date(1, 1), date_next_year(12, 31), 24);
    check_between(date(1, 1), date_several_years(12, 31), 48);
}

#[test]
fn calendar_month_period_inner_ends() {
    check_between(date(4, 30), date(5, 1), 2);
    check_between(date(2, 28), date(6, 1), 5);
    check_between(date(12, 31), date_next_year(1, 1), 2);
    // 2024 and 2025 make 24 months, one in 2023 and one in 2026
    check_between(date(12, 31), date_several_years(1, 1), 26);
}

#[test]
fn end_before_start() {
    let config = CalendarMonthPeriodConfiguration {};
    let result = config.periods_between_nb(&date(4, 4), &date(3, 15));
    assert_eq!(result, Err(ErrorPeriodsBetween::EndBeforeStart))
}

#[test]
fn calendar_month_period_todo() {
    let config = CalendarMonthPeriodConfiguration {};
    // The months from April to July, both included, in order.
    let april = config.period_for_date(&date(4, 10)).unwrap();
    let july = config.period_for_date(&date(7, 20)).unwrap();
    let between = config.periods_between(&april, &july).unwrap();
    assert_eq!(
        between,
        vec![
            Period { start_date: date(4, 1), end_date: date(4, 30) },
            Period { start_date: date(5, 1), end_date: date(5, 31) },
            Period { start_date: date(6, 1), end_date: date(6, 30) },
            Period { start_date: date(7, 1), end_date: date(7, 31) },
        ]
    );
    // A single month.
    assert_eq!(config.periods_between(&april, &april).unwrap(), vec![april]);
    // Across the end of a year.
    let december = config.period_for_date(&date(12, 5)).unwrap();
    let february = config.period_for_date(&date_next_year(2, 5)).unwrap();
    assert_eq!(
        config.periods_between(&december, &february).unwrap(),
        vec![
            Period { start_date: date(12, 1), end_date: date(12, 31) },
            Period { start_date: date_next_year(1, 1), end_date: date_next_year(1, 31) },
            Period { start_date: date_next_year(2, 1), end_date: date_next_year(2, 29) },
        ]
    );
    // The end before the start.
    assert_eq!(config.periods_between(&july, &april), Err(ErrorPeriodsBetween::EndBeforeStart));
}

#[test]
fn interface_test() {
    let configs = vec![PeriodConfigurationVaultValue::CalendarMonth];
    for config in configs {
        match config {
            PeriodConfigurationVaultValue::CalendarMonth => {
                let expected_period = Period {
                    start_date: Date::from_ymd(2023, 4, 1).expect("Could parse date"),
                    end_date: Date::from_ymd(2023, 4, 30).expect("Could parse date"),
                };
                let built_period = CalendarMonthPeriodConfiguration::period_from_id("2023-04").expect("Could parse period");
                assert_eq!(expected_period, built_period);
                assert_eq!(
                    "2023-04",
                    config.id_for_period(&built_period).expect("Could convert period to string")
                );
            }
        }
    }
}

#[test]
fn test_deserialize_precise_period() {
    let period = Period {
        start_date: Date::from_ymd(2021, 1, 1).unwrap(),
        end_date: Date::from_ymd(2021, 1, 28).unwrap(),
    };
    assert_eq!(Period::from_text("2021-01-01/2021-01-28"), Ok(period));
    assert_eq!(period.to_text(), Ok("2021-01-01/2021-01-28".to_string()));
}

#[test]
fn test_deserialize_month() {
    let period = Period {
        start_date: Date::from_ymd(2021, 1, 1).unwrap(),
        end_date: Date::from_ymd(2021, 1, 31).unwrap(),
    };
    assert_eq!(Period::from_text("2021-01"), Ok(period));
    assert_eq!(period.to_text(), Ok("2021-01".to_string()));
}

#[test]
fn period_text_errors() {
    assert_eq!(
        Period::from_text("2021-01-01-2021-01-28"),
        Err("invalid value: string \"2021-01-01-2021-01-28\", expected Two ISO dates separated by a slash".to_string())
    );
    assert_eq!(
        Period::from_text("2021-13-01/2021-01-28"),
        Err("invalid value: string \"2021-13-01\", expected an ISO date".to_string())
    );
    assert_eq!(
        Period::from_text("2021/01"),
        Err("invalid value: string \"2021/01\", expected a year and a month separated by a dash".to_string())
    );
    assert_eq!(
        Period::from_text("20a1-01"),
        Err("invalid value: string \"20a1\", expected a valid number".to_string())
    );
    assert_eq!(
        Period::from_text("2021-13"),
        Err("invalid value: string \"2021-13\", expected a valid month".to_string())
    );
    assert_eq!(
        Period::from_text("2021-1"),
        Err("invalid length 6, expected a either 7 or 21 characters long string".to_string())
    );
    // A period that is not a whole month is written with its two dates.
    let period = Period {
        start_date: Date::from_ymd(2021, 2, 1).unwrap(),
        end_date: Date::from_ymd(2021, 2, 27).unwrap(),
    };
    assert_eq!(period.to_text(), Ok("2021-02-01/2021-02-27".to_string()));
}

#[test]
fn period_id_round_trip() {
    let config = CalendarMonthPeriodConfiguration {};
    for month in 1..=12u32 {
        let period = config.period_for_date(&Date::from_ymd(2025, month, 3).unwrap()).unwrap();
        let id = config.id_for_period(&period).unwrap();
        assert_eq!(CalendarMonthPeriodConfiguration::period_from_id(&id), Ok(period));
    }
    assert_eq!(config.id_for_period(&Period { start_date: date(4, 1), end_date: date(4, 30) }), Ok("2023-04".to_string()));
}

#[test]
fn previous_period_of_january_is_december_of_the_year_before() {
    let config = CalendarMonthPeriodConfiguration {};
    let january = Period { start_date: Date::from_ymd(2026, 1, 1).unwrap(), end_date: Date::from_ymd(2026, 1, 31).unwrap() };
    let december = Period { start_date: Date::from_ymd(2025, 12, 1).unwrap(), end_date: Date::from_ymd(2025, 12, 31).unwrap() };
    assert_eq!(config.previous_period(&january).unwrap(), december);
    let march = Period { start_date: date(3, 1), end_date: date(3, 31) };
    assert_eq!(config.previous_period(&march).unwrap(), Period { start_date: date(2, 1), end_date: date(2, 28) });
}

#[test]
fn two_date_period_text_reads_back() {
    let p = Period { start_date: Date::from_ymd(2021, 1, 5).unwrap(), end_date: Date::from_ymd(2021, 3, 10).unwrap() };
    let t = p.to_text().unwrap();
    assert_eq!(t, "2021-01-05/2021-03-10");
    assert_eq!(Period::from_text(&t).unwrap(), p);
    let q = Period { start_date: Date::from_ymd(2021, 1, 1).unwrap(), end_date: Date::from_ymd(2021, 3, 30).unwrap() };
    assert_eq!(Period::from_text(&q.to_text().unwrap()).unwrap(), q);
}
