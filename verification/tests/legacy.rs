use remaining::accounts::{AccountJson, AmountListItem};
use remaining::amounts::Figure;
use remaining::date::Date;
use remaining::goals::GoalImplementation;
use remaining::legacy::{compute_legacy_remaining_screen, DisplayAccount, DisplayGoal, LegacyAmount, LegacyRates, RemainingOperation};
use remaining::period::{AnyPeriodsConfiguration, FixedLengthPeriodConfiguration, Period};

fn mkdate(day: u32) -> Date {
    Date::from_ymd(2023, 12, day).unwrap()
}

fn dec(s: &str) -> Figure {
    Figure::from_text(s).expect("valid figure")
}

// Periods of `length` days from `start`: the period that holds the date of
// the operation runs from `start` to `end`.
fn mkperiodsconfig(start_date: &Date, end_date: &Date) -> AnyPeriodsConfiguration {
    AnyPeriodsConfiguration::FixedLength(FixedLengthPeriodConfiguration {
        start_date: *start_date,
        period_in_days: (end_date.day - start_date.day + 1) as u8,
    })
}

fn rates(list: Vec<(&str, &str)>) -> LegacyRates {
    LegacyRates { rates: list.into_iter().map(|(c, r)| (c.to_string(), dec(r))).collect() }
}

fn account(name: &str, currency: &str, period_start: Date, start_figure: u32, today: Date, today_figure: u32) -> AccountJson {
    AccountJson {
        name: name.to_string(),
        currency: currency.to_string(),
        amounts: vec![
            AmountListItem { date: period_start, amount: start_figure },
            AmountListItem { date: today, amount: today_figure },
        ],
    }
}

fn goal(commited: Vec<(u32, u32)>, target: u32, currency: &str, target_date: Date) -> GoalImplementation {
    GoalImplementation {
        name: "Mocked goal".to_string(),
        currency: currency.to_string(),
        target,
        commited: commited.into_iter().map(|(day, figure)| (mkdate(day), figure)).collect(),
        target_date,
    }
}

fn defaultinstance() -> RemainingOperation {
    RemainingOperation {
        rates: rates(vec![("EUR", "1"), ("JPN", "2")]),
        target_currency: "EUR".to_string(),
        date: mkdate(3),
        periods_configuration: mkperiodsconfig(&mkdate(1), &mkdate(4)),
        raw_accounts: vec![],
        goals: vec![],
        predicted_income: None,
    }
}

fn same_figure(a: &Figure, b: &Figure) -> bool {
    a.in_cents() == b.in_cents()
}

fn same_account(a: &DisplayAccount, b: &DisplayAccount) -> bool {
    a.name == b.name
        && a.currency == b.currency
        && same_figure(&a.period_start_balance, &b.period_start_balance)
        && same_figure(&a.current_balance, &b.current_balance)
        && same_figure(&a.difference, &b.difference)
}

fn same_goal(a: &DisplayGoal, b: &DisplayGoal) -> bool {
    a.name == b.name
        && a.currency == b.currency
        && same_figure(&a.committed, &b.committed)
        && same_figure(&a.committed_this_period, &b.committed_this_period)
        && same_figure(&a.target, &b.target)
        && match (&a.to_commit_this_period, &b.to_commit_this_period) {
            (Some(x), Some(y)) => same_figure(x, y),
            (None, None) => true,
            _ => false,
        }
}

fn same_amount(a: &LegacyAmount, b: &LegacyAmount) -> bool {
    a.currency == b.currency && same_figure(&a.figure, &b.figure)
}

fn display_account(name: &str, currency: &str, start: &str, current: &str, difference: &str) -> DisplayAccount {
    DisplayAccount {
        name: name.to_string(),
        currency: currency.to_string(),
        period_start_balance: dec(start),
        current_balance: dec(current),
        difference: dec(difference),
    }
}

fn amount(figure: &str, currency: &str) -> LegacyAmount {
    LegacyAmount { figure: dec(figure), currency: currency.to_string() }
}

fn overall_goal(committed: &str, committed_this_period: &str, to_commit: Option<&str>, target: &str) -> DisplayGoal {
    DisplayGoal {
        name: "Overall Goal".into(),
        committed: dec(committed),
        committed_this_period: dec(committed_this_period),
        to_commit_this_period: to_commit.map(dec),
        target: dec(target),
        currency: "EUR".into(),
    }
}

struct TestRunner {
    target_currency: String,
    rate_credit: &'static str,
    rate_eur: &'static str,
    period_start: Date,
    period_end: Date,
    today: Date,
    accounts: Vec<(&'static str, &'static str, u32, u32)>,
    predicted_income: Option<LegacyAmount>,
    goals: Vec<GoalImplementation>,
    expected_commited: Vec<&'static str>,
    expected_overall_goal: DisplayGoal,
    expected_predicted_income: Option<LegacyAmount>,
    expected_uncommitted: LegacyAmount,
    expected_overcommitted: bool,
    expected_remaining: LegacyAmount,
}

impl TestRunner {
    fn test(self) {
        let operation = RemainingOperation {
            target_currency: self.target_currency,
            rates: rates(vec![("CREDIT", self.rate_credit), ("EUR", self.rate_eur)]),
            periods_configuration: mkperiodsconfig(&self.period_start, &self.period_end),
            date: self.today,
            raw_accounts: self
                .accounts
                .iter()
                .map(|(name, currency, start, today)| account(name, currency, self.period_start, *start, self.today, *today))
                .collect(),
            predicted_income: self.predicted_income,
            goals: self.goals,
        };

        let result = compute_legacy_remaining_screen(&operation).unwrap();

        assert_eq!(result.goals.len(), self.expected_commited.len());
        for (g, c) in result.goals.iter().zip(self.expected_commited.iter()) {
            assert!(same_figure(&g.committed, &dec(c)), "committed {:?}", g.committed);
        }
        assert!(same_goal(&result.overall_goal, &self.expected_overall_goal), "overall goal {:?}", result.overall_goal);
        assert!(same_amount(&result.remaining, &self.expected_remaining), "remaining {:?}", result.remaining);
        match (&result.predicted_income, &self.expected_predicted_income) {
            (Some(a), Some(b)) => assert!(same_amount(a, b)),
            (None, None) => {}
            _ => panic!("unexpected predicted income {:?}", result.predicted_income),
        }
        assert!(same_amount(&result.uncommitted, &self.expected_uncommitted), "uncommitted {:?}", result.uncommitted);
        assert_eq!(result.overcommitted, self.expected_overcommitted);
    }
}

fn next_year(month: u32, day: u32) -> Date {
    Date::from_ymd(2024, month, day).unwrap()
}

#[test]
fn test_period() {
    let operation = RemainingOperation {
        date: mkdate(3),
        periods_configuration: mkperiodsconfig(&mkdate(1), &mkdate(4)),
        ..defaultinstance()
    };
    let result = compute_legacy_remaining_screen(&operation);
    assert_eq!(result.unwrap().current_period, Period { start_date: mkdate(1), end_date: mkdate(4) })
}

#[test]
fn legacy_test_fails__period_config_initialization() {
    // The date of the operation is before the periods configuration starts.
    let operation = RemainingOperation {
        date: mkdate(3),
        periods_configuration: mkperiodsconfig(&mkdate(5), &mkdate(8)),
        ..defaultinstance()
    };
    let result = compute_legacy_remaining_screen(&operation);
    assert_eq!(
        result.unwrap_err(),
        "Failed to fetch Periods Configuration: Date is before PeriodsConfiguration's start"
    )
}

#[test]
fn legacy_test__fails__account_parsing() {
    // The account's history is out of order: querying it fails.
    let failing = AccountJson {
        name: "Failing account".to_string(),
        currency: "EUR".to_string(),
        amounts: vec![AmountListItem { date: mkdate(1), amount: 5 }, AmountListItem { date: mkdate(3), amount: 4 }, AmountListItem { date: mkdate(2), amount: 6 }],
    };
    let operation = RemainingOperation {
        periods_configuration: mkperiodsconfig(&mkdate(1), &mkdate(4)),
        raw_accounts: vec![failing],
        ..defaultinstance()
    };
    let result = compute_legacy_remaining_screen(&operation);
    assert_eq!(
        result.unwrap_err(),
        "Error when querying account \"Failing account\": Amount history out of order".to_string()
    )
}

#[test]
fn legacy_test__single_account__same_currency() {
    let operation = RemainingOperation {
        date: mkdate(3),
        periods_configuration: mkperiodsconfig(&mkdate(1), &mkdate(4)),
        target_currency: "CREDIT".to_string(),
        rates: rates(vec![("CREDIT", "1"), ("EUR", "2.4")]),
        raw_accounts: vec![account("Galactic bank", "CREDIT", mkdate(1), 10, mkdate(3), 6)],
        ..defaultinstance()
    };
    let result = compute_legacy_remaining_screen(&operation).unwrap();

    assert_eq!(result.individual_balances.len(), 1);
    assert!(same_account(&result.individual_balances[0], &display_account("Galactic bank", "CREDIT", "10", "6", "-4")));
    assert!(same_account(&result.overall_balance, &display_account("Overall Balance", "CREDIT", "10", "6", "-4")));
    assert!(same_amount(&result.remaining, &amount("-4", "CREDIT")));
}

#[test]
fn legacy_test__single_account__different_currency() {
    let operation = RemainingOperation {
        date: mkdate(3),
        periods_configuration: mkperiodsconfig(&mkdate(1), &mkdate(4)),
        target_currency: "EUR".to_string(),
        rates: rates(vec![("CREDIT", "1.0"), ("EUR", "2.4")]),
        raw_accounts: vec![account("Galactic bank", "CREDIT", mkdate(1), 10, mkdate(3), 6)],
        ..defaultinstance()
    };
    let result = compute_legacy_remaining_screen(&operation).unwrap();

    assert_eq!(result.individual_balances.len(), 1);
    assert!(same_account(&result.individual_balances[0], &display_account("Galactic bank", "CREDIT", "10", "6", "-4")));
    assert!(same_account(&result.overall_balance, &display_account("Overall Balance", "EUR", "24.00", "14.40", "-9.60")));
    assert!(same_amount(&result.remaining, &amount("-9.60", "EUR")));
}

#[test]
fn legacy_test__account_conversion__multiple_account() {
    let operation = RemainingOperation {
        date: mkdate(3),
        periods_configuration: mkperiodsconfig(&mkdate(1), &mkdate(4)),
        target_currency: "EUR".to_string(),
        rates: rates(vec![("CREDIT", "1.0"), ("EUR", "2.4")]),
        raw_accounts: vec![
            account("Galactic bank", "CREDIT", mkdate(1), 10, mkdate(3), 6),
            account("European bank", "EUR", mkdate(1), 21, mkdate(3), 2),
        ],
        ..defaultinstance()
    };
    let result = compute_legacy_remaining_screen(&operation).unwrap();

    let expected = vec![
        display_account("Galactic bank", "CREDIT", "10", "6", "-4"),
        display_account("European bank", "EUR", "21", "2", "-19"),
    ];
    assert_eq!(result.individual_balances.len(), 2);
    for e in expected.iter() {
        assert!(result.individual_balances.iter().any(|a| same_account(a, e)));
    }
    assert!(same_account(&result.overall_balance, &display_account("Overall Balance", "EUR", "45", "16.40", "-28.6")));
    assert!(same_amount(&result.remaining, &amount("-28.6", "EUR")));
}

#[test]
fn test__goal__different_currencies__committed_this_period() {
    TestRunner {
        target_currency: "EUR".into(),
        rate_credit: "1.0",
        rate_eur: "2.4",
        period_start: mkdate(16),
        period_end: mkdate(31),
        today: mkdate(17),
        accounts: vec![],
        predicted_income: None,
        expected_predicted_income: None,
        // One commit outside of the period, one in it: nothing more to pay.
        goals: vec![goal(vec![(1, 2), (16, 3)], 15, "CREDIT", mkdate(31))],
        expected_commited: vec!["5"],
        expected_overall_goal: overall_goal("12", "7.20", None, "36"),
        expected_uncommitted: amount("-12", "EUR"),
        expected_overcommitted: true,
        expected_remaining: amount("-7.2", "EUR"),
    }
    .test();
}

#[test]
fn test__goal__different_currencies__not_committed_this_period() {
    TestRunner {
        target_currency: "EUR".into(),
        rate_credit: "1.0",
        rate_eur: "2.4",
        period_start: mkdate(16),
        period_end: mkdate(31),
        today: mkdate(17),
        accounts: vec![],
        predicted_income: None,
        expected_predicted_income: None,
        // Ten remain over two periods: five to pay.
        goals: vec![goal(vec![(1, 2), (1, 3)], 15, "CREDIT", next_year(1, 10))],
        expected_commited: vec!["5"],
        expected_overall_goal: overall_goal("12", "0", Some("12"), "36"),
        expected_uncommitted: amount("-12", "EUR"),
        expected_overcommitted: true,
        expected_remaining: amount("-12", "EUR"),
    }
    .test();
}

#[test]
fn test__goal__nothing_to_pay__committed_this_period() {
    TestRunner {
        target_currency: "EUR".into(),
        rate_credit: "1.0",
        rate_eur: "2.4",
        period_start: mkdate(16),
        period_end: mkdate(31),
        today: mkdate(17),
        accounts: vec![],
        predicted_income: None,
        expected_predicted_income: None,
        goals: vec![goal(vec![(1, 2), (16, 3)], 15, "EUR", mkdate(31))],
        expected_commited: vec!["5"],
        expected_overall_goal: overall_goal("5", "3", None, "15"),
        expected_uncommitted: amount("-5", "EUR"),
        expected_overcommitted: true,
        expected_remaining: amount("-3", "EUR"),
    }
    .test();
}

#[test]
fn test__goal__nothing_to_pay__not_committed_this_period() {
    TestRunner {
        target_currency: "EUR".into(),
        rate_credit: "1.0",
        rate_eur: "2.4",
        period_start: mkdate(16),
        period_end: mkdate(31),
        today: mkdate(17),
        accounts: vec![],
        predicted_income: None,
        expected_predicted_income: None,
        // Ten remain over many periods: nothing to pay this period.
        goals: vec![goal(vec![(1, 2), (1, 3)], 15, "EUR", next_year(12, 31))],
        expected_commited: vec!["5"],
        expected_overall_goal: overall_goal("5", "0", None, "15"),
        expected_uncommitted: amount("-5", "EUR"),
        expected_overcommitted: true,
        expected_remaining: amount("0", "EUR"),
    }
    .test();
}

#[test]
fn legacy_test__goal__nothing_commited() {
    TestRunner {
        target_currency: "EUR".into(),
        rate_credit: "1.0",
        rate_eur: "2.4",
        period_start: mkdate(1),
        period_end: mkdate(31),
        today: mkdate(3),
        accounts: vec![],
        predicted_income: None,
        expected_predicted_income: None,
        // Fifteen over three periods of 31 days.
        goals: vec![goal(vec![], 15, "EUR", next_year(2, 10))],
        expected_commited: vec!["0"],
        expected_overall_goal: overall_goal("0", "0", Some("5"), "15"),
        expected_uncommitted: amount("0", "EUR"),
        expected_overcommitted: false,
        expected_remaining: amount("-5", "EUR"),
    }
    .test();
}

#[test]
fn test__goal__multiple_goals__different_currencies__committed_this_period() {
    TestRunner {
        target_currency: "EUR".into(),
        rate_credit: "1.0",
        rate_eur: "2.4",
        period_start: mkdate(16),
        period_end: mkdate(31),
        today: mkdate(17),
        accounts: vec![],
        predicted_income: None,
        expected_predicted_income: None,
        goals: vec![
            goal(vec![(1, 15), (16, 20)], 15, "EUR", mkdate(31)),
            goal(vec![(3, 5), (17, 5)], 1500, "CREDIT", mkdate(31)),
        ],
        expected_commited: vec!["35", "10"],
        expected_overall_goal: overall_goal("59", "32", None, "3615"),
        expected_uncommitted: amount("-59", "EUR"),
        expected_overcommitted: true,
        expected_remaining: amount("-32", "EUR"),
    }
    .test();
}

#[test]
fn legacy_test__predicted_amount__same_currency() {
    TestRunner {
        target_currency: "EUR".into(),
        predicted_income: Some(amount("1200", "EUR")),
        expected_predicted_income: Some(amount("1200", "EUR")),
        expected_remaining: amount("1200", "EUR"),
        rate_credit: "1",
        rate_eur: "2.4",
        period_start: mkdate(1),
        period_end: mkdate(31),
        today: mkdate(3),
        accounts: vec![],
        goals: vec![],
        expected_commited: vec![],
        expected_overall_goal: overall_goal("0", "0", None, "0"),
        expected_overcommitted: false,
        expected_uncommitted: amount("0", "EUR"),
    }
    .test()
}

#[test]
fn legacy_accounts_and_predicted_income() {
    // Two accounts, a goal committed this period and a predicted income in
    // another currency.
    TestRunner {
        target_currency: "EUR".into(),
        rate_credit: "1",
        rate_eur: "2.4",
        period_start: mkdate(16),
        period_end: mkdate(31),
        today: mkdate(17),
        predicted_income: Some(amount("1200", "CREDIT")),
        expected_predicted_income: Some(amount("2880", "EUR")),
        accounts: vec![("European bank", "EUR", 1630, 1500), ("Galactic bank", "CREDIT", 1400, 1338)],
        goals: vec![goal(vec![(3, 5), (17, 5)], 1500, "CREDIT", mkdate(31))],
        expected_commited: vec!["10"],
        expected_overall_goal: overall_goal("24", "12", None, "3600"),
        // Balance now: 1500 + 1338 * 2.4 = 4711.2; minus the 24 committed.
        expected_uncommitted: amount("4687.2", "EUR"),
        expected_overcommitted: false,
        // Difference -130 - 148.8, the 12 committed this period, plus the income.
        expected_remaining: amount("2589.2", "EUR"),
    }
    .test()
}

#[test]
fn legacy_predicted_income_with_more_than_two_decimals_is_added_exactly() {
    let operation = RemainingOperation {
        date: mkdate(3),
        periods_configuration: mkperiodsconfig(&mkdate(1), &mkdate(4)),
        target_currency: "CREDIT".to_string(),
        rates: rates(vec![("CREDIT", "1"), ("EUR", "2.4")]),
        raw_accounts: vec![account("Galactic bank", "CREDIT", mkdate(1), 10, mkdate(3), 6)],
        predicted_income: Some(amount("1.005", "CREDIT")),
        ..defaultinstance()
    };
    let result = compute_legacy_remaining_screen(&operation).unwrap();
    let remaining = result.remaining.figure;
    assert_eq!((remaining.mantissa, remaining.scale), (-2995, 3));
    let predicted = result.predicted_income.unwrap().figure;
    assert_eq!((predicted.mantissa, predicted.scale), (1005, 3));
}

#[test]
fn current_balance_screen_adds_predicted_income_to_the_current_balance() {
    let operation = RemainingOperation {
        date: mkdate(3),
        periods_configuration: mkperiodsconfig(&mkdate(1), &mkdate(4)),
        target_currency: "CREDIT".to_string(),
        rates: rates(vec![("CREDIT", "1"), ("EUR", "2.4")]),
        raw_accounts: vec![account("Galactic bank", "CREDIT", mkdate(1), 10, mkdate(3), 6)],
        predicted_income: Some(amount("1.005", "CREDIT")),
        ..defaultinstance()
    };
    let screen = operation.execute_current_balance().unwrap();
    assert_eq!((screen.remaining.mantissa, screen.remaining.scale), (7005, 3));
    assert_eq!(screen.currency, "CREDIT");
    assert_eq!(screen.period_start, mkdate(1));
    assert!(same_account(&screen.overall_balance, &display_account("Overall Balance", "CREDIT", "10", "6", "-4")));
}
