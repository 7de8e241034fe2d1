use remaining::amounts::{Amount, ExchangeRates, RawAmount};
use remaining::date::Date;
use remaining::formatting::render_group;
use remaining::period::{CalendarMonthPeriodConfiguration, Period, PeriodConfigurationVaultValue};
use remaining::predicted_transaction::{Payment, PeriodTransactionsVaultValue, PredictedTransaction, PredictedTransactionTemplate, Target};
use remaining::remaining_operation::{Group, OperandBuilder};

fn d(y: i32, m: u32, day: u32) -> Date {
    Date::from_ymd(y, m, day).expect("valid date")
}

fn period_of(date: &Date) -> Period {
    CalendarMonthPeriodConfiguration {}.period_for_date(date).expect("valid period")
}

fn minus_days(date: &Date, days: u32) -> Date {
    Date::from_ymd(date.year, date.month, date.day - days).unwrap()
}

fn plus_days(date: &Date, days: u64) -> Date {
    date.checked_add_days(days).unwrap()
}

fn same_transactions(a: &[PredictedTransaction], b: &[PredictedTransaction]) -> bool {
    a.len() == b.len() && a.iter().zip(b.iter()).all(|(x, y)| x.name == y.name && x.amount.equals(&y.amount))
}

fn same_raw_amount(a: &RawAmount, b: &RawAmount) -> bool {
    a.currency == b.currency && a.figure.in_cents() == b.figure.in_cents()
}

fn same_decisions(a: &[(Period, RawAmount)], b: &[(Period, RawAmount)]) -> bool {
    a.len() == b.len() && a.iter().zip(b.iter()).all(|(x, y)| x.0 == y.0 && same_raw_amount(&x.1, &y.1))
}

fn clone_raw(r: &RawAmount) -> RawAmount {
    r.duplicate()
}

fn clone_payments(p: &[Payment]) -> Vec<Payment> {
    p.iter().map(|x| Payment(x.0)).collect()
}

struct TemplateCase {
    name: String,
    starting_period: Period,
    payments: Vec<Payment>,
    expected_predicted_transitions: Vec<PredictedTransaction>,
}

fn run_predicted_transactions() {
    let periods_configuration = PeriodConfigurationVaultValue::CalendarMonth;
    let today = d(2026, 6, 14);
    let current_period = period_of(&today);
    let last_period = period_of(&d(2026, 5, 14));

    let ex = ExchangeRates::for_tests();
    let pred_trans_target_amount_raw = RawAmount::yen("1000");
    let pred_trans_target_amount: Amount = ex
        .new_amount_from_raw_amount(&pred_trans_target_amount_raw)
        .expect("valid amount");

    let configuration_name = "Spotify".to_string();

    let make_pred_trans = |period: Period, amount: Amount| -> PredictedTransaction {
        PredictedTransaction::new(&periods_configuration, configuration_name.clone(), period, amount)
            .expect("valid predicted transaction")
    };

    let cases: Vec<TemplateCase> = vec![
        TemplateCase {
            name: "Starts this month - No payments".to_string(),
            starting_period: current_period,
            payments: vec![],
            expected_predicted_transitions: vec![make_pred_trans(current_period, pred_trans_target_amount)],
        },
        TemplateCase {
            name: "Starts this month - One payment".to_string(),
            starting_period: current_period,
            payments: vec![Payment((today, current_period))],
            expected_predicted_transitions: vec![make_pred_trans(current_period, ex.yen("0"))],
        },
        TemplateCase {
            name: "Started last month - last month: not paid - current: not paid".to_string(),
            starting_period: last_period,
            payments: vec![],
            expected_predicted_transitions: vec![
                make_pred_trans(last_period, pred_trans_target_amount),
                make_pred_trans(current_period, pred_trans_target_amount),
            ],
        },
        TemplateCase {
            name: "Started last month - last month: paid today - current: not paid".to_string(),
            starting_period: last_period,
            payments: vec![Payment((minus_days(&today, 4), last_period))],
            expected_predicted_transitions: vec![
                make_pred_trans(last_period, ex.yen("0")),
                make_pred_trans(current_period, pred_trans_target_amount),
            ],
        },
        TemplateCase {
            name: "Started last month - last month: paid last month - current: not paid".to_string(),
            starting_period: last_period,
            payments: vec![Payment((plus_days(&last_period.start_date, 4), last_period))],
            expected_predicted_transitions: vec![make_pred_trans(current_period, pred_trans_target_amount)],
        },
    ];

    for case in cases {
        let configuration = PredictedTransactionTemplate {
            name: configuration_name.clone(),
            target: Target {
                amount: clone_raw(&pred_trans_target_amount_raw),
                starts_on: case.starting_period,
                until: None,
            },
            actual_transactions: clone_payments(&case.payments),
        };

        let predicted_transactions = configuration
            .predicted_transactions(&periods_configuration, &today, &ex)
            .expect("Predicted transaction succeeded");

        assert!(
            same_transactions(&predicted_transactions, &case.expected_predicted_transitions),
            "{}: got {:?}",
            case.name,
            predicted_transactions
        )
    }
}

#[test]
fn mod_predicted_transactions() {
    run_predicted_transactions();
}

#[test]
fn predicted_transaction_predicted_transactions() {
    run_predicted_transactions();
}

struct DecisionCase<'a> {
    name: &'a str,
    paid_for_before_period: Vec<&'a Period>,
    paid_for_in_period_until_date: Vec<&'a Period>,
    until: Option<&'a Period>,
    expected_predicted_transitions: Vec<(&'a Period, RawAmount)>,
}

fn run_monthly_payment(with_until_cases: bool) {
    let period_config = PeriodConfigurationVaultValue::CalendarMonth;
    let make_period_for_month = |month: u32| period_of(&d(2026, month, 1));

    let january = make_period_for_month(1);
    let february = make_period_for_month(2);
    let march = make_period_for_month(3);
    let april = make_period_for_month(4);
    let may = make_period_for_month(5);

    let mut cases = vec![
        DecisionCase {
            name: "All period paid",
            paid_for_before_period: vec![&january, &february, &march],
            paid_for_in_period_until_date: vec![&april],
            until: None,
            expected_predicted_transitions: vec![(&april, RawAmount::yen("0"))],
        },
        DecisionCase {
            name: "Current period not paid",
            paid_for_before_period: vec![&january, &february, &march],
            paid_for_in_period_until_date: vec![],
            until: None,
            expected_predicted_transitions: vec![(&april, RawAmount::yen("1000"))],
        },
        DecisionCase {
            name: "Current and last period not paid",
            paid_for_before_period: vec![&january, &february],
            paid_for_in_period_until_date: vec![],
            until: None,
            expected_predicted_transitions: vec![(&march, RawAmount::yen("1000")), (&april, RawAmount::yen("1000"))],
        },
        DecisionCase {
            name: "Current and last period paid in current period",
            paid_for_before_period: vec![&january, &february],
            paid_for_in_period_until_date: vec![&march, &april],
            until: None,
            expected_predicted_transitions: vec![(&march, RawAmount::yen("0")), (&april, RawAmount::yen("0"))],
        },
        DecisionCase {
            name: "No period paid",
            paid_for_before_period: vec![],
            paid_for_in_period_until_date: vec![],
            until: None,
            expected_predicted_transitions: vec![
                (&january, RawAmount::yen("1000")),
                (&february, RawAmount::yen("1000")),
                (&march, RawAmount::yen("1000")),
                (&april, RawAmount::yen("1000")),
            ],
        },
        DecisionCase {
            name: "paid next period in advance",
            paid_for_before_period: vec![&january, &february, &march],
            paid_for_in_period_until_date: vec![&april, &may],
            until: None,
            expected_predicted_transitions: vec![(&april, RawAmount::yen("0")), (&may, RawAmount::yen("0"))],
        },
        DecisionCase {
            name: "current period paid before period",
            paid_for_before_period: vec![&january, &february, &march, &april],
            paid_for_in_period_until_date: vec![],
            until: None,
            expected_predicted_transitions: vec![(&april, RawAmount::yen("0"))],
        },
    ];
    if with_until_cases {
        cases.push(DecisionCase {
            name: "archived",
            paid_for_before_period: vec![&january, &february, &march],
            paid_for_in_period_until_date: vec![],
            until: Some(&march),
            expected_predicted_transitions: vec![],
        });
        cases.push(DecisionCase {
            name: "archived next period",
            paid_for_before_period: vec![&january, &february, &march],
            paid_for_in_period_until_date: vec![],
            until: Some(&may),
            expected_predicted_transitions: vec![(&april, RawAmount::yen("1000"))],
        });
    }

    for case in cases {
        let target = Target {
            amount: RawAmount::yen("1000"),
            starts_on: january,
            until: case.until.cloned(),
        };
        let result = PredictedTransactionTemplate::decide_which_predicted_transactions_to_display(
            &period_config,
            &target,
            &april,
            case.paid_for_before_period.into_iter().cloned().collect(),
            case.paid_for_in_period_until_date.into_iter().cloned().collect(),
        )
        .expect("valid decision");

        let expected: Vec<(Period, RawAmount)> = case
            .expected_predicted_transitions
            .into_iter()
            .map(|(period, raw_amount)| (period.clone(), raw_amount))
            .collect();
        assert!(same_decisions(&result, &expected), "{}: got {:?}", case.name, result);
    }
}

#[test]
fn mod_test_monthly_payment() {
    run_monthly_payment(true);
}

#[test]
fn predicted_transaction_test_monthly_payment() {
    run_monthly_payment(false);
}

fn template(name: &str, starts_on: &str, amount: &str, until: Option<&str>, payments: Vec<&str>) -> PredictedTransactionTemplate {
    PredictedTransactionTemplate {
        name: name.to_string(),
        target: Target {
            amount: RawAmount::parse(amount).expect("valid amount"),
            starts_on: CalendarMonthPeriodConfiguration::period_from_id(starts_on).expect("valid period"),
            until: until.map(|u| CalendarMonthPeriodConfiguration::period_from_id(u).expect("valid period")),
        },
        actual_transactions: payments.into_iter().map(|p| Payment::parse(p).expect("valid payment")).collect(),
    }
}

fn render_templates(configuration: PeriodTransactionsVaultValue, today: &Date) -> String {
    let exchange_rates = ExchangeRates::for_tests();
    let periods_configuration = PeriodConfigurationVaultValue::CalendarMonth;
    let group = Group::from_group_builder(configuration, &exchange_rates, &periods_configuration, today).expect("valid group");
    let group_view = group
        .into_remaining_operation_screen_group(&exchange_rates, "JPY", today)
        .expect("valid group data");
    render_group(&group_view)
}

#[test]
fn mod_integration_test() {
    let today = d(2026, 6, 14);
    let configuration: PeriodTransactionsVaultValue = vec![
        template("Spotify", "2026-04", "¥-2000", None, vec!["2026/04/21 2026-04", "2026/05/21 2026-05"]),
        template("Electricity", "2026-04", "¥-8000", None, vec!["2026/04/30 2026-04"]),
        template("Archived", "2026-04", "¥-8000", Some("2026-05"), vec!["2026/04/30 2026-04", "2026/04/30 2026-05"]),
    ];
    assert_eq!(
        render_templates(configuration, &today),
        "\
Predicted Transactions
======================
+-----------------------+---------+
| Name                  | Amount  |
+=================================+
| Spotify - 2026-06     | ¥-2000  |
|-----------------------+---------|
| Electricity - 2026-05 | ¥-8000  |
|-----------------------+---------|
| Electricity - 2026-06 | ¥-8000  |
|-----------------------+---------|
| Total                 | ¥-18000 |
+-----------------------+---------+"
    );
}

#[test]
fn predicted_transaction_integration_test() {
    let today = d(2026, 6, 14);
    let configuration: PeriodTransactionsVaultValue = vec![
        template("Spotify", "2026-04", "¥2000", None, vec!["2026/04/21 2026-04", "2026/05/21 2026-05"]),
        template("Electricity", "2026-04", "¥8000", None, vec!["2026/04/30 2026-04"]),
    ];
    assert_eq!(
        render_templates(configuration, &today),
        "\
Predicted Transactions
======================
+-----------------------+--------+
| Name                  | Amount |
+================================+
| Spotify - 2026-06     | ¥2000  |
|-----------------------+--------|
| Electricity - 2026-05 | ¥8000  |
|-----------------------+--------|
| Electricity - 2026-06 | ¥8000  |
|-----------------------+--------|
| Total                 | ¥18000 |
+-----------------------+--------+"
    );
}

fn names_and_cents(v: &[PredictedTransaction]) -> Vec<(String, i128)> {
    v.iter().map(|t| (t.name.clone(), t.amount.in_cents())).collect()
}

fn transactions_of(template: PredictedTransactionTemplate, today: &Date) -> Result<Vec<PredictedTransaction>, String> {
    let ex = ExchangeRates::for_tests();
    template.predicted_transactions(&PeriodConfigurationVaultValue::CalendarMonth, today, &ex)
}

#[test]
fn todo_test_for_payments_much_later_than_starts_on() {
    // Starts in January; January is paid late, in June; the months since are not paid.
    let today = d(2026, 6, 14);
    let t = template("Rent", "2026-01", "¥1000", None, vec!["2026/06/02 2026-01"]);
    let shown = transactions_of(t, &today).unwrap();
    assert_eq!(
        names_and_cents(&shown),
        vec![
            ("Rent - 2026-01".to_string(), 0),
            ("Rent - 2026-02".to_string(), 100000),
            ("Rent - 2026-03".to_string(), 100000),
            ("Rent - 2026-04".to_string(), 100000),
            ("Rent - 2026-05".to_string(), 100000),
            ("Rent - 2026-06".to_string(), 100000),
        ]
    );
}

#[test]
fn todo_test_for_a_cancelled_payment() {
    // A payment dated after today has not happened yet: the period stays due.
    let today = d(2026, 6, 14);
    let t = template("Gym", "2026-06", "¥3000", None, vec!["2026/06/20 2026-06"]);
    let shown = transactions_of(t, &today).unwrap();
    assert_eq!(names_and_cents(&shown), vec![("Gym - 2026-06".to_string(), 300000)]);
}

#[test]
fn todo_test_for_build_operand_forwarding_the_archive_from() {
    let ex = ExchangeRates::for_tests();
    let t = PredictedTransaction::new(
        &PeriodConfigurationVaultValue::CalendarMonth,
        "Spotify".to_string(),
        period_of(&d(2026, 6, 1)),
        ex.yen("1000"),
    )
    .unwrap();
    let operand = t.build_operand();
    assert_eq!(operand.name, "Spotify - 2026-06");
    assert!(operand.amount.equals(&ex.yen("1000")));
    assert!(operand.illustration.is_empty());
    assert_eq!(operand.archived_from, None);

    // The operands of a template are its transactions, none archived.
    let today = d(2026, 6, 14);
    let operands = template("Spotify", "2026-05", "¥1000", None, vec![])
        .build(&PeriodConfigurationVaultValue::CalendarMonth, &today, &ex)
        .unwrap();
    assert_eq!(operands.len(), 2);
    assert!(operands.iter().all(|o| o.archived_from.is_none()));
}

#[test]
fn todo_keep_showing_payments_which_were_late_but_have_been_made_in_the_current_period() {
    // Electricity was not paid in May; both May and June were paid in June.
    let today = d(2026, 6, 14);
    let t = template("Electricity", "2026-04", "¥8000", None, vec!["2026/04/30 2026-04", "2026/06/10 2026-05", "2026/06/10 2026-06"]);
    let shown = transactions_of(t, &today).unwrap();
    assert_eq!(
        names_and_cents(&shown),
        vec![("Electricity - 2026-05".to_string(), 0), ("Electricity - 2026-06".to_string(), 0)]
    );
}

#[test]
fn todo_weekly_payments() {
    // Periods are calendar months: a template expects one payment per month.
    let today = d(2026, 6, 14);
    let t = template("Groceries", "2026-04", "¥5000", None, vec![]);
    let shown = transactions_of(t, &today).unwrap();
    assert_eq!(
        names_and_cents(&shown),
        vec![
            ("Groceries - 2026-04".to_string(), 500000),
            ("Groceries - 2026-05".to_string(), 500000),
            ("Groceries - 2026-06".to_string(), 500000),
        ]
    );
}

#[test]
fn todo_predicted_transaction_new() {
    let ex = ExchangeRates::for_tests();
    let t = PredictedTransaction::new(
        &PeriodConfigurationVaultValue::CalendarMonth,
        "Spotify".to_string(),
        period_of(&d(2025, 12, 31)),
        ex.euro("9.99"),
    )
    .unwrap();
    assert_eq!(t.name, "Spotify - 2025-12");
    assert!(t.amount.equals(&ex.euro("9.99")));
}

#[test]
fn todo_payments_out_of_order() {
    let today = d(2026, 6, 14);
    let t = template("Spotify", "2026-04", "¥2000", None, vec!["2026/05/21 2026-05", "2026/04/21 2026-04"]);
    assert_eq!(
        transactions_of(t, &today).unwrap_err(),
        "items are not in chronological order: 2026-04-21 comes after 2026-05-21"
    );
}

#[test]
fn todo_boundary_check() {
    // A payment today for the current period counts; one tomorrow for the
    // next period has not happened yet.
    let today = d(2026, 6, 14);
    let t = template("Spotify", "2026-06", "¥2000", None, vec!["2026/06/14 2026-06", "2026/06/15 2026-07"]);
    let shown = transactions_of(t, &today).unwrap();
    assert_eq!(names_and_cents(&shown), vec![("Spotify - 2026-06".to_string(), 0)]);
}

#[test]
fn payment_lines() {
    let p = Payment::parse("2026/04/21 2026-04").unwrap();
    assert_eq!(p.0 .0, d(2026, 4, 21));
    assert_eq!(p.0 .1, period_of(&d(2026, 4, 1)));
    assert_eq!(Payment::parse("2026/04/21").unwrap_err(), "Could not find first space");
    assert_eq!(Payment::parse("2026/04/21 ").unwrap_err(), "invalid period id: missing space after date");
    assert!(Payment::parse("2026/04/21 2026-13").unwrap_err().starts_with("invalid period id: "));
    assert!(Payment::parse("2026-04-21 2026-04").unwrap_err().starts_with("Failed to parse date: 2026-04-21. Error: "));
}
