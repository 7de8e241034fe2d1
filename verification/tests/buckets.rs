use remaining::amounts::{Amount, ExchangeRates, RawAmount};
use remaining::buckets::{Action, Bucket, BucketAtDate, Line};
use remaining::date::Date;
use remaining::operand::{IllustrationValue, Operand};
use remaining::period::PeriodConfigurationVaultValue;
use remaining::remaining_operation::OperandBuilder;

fn mkdate(month: u32, date: u32) -> Date {
    Date::from_ymd(2025, month, date).expect("Can create date")
}

fn same_amount(a: &Amount, b: &Amount) -> bool {
    a.equals(b)
}

fn same_optional_amount(a: &Option<Amount>, b: &Option<Amount>) -> bool {
    match (a, b) {
        (Some(x), Some(y)) => same_amount(x, y),
        (None, None) => true,
        _ => false,
    }
}

fn same_bucket(a: &BucketAtDate, b: &BucketAtDate) -> bool {
    same_amount(&a.recommended_or_actual_change, &b.recommended_or_actual_change)
        && same_optional_amount(&a.current_recommended_deposit, &b.current_recommended_deposit)
        && same_optional_amount(&a.current_actual_deposit, &b.current_actual_deposit)
        && same_optional_amount(&a.current_withdrawal, &b.current_withdrawal)
        && same_amount(&a.total_deposit, &b.total_deposit)
        && same_amount(&a.total_withdrawal, &b.total_withdrawal)
        && same_amount(&a.total, &b.total)
}

fn same_result(a: &Result<BucketAtDate, String>, b: &Result<BucketAtDate, String>) -> bool {
    match (a, b) {
        (Ok(x), Ok(y)) => same_bucket(x, y),
        (Err(x), Err(y)) => x == y,
        _ => false,
    }
}

fn same_value(a: &IllustrationValue, b: &IllustrationValue) -> bool {
    match (a, b) {
        (IllustrationValue::Amount(x), IllustrationValue::Amount(y)) => same_amount(x, y),
        (IllustrationValue::NullAmount, IllustrationValue::NullAmount) => true,
        (IllustrationValue::Bool(x), IllustrationValue::Bool(y)) => x == y,
        (IllustrationValue::Date(x), IllustrationValue::Date(y)) => x == y,
        _ => false,
    }
}

fn same_operand(a: &Operand, b: &Operand) -> bool {
    a.name == b.name
        && same_amount(&a.amount, &b.amount)
        && a.archived_from == b.archived_from
        && a.illustration.len() == b.illustration.len()
        && a.illustration.iter().zip(b.illustration.iter()).all(|(x, y)| x.0 == y.0 && same_value(&x.1, &y.1))
}

fn same_operands(a: &Result<Vec<Operand>, String>, b: &Result<Vec<Operand>, String>) -> bool {
    match (a, b) {
        (Ok(x), Ok(y)) => x.len() == y.len() && x.iter().zip(y.iter()).all(|(p, q)| same_operand(p, q)),
        (Err(x), Err(y)) => x == y,
        _ => false,
    }
}

type TestResult = Result<BucketAtDate, String>;
type ExpectedFn = Box<dyn Fn(&ExchangeRates) -> TestResult>;

struct Test {
    executed: bool,
    lines: Vec<(Date, Action)>,
    expected: ExpectedFn,
}

impl Default for Test {
    fn default() -> Self {
        Test {
            executed: false,
            lines: Vec::new(),
            expected: Box::new(|_| Err("Please setup the test".to_string())),
        }
    }
}

impl Test {
    pub fn add_line(mut self, date: Date, line: Action) -> Self {
        self.lines.push((date, line));
        self
    }

    pub fn target_set_in_current_period_one_hundred_thousand_in_four_months(self) -> Self {
        self.add_line(
            mkdate(9, 1),
            Action::SetTarget {
                amount: RawAmount::yen("100000"),
                target_date: mkdate(12, 31),
            },
        )
    }

    pub fn target_set_last_period_one_hundred_thousand_in_five_months(self) -> Self {
        self.add_line(
            mkdate(8, 1),
            Action::SetTarget {
                amount: RawAmount::yen("100000"),
                target_date: mkdate(12, 31),
            },
        )
    }

    pub fn target_set_many_periods_ago_twelve_hundred_in_twelve_months(self) -> Self {
        self.add_line(
            mkdate(1, 1),
            Action::SetTarget {
                amount: RawAmount::yen("1200"),
                target_date: mkdate(12, 30),
            },
        )
    }

    pub fn expect_error(mut self, error: &str) -> Self {
        let error_string = error.to_string();
        self.expected = Box::new(move |_| Err(error_string.clone()));
        self
    }

    pub fn expect_bucket(mut self, bucket_builder: impl Fn(&ExchangeRates) -> BucketAtDate + 'static) -> Self {
        self.expected = Box::new(move |ex| Ok(bucket_builder(ex)));
        self
    }

    pub fn expect_bucket_no_commits_one_hundred_thousand_in_four_months(self) -> Self {
        self.expect_bucket(|ex| BucketAtDate {
            recommended_or_actual_change: ex.yen("25000"),
            current_recommended_deposit: Some(ex.yen("25000")),
            current_actual_deposit: None,
            current_withdrawal: None,
            total_deposit: ex.yen("0"),
            total_withdrawal: ex.yen("0"),
            total: ex.yen("0"),
        })
    }

    pub fn expect_bucket_recommended_commit_one_hundred_thousand_in_four_months(self) -> Self {
        self.expect_bucket(|ex| BucketAtDate {
            recommended_or_actual_change: ex.yen("25000"),
            current_recommended_deposit: Some(ex.yen("25000")),
            current_actual_deposit: Some(ex.yen("25000")),
            current_withdrawal: None,
            total_deposit: ex.yen("25000"),
            total_withdrawal: ex.yen("0"),
            total: ex.yen("25000"),
        })
    }

    pub fn expect_bucket_recommended_commit_one_hundred_thousand_in_four_months_five_thousand_withdrawn(self) -> Self {
        self.expect_bucket(|ex| BucketAtDate {
            recommended_or_actual_change: ex.yen("20000"),
            current_recommended_deposit: Some(ex.yen("25000")),
            current_actual_deposit: Some(ex.yen("25000")),
            current_withdrawal: Some(ex.yen("5000")),
            total_deposit: ex.yen("25000"),
            total_withdrawal: ex.yen("5000"),
            total: ex.yen("20000"),
        })
    }

    fn execute(&mut self) -> () {
        self.executed = true;
        let ex = ExchangeRates::for_tests();
        let period_configuration = PeriodConfigurationVaultValue::CalendarMonth;
        let today = mkdate(9, 15);

        let bucket = Bucket {
            name: "test bucket inner".to_string(),
            lines: self.lines.iter().map(|(d, a)| Line((*d, a.clone()))).collect(),
            archived_since: None,
        };

        let expected = (self.expected)(&ex);
        let actual = bucket.for_period(&period_configuration, &today, &ex);
        assert!(same_result(&expected, &actual), "expected {:?}, got {:?}", expected, actual);
    }
}

impl Drop for Test {
    fn drop(&mut self) {
        if !self.executed {
            panic!("This test was not executed")
        }
    }
}

#[test]
fn mod_no_lines() {
    Test::default()
        .expect_bucket(|ex| BucketAtDate {
            recommended_or_actual_change: ex.yen("0"),
            current_recommended_deposit: None,
            current_actual_deposit: None,
            current_withdrawal: None,
            total_deposit: ex.yen("0"),
            total_withdrawal: ex.yen("0"),
            total: ex.yen("0"),
        })
        .execute()
}

#[test]
fn mod_last_period() {
    Test::default()
        .add_line(
            mkdate(9, 15),
            Action::SetTarget {
                amount: RawAmount::yen("100000"),
                target_date: mkdate(8, 31),
            },
        )
        .expect_bucket(|ex| BucketAtDate {
            recommended_or_actual_change: ex.yen("100000"),
            current_recommended_deposit: Some(ex.yen("100000")),
            current_actual_deposit: None,
            current_withdrawal: None,
            total_deposit: ex.yen("0"),
            total_withdrawal: ex.yen("0"),
            total: ex.yen("0"),
        })
        .execute()
}

#[test]
fn mod_this_period() {
    Test::default()
        .add_line(
            mkdate(9, 15),
            Action::SetTarget {
                amount: RawAmount::yen("100000"),
                target_date: mkdate(9, 30),
            },
        )
        .expect_bucket(|ex| BucketAtDate {
            recommended_or_actual_change: ex.yen("100000"),
            current_recommended_deposit: Some(ex.yen("100000")),
            current_actual_deposit: None,
            current_withdrawal: None,
            total_deposit: ex.yen("0"),
            total_withdrawal: ex.yen("0"),
            total: ex.yen("0"),
        })
        .execute()
}

#[test]
fn mod_next_period() {
    Test::default()
        .add_line(
            mkdate(9, 15),
            Action::SetTarget {
                amount: RawAmount::yen("100000"),
                target_date: mkdate(10, 31),
            },
        )
        .expect_bucket(|ex| BucketAtDate {
            recommended_or_actual_change: ex.yen("50000"),
            current_recommended_deposit: Some(ex.yen("50000")),
            current_actual_deposit: None,
            current_withdrawal: None,
            total_deposit: ex.yen("0"),
            total_withdrawal: ex.yen("0"),
            total: ex.yen("0"),
        })
        .execute()
}

#[test]
fn mod_next_next_period() {
    Test::default()
        .add_line(
            mkdate(9, 15),
            Action::SetTarget {
                amount: RawAmount::yen("100000"),
                target_date: mkdate(11, 30),
            },
        )
        .expect_bucket(|ex| BucketAtDate {
            recommended_or_actual_change: ex.yen("33333.33"),
            current_recommended_deposit: Some(ex.yen("33333.33")),
            current_actual_deposit: None,
            current_withdrawal: None,
            total_deposit: ex.yen("0"),
            total_withdrawal: ex.yen("0"),
            total: ex.yen("0"),
        })
        .execute()
}

#[test]
fn two_set() {
    Test::default()
        .add_line(
            mkdate(9, 13),
            Action::SetTarget {
                amount: RawAmount::yen("100000"),
                target_date: mkdate(10, 31),
            },
        )
        .add_line(
            mkdate(9, 15),
            Action::SetTarget {
                amount: RawAmount::yen("100000"),
                target_date: mkdate(11, 30),
            },
        )
        .expect_bucket(|ex| BucketAtDate {
            recommended_or_actual_change: ex.yen("33333.33"),
            current_recommended_deposit: Some(ex.yen("33333.33")),
            current_actual_deposit: None,
            current_withdrawal: None,
            total_deposit: ex.yen("0"),
            total_withdrawal: ex.yen("0"),
            total: ex.yen("0"),
        })
        .execute()
}

#[test]
fn set_in_the_future() {
    Test::default()
        .add_line(mkdate(9, 14), Action::Withdrawal(RawAmount::yen("5000")))
        .add_line(mkdate(9, 15), Action::Deposit(RawAmount::yen("10000")))
        .add_line(
            mkdate(11, 1),
            Action::SetTarget {
                amount: RawAmount::yen("20000"),
                target_date: mkdate(12, 31),
            },
        )
        .expect_bucket(|ex| BucketAtDate {
            recommended_or_actual_change: ex.yen("5000"),
            current_recommended_deposit: None,
            current_actual_deposit: Some(ex.yen("10000")),
            current_withdrawal: Some(ex.yen("5000")),
            total_deposit: ex.yen("10000"),
            total_withdrawal: ex.yen("5000"),
            total: ex.yen("5000"),
        })
        .execute();
}

#[test]
fn set_this_period_changed_in_the_future() {
    Test::default()
        .target_set_in_current_period_one_hundred_thousand_in_four_months()
        .add_line(mkdate(9, 10), Action::Deposit(RawAmount::yen("25000")))
        .add_line(
            mkdate(11, 1),
            Action::SetTarget {
                amount: RawAmount::yen("50000"),
                target_date: mkdate(12, 31),
            },
        )
        .expect_bucket_recommended_commit_one_hundred_thousand_in_four_months()
        .execute();
}

#[test]
fn no_target() {
    Test::default()
        .add_line(mkdate(9, 15), Action::Deposit(RawAmount::yen("10000")))
        .expect_bucket(|ex| BucketAtDate {
            recommended_or_actual_change: ex.yen("10000"),
            current_recommended_deposit: None,
            current_actual_deposit: Some(ex.yen("10000")),
            current_withdrawal: None,
            total_deposit: ex.yen("10000"),
            total_withdrawal: ex.yen("0"),
            total: ex.yen("10000"),
        })
        .execute()
}

#[test]
fn mod_partial() {
    {
        Test::default()
            .target_set_in_current_period_one_hundred_thousand_in_four_months()
            .add_line(mkdate(9, 15), Action::Deposit(RawAmount::yen("10000")))
            .expect_bucket(|ex| BucketAtDate {
                recommended_or_actual_change: ex.yen("10000"),
                current_recommended_deposit: Some(ex.yen("25000")),
                current_actual_deposit: Some(ex.yen("10000")),
                current_withdrawal: None,
                total_deposit: ex.yen("10000"),
                total_withdrawal: ex.yen("0"),
                total: ex.yen("10000"),
            })
            .execute();
    }
    {
        Test::default()
            .target_set_in_current_period_one_hundred_thousand_in_four_months()
            .add_line(mkdate(9, 1), Action::Deposit(RawAmount::yen("10000")))
            .expect_bucket(|ex| BucketAtDate {
                recommended_or_actual_change: ex.yen("10000"),
                current_recommended_deposit: Some(ex.yen("25000")),
                current_actual_deposit: Some(ex.yen("10000")),
                current_withdrawal: None,
                total_deposit: ex.yen("10000"),
                total_withdrawal: ex.yen("0"),
                total: ex.yen("10000"),
            })
            .execute();
    }
    {
        Test::default()
            .target_set_last_period_one_hundred_thousand_in_five_months()
            .add_line(mkdate(9, 3), Action::Deposit(RawAmount::yen("10000")))
            .expect_bucket(|ex| BucketAtDate {
                recommended_or_actual_change: ex.yen("10000"),
                current_recommended_deposit: Some(ex.yen("25000")), // This is correct. Even if the target was set for five months, there was no deposit last month
                current_actual_deposit: Some(ex.yen("10000")),
                current_withdrawal: None,
                total_deposit: ex.yen("10000"),
                total_withdrawal: ex.yen("0"),
                total: ex.yen("10000"),
            })
            .execute();
    }
    {
        Test::default()
            .target_set_last_period_one_hundred_thousand_in_five_months()
            .add_line(mkdate(8, 15), Action::Deposit(RawAmount::yen("5000")))
            .add_line(mkdate(8, 31), Action::Deposit(RawAmount::yen("5000")))
            .expect_bucket(|ex| BucketAtDate {
                recommended_or_actual_change: ex.yen("22500"),
                current_recommended_deposit: Some(ex.yen("22500")),
                current_actual_deposit: None,
                current_withdrawal: None,
                total_deposit: ex.yen("10000"),
                total_withdrawal: ex.yen("0"),
                total: ex.yen("10000"),
            })
            .execute();
    }
}

#[test]
fn zero() {
    Test::default()
        .target_set_in_current_period_one_hundred_thousand_in_four_months()
        .add_line(mkdate(9, 15), Action::Deposit(RawAmount::yen("0")))
        .expect_bucket(|ex| BucketAtDate {
            recommended_or_actual_change: ex.yen("0"),
            current_recommended_deposit: Some(ex.yen("25000")),
            current_actual_deposit: Some(ex.yen("0")),
            current_withdrawal: None,
            total_deposit: ex.yen("0"),
            total_withdrawal: ex.yen("0"),
            total: ex.yen("0"),
        })
        .execute();
}

#[test]
fn mod_recommended() {
    {
        Test::default()
            .target_set_in_current_period_one_hundred_thousand_in_four_months()
            .add_line(mkdate(9, 3), Action::Deposit(RawAmount::yen("10000")))
            .add_line(mkdate(9, 5), Action::Deposit(RawAmount::yen("15000")))
            .expect_bucket(|ex| BucketAtDate {
                recommended_or_actual_change: ex.yen("25000"),
                current_recommended_deposit: Some(ex.yen("25000")),
                current_actual_deposit: Some(ex.yen("25000")),
                current_withdrawal: None,
                total_deposit: ex.yen("25000"),
                total_withdrawal: ex.yen("0"),
                total: ex.yen("25000"),
            })
            .execute();
    }
    {
        Test::default()
            .target_set_last_period_one_hundred_thousand_in_five_months()
            .add_line(mkdate(8, 31), Action::Deposit(RawAmount::yen("20000")))
            .expect_bucket(|ex| BucketAtDate {
                recommended_or_actual_change: ex.yen("20000"),
                current_recommended_deposit: Some(ex.yen("20000")),
                current_actual_deposit: None,
                current_withdrawal: None,
                total_deposit: ex.yen("20000"),
                total_withdrawal: ex.yen("0"),
                total: ex.yen("20000"),
            })
            .execute();
    }
}

#[test]
fn mod_same_day() {
    {
        Test::default()
            .target_set_in_current_period_one_hundred_thousand_in_four_months()
            .add_line(mkdate(9, 5), Action::Deposit(RawAmount::yen("10000")))
            .add_line(mkdate(9, 5), Action::Deposit(RawAmount::yen("15000")))
            .expect_bucket(|ex| BucketAtDate {
                recommended_or_actual_change: ex.yen("25000"),
                current_recommended_deposit: Some(ex.yen("25000")),
                current_actual_deposit: Some(ex.yen("25000")),
                current_withdrawal: None,
                total_deposit: ex.yen("25000"),
                total_withdrawal: ex.yen("0"),
                total: ex.yen("25000"),
            })
            .execute();
    }
    {
        Test::default()
            .target_set_last_period_one_hundred_thousand_in_five_months()
            .add_line(mkdate(8, 31), Action::Deposit(RawAmount::yen("5000")))
            .add_line(mkdate(8, 31), Action::Deposit(RawAmount::yen("5000")))
            .expect_bucket(|ex| BucketAtDate {
                recommended_or_actual_change: ex.yen("22500"),
                current_recommended_deposit: Some(ex.yen("22500")),
                current_actual_deposit: None,
                current_withdrawal: None,
                total_deposit: ex.yen("10000"),
                total_withdrawal: ex.yen("0"),
                total: ex.yen("10000"),
            })
            .execute();
    }
}

#[test]
fn over() {
    Test::default()
        .target_set_in_current_period_one_hundred_thousand_in_four_months()
        .add_line(mkdate(9, 3), Action::Deposit(RawAmount::yen("30000")))
        .expect_bucket(|ex| BucketAtDate {
            recommended_or_actual_change: ex.yen("30000"),
            current_recommended_deposit: Some(ex.yen("25000")),
            current_actual_deposit: Some(ex.yen("30000")),
            current_withdrawal: None,
            total_deposit: ex.yen("30000"),
            total_withdrawal: ex.yen("0"),
            total: ex.yen("30000"),
        })
        .execute();
}

#[test]
fn over_recommendation() {
    Test::default()
        .target_set_last_period_one_hundred_thousand_in_five_months()
        .add_line(mkdate(8, 31), Action::Deposit(RawAmount::yen("60000")))
        .expect_bucket(|ex| BucketAtDate {
            recommended_or_actual_change: ex.yen("10000"),
            current_recommended_deposit: Some(ex.yen("10000")),
            current_actual_deposit: None,
            current_withdrawal: None,
            total_deposit: ex.yen("60000"),
            total_withdrawal: ex.yen("0"),
            total: ex.yen("60000"),
        })
        .execute();
}

#[test]
fn over_target() {
    Test::default()
        .target_set_last_period_one_hundred_thousand_in_five_months()
        .add_line(mkdate(8, 31), Action::Deposit(RawAmount::yen("200000")))
        .expect_bucket(|ex| BucketAtDate {
            recommended_or_actual_change: ex.yen("0"),
            current_recommended_deposit: Some(ex.yen("0")),
            current_actual_deposit: None,
            current_withdrawal: None,
            total_deposit: ex.yen("200000"),
            total_withdrawal: ex.yen("0"),
            total: ex.yen("200000"),
        })
        .execute();
}

#[test]
fn mod_many_periods_ago() {
    Test::default()
        .target_set_many_periods_ago_twelve_hundred_in_twelve_months()
        .add_line(mkdate(1, 15), Action::Deposit(RawAmount::yen("100")))
        .add_line(mkdate(2, 28), Action::Deposit(RawAmount::yen("100")))
        .expect_bucket(|ex| BucketAtDate {
            recommended_or_actual_change: ex.yen("250"),
            current_recommended_deposit: Some(ex.yen("250")),
            current_actual_deposit: None,
            current_withdrawal: None,
            total_deposit: ex.yen("200"),
            total_withdrawal: ex.yen("0"),
            total: ex.yen("200"),
        })
        .execute();
}

#[test]
fn mod_one_deposit_tomorrow() {
    Test::default()
        .target_set_in_current_period_one_hundred_thousand_in_four_months()
        .add_line(mkdate(9, 16), Action::Deposit(RawAmount::yen("25000")))
        .expect_bucket_no_commits_one_hundred_thousand_in_four_months()
        .execute();
}

#[test]
fn mod_one_deposit_this_period_after_tomorrow() {
    Test::default()
        .target_set_in_current_period_one_hundred_thousand_in_four_months()
        .add_line(mkdate(9, 17), Action::Deposit(RawAmount::yen("25000")))
        .expect_bucket_no_commits_one_hundred_thousand_in_four_months()
        .execute();
}

#[test]
fn mod_one_deposit_next_period() {
    Test::default()
        .target_set_in_current_period_one_hundred_thousand_in_four_months()
        .add_line(mkdate(10, 18), Action::Deposit(RawAmount::yen("25000")))
        .expect_bucket_no_commits_one_hundred_thousand_in_four_months()
        .execute();
}

#[test]
fn mod_one_deposit_many_period_after() {
    {
        Test::default()
            .target_set_in_current_period_one_hundred_thousand_in_four_months()
            .add_line(mkdate(12, 18), Action::Deposit(RawAmount::yen("25000")))
            .expect_bucket_no_commits_one_hundred_thousand_in_four_months()
            .execute();
    }
    {
        Test::default()
            .target_set_in_current_period_one_hundred_thousand_in_four_months()
            .add_line(mkdate(9, 1), Action::Deposit(RawAmount::yen("25000")))
            .add_line(mkdate(12, 18), Action::Withdrawal(RawAmount::yen("25000")))
            .expect_bucket_recommended_commit_one_hundred_thousand_in_four_months()
            .execute();
    }
}

#[test]
fn mod_many_deposits() {
    {
        Test::default()
            .target_set_in_current_period_one_hundred_thousand_in_four_months()
            .add_line(mkdate(9, 16), Action::Deposit(RawAmount::yen("25000")))
            .add_line(mkdate(9, 17), Action::Deposit(RawAmount::yen("25000")))
            .add_line(mkdate(10, 18), Action::Deposit(RawAmount::yen("25000")))
            .add_line(mkdate(12, 18), Action::Deposit(RawAmount::yen("25000")))
            .expect_bucket_no_commits_one_hundred_thousand_in_four_months()
            .execute();
    }
    {
        Test::default()
            .target_set_in_current_period_one_hundred_thousand_in_four_months()
            .add_line(mkdate(9, 1), Action::Deposit(RawAmount::yen("25000")))
            .add_line(
                mkdate(9, 16),
                Action::DepositCancellation(RawAmount::yen("5000")),
            )
            .add_line(
                mkdate(9, 17),
                Action::DepositCancellation(RawAmount::yen("5000")),
            )
            .add_line(
                mkdate(10, 18),
                Action::DepositCancellation(RawAmount::yen("5000")),
            )
            .add_line(
                mkdate(12, 18),
                Action::DepositCancellation(RawAmount::yen("5000")),
            )
            .add_line(
                mkdate(12, 19),
                Action::DepositCancellation(RawAmount::yen("5000")),
            )
            .expect_bucket_recommended_commit_one_hundred_thousand_in_four_months()
            .execute();
    }
    {
        Test::default()
            .target_set_in_current_period_one_hundred_thousand_in_four_months()
            .add_line(mkdate(9, 1), Action::Deposit(RawAmount::yen("25000")))
            .add_line(mkdate(9, 16), Action::Withdrawal(RawAmount::yen("25000")))
            .add_line(mkdate(9, 17), Action::Withdrawal(RawAmount::yen("25000")))
            .add_line(mkdate(10, 18), Action::Withdrawal(RawAmount::yen("25000")))
            .add_line(mkdate(12, 18), Action::Withdrawal(RawAmount::yen("25000")))
            .expect_bucket_recommended_commit_one_hundred_thousand_in_four_months()
            .execute();
    }
    {
        Test::default()
            .target_set_in_current_period_one_hundred_thousand_in_four_months()
            .add_line(mkdate(9, 3), Action::Deposit(RawAmount::yen("25000")))
            .add_line(mkdate(9, 15), Action::Withdrawal(RawAmount::yen("5000")))
            .add_line(
                mkdate(9, 16),
                Action::WithdrawalCancellation(RawAmount::yen("1000")),
            )
            .add_line(
                mkdate(9, 17),
                Action::WithdrawalCancellation(RawAmount::yen("1000")),
            )
            .add_line(
                mkdate(10, 18),
                Action::WithdrawalCancellation(RawAmount::yen("1000")),
            )
            .add_line(
                mkdate(12, 18),
                Action::WithdrawalCancellation(RawAmount::yen("1000")),
            )
            .expect_bucket_recommended_commit_one_hundred_thousand_in_four_months_five_thousand_withdrawn()
            .execute();
    }
}

#[test]
fn mod_one_deposit_this_period_next_period() {
    {
        Test::default()
            .target_set_in_current_period_one_hundred_thousand_in_four_months()
            .add_line(mkdate(9, 10), Action::Deposit(RawAmount::yen("25000")))
            .add_line(mkdate(10, 18), Action::Deposit(RawAmount::yen("25000")))
            .expect_bucket(
                (|ex| BucketAtDate {
                    recommended_or_actual_change: ex.yen("25000"),
                    current_recommended_deposit: Some(ex.yen("25000")),
                    current_actual_deposit: Some(ex.yen("25000")),
                    current_withdrawal: None,
                    total_deposit: ex.yen("25000"),
                    total_withdrawal: ex.yen("0"),
                    total: ex.yen("25000"),
                }),
            )
            .execute();
    }
    {
        Test::default()
            .target_set_in_current_period_one_hundred_thousand_in_four_months()
            .add_line(mkdate(9, 10), Action::Deposit(RawAmount::yen("25000")))
            .add_line(
                mkdate(9, 11),
                Action::DepositCancellation(RawAmount::yen("5000")),
            )
            .add_line(
                mkdate(10, 18),
                Action::DepositCancellation(RawAmount::yen("5000")),
            )
            .expect_bucket(
                (|ex| BucketAtDate {
                    recommended_or_actual_change: ex.yen("20000"),
                    current_recommended_deposit: Some(ex.yen("25000")),
                    current_actual_deposit: Some(ex.yen("20000")),
                    current_withdrawal: None,
                    total_deposit: ex.yen("20000"),
                    total_withdrawal: ex.yen("0"),
                    total: ex.yen("20000"),
                }),
            )
            .execute();
    }
    {
        Test::default()
            .target_set_in_current_period_one_hundred_thousand_in_four_months()
            .add_line(mkdate(9, 10), Action::Deposit(RawAmount::yen("25000")))
            .add_line(
                mkdate(9, 11),
                Action::DepositCancellation(RawAmount::yen("5000")),
            )
            .add_line(
                mkdate(10, 18),
                Action::DepositCancellation(RawAmount::yen("5000")),
            )
            .expect_bucket(
                (|ex| BucketAtDate {
                    recommended_or_actual_change: ex.yen("20000"),
                    current_recommended_deposit: Some(ex.yen("25000")),
                    current_actual_deposit: Some(ex.yen("20000")),
                    current_withdrawal: None,
                    total_deposit: ex.yen("20000"),
                    total_withdrawal: ex.yen("0"),
                    total: ex.yen("20000"),
                }),
            )
            .execute();
    }
}

#[test]
fn mod_all_periods() {
    Test::default()
        .target_set_many_periods_ago_twelve_hundred_in_twelve_months()
        .add_line(mkdate(1, 15), Action::Deposit(RawAmount::yen("50")))
        .add_line(mkdate(2, 1), Action::Deposit(RawAmount::yen("55")))
        .add_line(mkdate(8, 31), Action::Deposit(RawAmount::yen("55")))
        .add_line(mkdate(9, 1), Action::Deposit(RawAmount::yen("200")))
        .add_line(mkdate(9, 15), Action::Deposit(RawAmount::yen("50")))
        .add_line(mkdate(9, 20), Action::Deposit(RawAmount::yen("10")))
        .add_line(mkdate(10, 25), Action::Deposit(RawAmount::yen("260")))
        .add_line(mkdate(12, 31), Action::Deposit(RawAmount::yen("260")))
        .expect_bucket(|ex| BucketAtDate {
            recommended_or_actual_change: ex.yen("250"),
            current_recommended_deposit: Some(ex.yen("260")),
            current_actual_deposit: Some(ex.yen("250")),
            current_withdrawal: None,
            total_deposit: ex.yen("410"),
            total_withdrawal: ex.yen("0"),
            total: ex.yen("410"),
        })
        .execute();
}

#[test]
fn mod_all_periods_multiple_deposits() {
    Test::default()
        .target_set_many_periods_ago_twelve_hundred_in_twelve_months()
        .add_line(mkdate(1, 15), Action::Deposit(RawAmount::yen("25")))
        .add_line(mkdate(1, 16), Action::Deposit(RawAmount::yen("25")))
        .add_line(mkdate(2, 1), Action::Deposit(RawAmount::yen("50")))
        .add_line(mkdate(2, 2), Action::Deposit(RawAmount::yen("5")))
        .add_line(mkdate(8, 30), Action::Deposit(RawAmount::yen("25")))
        .add_line(mkdate(8, 31), Action::Deposit(RawAmount::yen("30")))
        .add_line(mkdate(9, 1), Action::Deposit(RawAmount::yen("200")))
        .add_line(mkdate(9, 15), Action::Deposit(RawAmount::yen("50")))
        .add_line(mkdate(9, 20), Action::Deposit(RawAmount::yen("10")))
        .add_line(mkdate(10, 25), Action::Deposit(RawAmount::yen("200")))
        .add_line(mkdate(10, 26), Action::Deposit(RawAmount::yen("60")))
        .add_line(mkdate(12, 30), Action::Deposit(RawAmount::yen("200")))
        .add_line(mkdate(12, 31), Action::Deposit(RawAmount::yen("60")))
        .expect_bucket(|ex| BucketAtDate {
            recommended_or_actual_change: ex.yen("250"),
            current_recommended_deposit: Some(ex.yen("260")),
            current_actual_deposit: Some(ex.yen("250")),
            current_withdrawal: None,
            total_deposit: ex.yen("410"),
            total_withdrawal: ex.yen("0"),
            total: ex.yen("410"),
        })
        .execute();
}

#[test]
fn mod_one_today() {
    {
        Test::default()
            .target_set_in_current_period_one_hundred_thousand_in_four_months()
            .add_line(mkdate(9, 8), Action::Deposit(RawAmount::yen("25000")))
            .add_line(
                mkdate(9, 15),
                Action::DepositCancellation(RawAmount::yen("10000")),
            )
            .expect_bucket(|ex| BucketAtDate {
                recommended_or_actual_change: ex.yen("15000"),
                current_recommended_deposit: Some(ex.yen("25000")),
                current_actual_deposit: Some(ex.yen("15000")),
                current_withdrawal: None,
                total_deposit: ex.yen("15000"),
                total_withdrawal: ex.yen("0"),
                total: ex.yen("15000"),
            })
            .execute();
    }
    {
        Test::default()
            .target_set_in_current_period_one_hundred_thousand_in_four_months()
            .add_line(mkdate(9, 8), Action::Deposit(RawAmount::yen("25000")))
            .add_line(mkdate(9, 15), Action::Withdrawal(RawAmount::yen("10000")))
            .expect_bucket(|ex| BucketAtDate {
                recommended_or_actual_change: ex.yen("15000"),
                current_recommended_deposit: Some(ex.yen("25000")),
                current_actual_deposit: Some(ex.yen("25000")),
                current_withdrawal: Some(ex.yen("10000")),
                total_deposit: ex.yen("25000"),
                total_withdrawal: ex.yen("10000"),
                total: ex.yen("15000"),
            })
            .execute();
    }
    {
        Test::default()
            .target_set_in_current_period_one_hundred_thousand_in_four_months()
            .add_line(mkdate(9, 13), Action::Withdrawal(RawAmount::yen("10000")))
            .add_line(
                mkdate(9, 15),
                Action::WithdrawalCancellation(RawAmount::yen("5000")),
            )
            .expect_bucket(|ex| BucketAtDate {
                recommended_or_actual_change: ex.yen("-5000"),
                current_recommended_deposit: Some(ex.yen("25000")),
                current_actual_deposit: None,
                current_withdrawal: Some(ex.yen("5000")),
                total_deposit: ex.yen("0"),
                total_withdrawal: ex.yen("5000"),
                total: ex.yen("-5000"),
            })
            .execute();
    }
    {
        Test::default()
            .target_set_in_current_period_one_hundred_thousand_in_four_months()
            .add_line(mkdate(9, 8), Action::Deposit(RawAmount::yen("25000")))
            .add_line(
                mkdate(9, 9),
                Action::DepositCancellation(RawAmount::yen("5000")),
            )
            .add_line(mkdate(9, 15), Action::Withdrawal(RawAmount::yen("5000")))
            .expect_bucket(|ex| BucketAtDate {
                recommended_or_actual_change: ex.yen("15000"),
                current_recommended_deposit: Some(ex.yen("25000")),
                current_actual_deposit: Some(ex.yen("20000")),
                current_withdrawal: Some(ex.yen("5000")),
                total_deposit: ex.yen("20000"),
                total_withdrawal: ex.yen("5000"),
                total: ex.yen("15000"),
            })
            .execute();
    }
}

#[test]
fn mod_one_today_deposit_last_period() {
    {
        Test::default()
            .target_set_last_period_one_hundred_thousand_in_five_months()
            .add_line(mkdate(8, 8), Action::Deposit(RawAmount::yen("20000")))
            .add_line(
                mkdate(9, 15),
                Action::DepositCancellation(RawAmount::yen("10000")),
            )
            .expect_bucket(|ex| BucketAtDate {
                recommended_or_actual_change: ex.yen("-10000"),
                current_recommended_deposit: Some(ex.yen("20000")),
                current_actual_deposit: Some(ex.yen("-10000")),
                current_withdrawal: None,
                total_deposit: ex.yen("10000"),
                total_withdrawal: ex.yen("0"),
                total: ex.yen("10000"),
            })
            .execute();
    }
    {
        Test::default()
            .target_set_last_period_one_hundred_thousand_in_five_months()
            .add_line(mkdate(8, 8), Action::Deposit(RawAmount::yen("20000")))
            .add_line(mkdate(9, 15), Action::Withdrawal(RawAmount::yen("15000")))
            .expect_bucket(|ex| BucketAtDate {
                recommended_or_actual_change: ex.yen("-15000"),
                current_recommended_deposit: Some(ex.yen("20000")),
                current_actual_deposit: None,
                current_withdrawal: Some(ex.yen("15000")),
                total_deposit: ex.yen("20000"),
                total_withdrawal: ex.yen("15000"),
                total: ex.yen("5000"),
            })
            .execute();
    }
}

#[test]
fn mod_two_this_period_deposit_last_period() {
    {
        Test::default()
            .target_set_last_period_one_hundred_thousand_in_five_months()
            .add_line(mkdate(8, 8), Action::Deposit(RawAmount::yen("20000")))
            .add_line(
                mkdate(9, 14),
                Action::DepositCancellation(RawAmount::yen("5000")),
            )
            .add_line(
                mkdate(9, 15),
                Action::DepositCancellation(RawAmount::yen("5000")),
            )
            .expect_bucket(|ex| BucketAtDate {
                recommended_or_actual_change: ex.yen("-10000"),
                current_recommended_deposit: Some(ex.yen("20000")),
                current_actual_deposit: Some(ex.yen("-10000")),
                current_withdrawal: None,
                total_deposit: ex.yen("10000"),
                total_withdrawal: ex.yen("0"),
                total: ex.yen("10000"),
            })
            .execute();
    }
    {
        Test::default()
            .target_set_last_period_one_hundred_thousand_in_five_months()
            .add_line(mkdate(8, 8), Action::Deposit(RawAmount::yen("20000")))
            .add_line(mkdate(9, 14), Action::Withdrawal(RawAmount::yen("5000")))
            .add_line(mkdate(9, 15), Action::Withdrawal(RawAmount::yen("10000")))
            .expect_bucket(|ex| BucketAtDate {
                recommended_or_actual_change: ex.yen("-15000"),
                current_recommended_deposit: Some(ex.yen("20000")),
                current_actual_deposit: None,
                current_withdrawal: Some(ex.yen("15000")),
                total_deposit: ex.yen("20000"),
                total_withdrawal: ex.yen("15000"),
                total: ex.yen("5000"),
            })
            .execute();
    }
}

#[test]
fn mod_two_this_period() {
    {
        Test::default()
            .target_set_in_current_period_one_hundred_thousand_in_four_months()
            .add_line(mkdate(9, 8), Action::Deposit(RawAmount::yen("25000")))
            .add_line(
                mkdate(9, 14),
                Action::DepositCancellation(RawAmount::yen("5000")),
            )
            .add_line(
                mkdate(9, 15),
                Action::DepositCancellation(RawAmount::yen("5000")),
            )
            .expect_bucket(|ex| BucketAtDate {
                recommended_or_actual_change: ex.yen("15000"),
                current_recommended_deposit: Some(ex.yen("25000")),
                current_actual_deposit: Some(ex.yen("15000")),
                current_withdrawal: None,
                total_deposit: ex.yen("15000"),
                total_withdrawal: ex.yen("0"),
                total: ex.yen("15000"),
            })
            .execute();
    }
    {
        Test::default()
            .target_set_in_current_period_one_hundred_thousand_in_four_months()
            .add_line(mkdate(9, 8), Action::Deposit(RawAmount::yen("25000")))
            .add_line(mkdate(9, 14), Action::Withdrawal(RawAmount::yen("5000")))
            .add_line(mkdate(9, 15), Action::Withdrawal(RawAmount::yen("5000")))
            .expect_bucket(|ex| BucketAtDate {
                recommended_or_actual_change: ex.yen("15000"),
                current_recommended_deposit: Some(ex.yen("25000")),
                current_actual_deposit: Some(ex.yen("25000")),
                current_withdrawal: Some(ex.yen("10000")),
                total_deposit: ex.yen("25000"),
                total_withdrawal: ex.yen("10000"),
                total: ex.yen("15000"),
            })
            .execute();
    }
    {
        Test::default()
            .target_set_in_current_period_one_hundred_thousand_in_four_months()
            .add_line(mkdate(9, 8), Action::Deposit(RawAmount::yen("25000")))
            .add_line(mkdate(9, 13), Action::Withdrawal(RawAmount::yen("10000")))
            .add_line(
                mkdate(9, 13),
                Action::WithdrawalCancellation(RawAmount::yen("2500")),
            )
            .add_line(
                mkdate(9, 15),
                Action::WithdrawalCancellation(RawAmount::yen("2500")),
            )
            .expect_bucket(|ex| BucketAtDate {
                recommended_or_actual_change: ex.yen("20000"),
                current_recommended_deposit: Some(ex.yen("25000")),
                current_actual_deposit: Some(ex.yen("25000")),
                current_withdrawal: Some(ex.yen("5000")),
                total_deposit: ex.yen("25000"),
                total_withdrawal: ex.yen("5000"),
                total: ex.yen("20000"),
            })
            .execute();
    }
}

#[test]
fn mod_one_today_deposit_the_same_day() {
    {
        Test::default()
            .target_set_in_current_period_one_hundred_thousand_in_four_months()
            .add_line(mkdate(9, 15), Action::Deposit(RawAmount::yen("25000")))
            .add_line(
                mkdate(9, 15),
                Action::DepositCancellation(RawAmount::yen("10000")),
            )
            .expect_bucket(|ex| BucketAtDate {
                recommended_or_actual_change: ex.yen("15000"),
                current_recommended_deposit: Some(ex.yen("25000")),
                current_actual_deposit: Some(ex.yen("15000")),
                current_withdrawal: None,
                total_deposit: ex.yen("15000"),
                total_withdrawal: ex.yen("0"),
                total: ex.yen("15000"),
            })
            .execute();
    }
    {
        Test::default()
            .target_set_last_period_one_hundred_thousand_in_five_months()
            .add_line(mkdate(8, 15), Action::Deposit(RawAmount::yen("25000")))
            .add_line(
                mkdate(8, 15),
                Action::DepositCancellation(RawAmount::yen("10000")),
            )
            .expect_bucket(|ex| BucketAtDate {
                recommended_or_actual_change: ex.yen("21250"),
                current_recommended_deposit: Some(ex.yen("21250")),
                current_actual_deposit: None,
                current_withdrawal: None,
                total_deposit: ex.yen("15000"),
                total_withdrawal: ex.yen("0"),
                total: ex.yen("15000"),
            })
            .execute();
    }
    {
        Test::default()
            .target_set_in_current_period_one_hundred_thousand_in_four_months()
            .add_line(mkdate(9, 15), Action::Deposit(RawAmount::yen("25000")))
            .add_line(mkdate(9, 15), Action::Withdrawal(RawAmount::yen("10000")))
            .expect_bucket(|ex| BucketAtDate {
                recommended_or_actual_change: ex.yen("15000"),
                current_recommended_deposit: Some(ex.yen("25000")),
                current_actual_deposit: Some(ex.yen("25000")),
                current_withdrawal: Some(ex.yen("10000")),
                total_deposit: ex.yen("25000"),
                total_withdrawal: ex.yen("10000"),
                total: ex.yen("15000"),
            })
            .execute();
    }
    {
        Test::default()
            .target_set_last_period_one_hundred_thousand_in_five_months()
            .add_line(mkdate(8, 15), Action::Deposit(RawAmount::yen("20000")))
            .add_line(mkdate(8, 15), Action::Withdrawal(RawAmount::yen("10000")))
            .expect_bucket(|ex| BucketAtDate {
                recommended_or_actual_change: ex.yen("20000"),
                current_recommended_deposit: Some(ex.yen("20000")),
                current_actual_deposit: None,
                current_withdrawal: None,
                total_deposit: ex.yen("20000"),
                total_withdrawal: ex.yen("10000"),
                total: ex.yen("10000"),
            })
            .execute();
    }
}

#[test]
fn one_today_cancels_too_much() {
    Test::default()
        .target_set_in_current_period_one_hundred_thousand_in_four_months()
        .add_line(mkdate(9, 8), Action::Deposit(RawAmount::yen("25000")))
        .add_line(
            mkdate(9, 15),
            Action::DepositCancellation(RawAmount::yen("30000")),
        )
        .expect_error("attempt to remove more than was deposited")
        .execute();
}

#[test]
fn one_cancels_everything() {
    Test::default()
        .target_set_in_current_period_one_hundred_thousand_in_four_months()
        .add_line(mkdate(9, 8), Action::Deposit(RawAmount::yen("25000")))
        .add_line(
            mkdate(9, 15),
            Action::DepositCancellation(RawAmount::yen("25000")),
        )
        .expect_bucket(|ex| BucketAtDate {
            recommended_or_actual_change: ex.yen("0"),
            current_recommended_deposit: Some(ex.yen("25000")),
            current_actual_deposit: Some(ex.yen("0")),
            current_withdrawal: None,
            total_deposit: ex.yen("0"),
            total_withdrawal: ex.yen("0"),
            total: ex.yen("0"),
        })
        .execute();
}

#[test]
fn mod_one_cancellation_too_big_followed_by_one_deposit_that_brings_back_the_bucket_to_positive() {
    {
        Test::default()
            .target_set_in_current_period_one_hundred_thousand_in_four_months()
            .add_line(mkdate(9, 8), Action::Deposit(RawAmount::yen("25000")))
            .add_line(
                mkdate(9, 13),
                Action::DepositCancellation(RawAmount::yen("30000")),
            )
            .add_line(mkdate(9, 15), Action::Deposit(RawAmount::yen("30000")))
            .expect_error("attempt to remove more than was deposited")
            .execute();
    }
    {
        Test::default()
            .target_set_last_period_one_hundred_thousand_in_five_months()
            .add_line(mkdate(8, 8), Action::Deposit(RawAmount::yen("25000")))
            .add_line(
                mkdate(8, 13),
                Action::DepositCancellation(RawAmount::yen("30000")),
            )
            .add_line(mkdate(8, 15), Action::Deposit(RawAmount::yen("30000")))
            .expect_error("attempt to remove more than was deposited")
            .execute();
    }
    {
        Test::default()
            .target_set_in_current_period_one_hundred_thousand_in_four_months()
            .add_line(mkdate(10, 8), Action::Deposit(RawAmount::yen("25000")))
            .add_line(
                mkdate(10, 13),
                Action::DepositCancellation(RawAmount::yen("30000")),
            )
            .add_line(mkdate(10, 15), Action::Deposit(RawAmount::yen("30000")))
            .expect_error("attempt to remove more than was deposited")
            .execute();
    }
    {
        Test::default()
            .target_set_in_current_period_one_hundred_thousand_in_four_months()
            .add_line(mkdate(10, 8), Action::Withdrawal(RawAmount::yen("25000")))
            .add_line(
                mkdate(10, 13),
                Action::WithdrawalCancellation(RawAmount::yen("30000")),
            )
            .add_line(mkdate(10, 15), Action::Withdrawal(RawAmount::yen("30000")))
            .expect_error("attempt to put back money that was not withdrawn")
            .execute();
    }
}

#[test]
fn mod_one_cancellation() {
    {
        Test::default()
            .target_set_last_period_one_hundred_thousand_in_five_months()
            .add_line(mkdate(8, 1), Action::Deposit(RawAmount::yen("20000")))
            .add_line(
                mkdate(8, 31),
                Action::DepositCancellation(RawAmount::yen("10000")),
            )
            .expect_bucket(|ex| BucketAtDate {
                recommended_or_actual_change: ex.yen("22500"),
                current_recommended_deposit: Some(ex.yen("22500")),
                current_actual_deposit: None,
                current_withdrawal: None,
                total_deposit: ex.yen("10000"),
                total_withdrawal: ex.yen("0"),
                total: ex.yen("10000"),
            })
            .execute();
    }
    {
        Test::default()
            .target_set_last_period_one_hundred_thousand_in_five_months()
            .add_line(mkdate(8, 1), Action::Deposit(RawAmount::yen("20000")))
            .add_line(mkdate(8, 28), Action::Withdrawal(RawAmount::yen("15000")))
            .add_line(
                mkdate(8, 31),
                Action::WithdrawalCancellation(RawAmount::yen("5000")),
            )
            .expect_bucket(|ex| BucketAtDate {
                recommended_or_actual_change: ex.yen("20000"),
                current_recommended_deposit: Some(ex.yen("20000")),
                current_actual_deposit: None,
                current_withdrawal: None,
                total_deposit: ex.yen("20000"),
                total_withdrawal: ex.yen("10000"),
                total: ex.yen("10000"),
            })
            .execute();
    }
}

#[test]
fn mod_two_cancellations() {
    {
        Test::default()
            .target_set_last_period_one_hundred_thousand_in_five_months()
            .add_line(mkdate(8, 1), Action::Deposit(RawAmount::yen("20000")))
            .add_line(
                mkdate(8, 15),
                Action::DepositCancellation(RawAmount::yen("5000")),
            )
            .add_line(
                mkdate(8, 31),
                Action::DepositCancellation(RawAmount::yen("5000")),
            )
            .expect_bucket(|ex| BucketAtDate {
                recommended_or_actual_change: ex.yen("22500"),
                current_recommended_deposit: Some(ex.yen("22500")),
                current_actual_deposit: None,
                current_withdrawal: None,
                total_deposit: ex.yen("10000"),
                total_withdrawal: ex.yen("0"),
                total: ex.yen("10000"),
            })
            .execute();
    }
    {
        Test::default()
            .target_set_last_period_one_hundred_thousand_in_five_months()
            .add_line(mkdate(8, 1), Action::Deposit(RawAmount::yen("20000")))
            .add_line(mkdate(8, 28), Action::Withdrawal(RawAmount::yen("15000")))
            .add_line(
                mkdate(8, 30),
                Action::WithdrawalCancellation(RawAmount::yen("3000")),
            )
            .add_line(
                mkdate(8, 31),
                Action::WithdrawalCancellation(RawAmount::yen("2000")),
            )
            .expect_bucket(|ex| BucketAtDate {
                recommended_or_actual_change: ex.yen("20000"),
                current_recommended_deposit: Some(ex.yen("20000")),
                current_actual_deposit: None,
                current_withdrawal: None,
                total_deposit: ex.yen("20000"),
                total_withdrawal: ex.yen("10000"),
                total: ex.yen("10000"),
            })
            .execute();
    }
}

#[test]
fn one_today_too_cancels_too_much() {
    Test::default()
        .target_set_last_period_one_hundred_thousand_in_five_months()
        .add_line(mkdate(8, 8), Action::Deposit(RawAmount::yen("25000")))
        .add_line(
            mkdate(8, 15),
            Action::DepositCancellation(RawAmount::yen("30000")),
        )
        .expect_error("attempt to remove more than was deposited")
        .execute();
}

#[test]
fn one_cancellation_tomorrow() {
    Test::default()
        .target_set_in_current_period_one_hundred_thousand_in_four_months()
        .add_line(mkdate(9, 1), Action::Deposit(RawAmount::yen("25000")))
        .add_line(
            mkdate(9, 16),
            Action::DepositCancellation(RawAmount::yen("25000")),
        )
        .expect_bucket_recommended_commit_one_hundred_thousand_in_four_months()
        .execute();
}

#[test]
fn one_cancellation_this_period_after_tomorrow() {
    Test::default()
        .target_set_in_current_period_one_hundred_thousand_in_four_months()
        .add_line(mkdate(9, 1), Action::Deposit(RawAmount::yen("25000")))
        .add_line(
            mkdate(9, 17),
            Action::DepositCancellation(RawAmount::yen("25000")),
        )
        .expect_bucket_recommended_commit_one_hundred_thousand_in_four_months()
        .execute();
}

#[test]
fn one_cancellation_next_period() {
    Test::default()
        .target_set_in_current_period_one_hundred_thousand_in_four_months()
        .add_line(mkdate(9, 1), Action::Deposit(RawAmount::yen("25000")))
        .add_line(
            mkdate(10, 18),
            Action::DepositCancellation(RawAmount::yen("25000")),
        )
        .expect_bucket_recommended_commit_one_hundred_thousand_in_four_months()
        .execute();
}

#[test]
fn one_cancellation_many_period_after() {
    Test::default()
        .target_set_in_current_period_one_hundred_thousand_in_four_months()
        .add_line(mkdate(9, 1), Action::Deposit(RawAmount::yen("25000")))
        .add_line(
            mkdate(12, 18),
            Action::DepositCancellation(RawAmount::yen("25000")),
        )
        .expect_bucket_recommended_commit_one_hundred_thousand_in_four_months()
        .execute();
}

#[test]
fn mod_one_cancellation_this_and_last_period() {
    {
        Test::default()
            .target_set_last_period_one_hundred_thousand_in_five_months()
            .add_line(mkdate(8, 1), Action::Deposit(RawAmount::yen("20000")))
            .add_line(
                mkdate(8, 31),
                Action::DepositCancellation(RawAmount::yen("10000")),
            )
            .add_line(
                mkdate(9, 10),
                Action::DepositCancellation(RawAmount::yen("10000")),
            )
            .expect_bucket(|ex| BucketAtDate {
                recommended_or_actual_change: ex.yen("-10000"),
                current_recommended_deposit: Some(ex.yen("22500")),
                current_actual_deposit: Some(ex.yen("-10000")),
                current_withdrawal: None,
                total_deposit: ex.yen("0"),
                total_withdrawal: ex.yen("0"),
                total: ex.yen("0"),
            })
            .execute();
    }
    {
        Test::default()
            .target_set_last_period_one_hundred_thousand_in_five_months()
            .add_line(mkdate(8, 1), Action::Deposit(RawAmount::yen("20000")))
            .add_line(
                mkdate(8, 31),
                Action::DepositCancellation(RawAmount::yen("10000")),
            )
            .add_line(
                mkdate(9, 10),
                Action::DepositCancellation(RawAmount::yen("10000")),
            )
            .expect_bucket(|ex| BucketAtDate {
                recommended_or_actual_change: ex.yen("-10000"),
                current_recommended_deposit: Some(ex.yen("22500")),
                current_actual_deposit: Some(ex.yen("-10000")),
                current_withdrawal: None,
                total_deposit: ex.yen("0"),
                total_withdrawal: ex.yen("0"),
                total: ex.yen("0"),
            })
            .execute();
    }
}

#[test]
fn mod_one_deposit_and_one_cancellation_this_and_last_period() {
    {
        Test::default()
            .target_set_last_period_one_hundred_thousand_in_five_months()
            .add_line(mkdate(8, 1), Action::Deposit(RawAmount::yen("20000")))
            .add_line(
                mkdate(8, 31),
                Action::DepositCancellation(RawAmount::yen("10000")),
            )
            .add_line(mkdate(9, 4), Action::Deposit(RawAmount::yen("20000")))
            .add_line(
                mkdate(9, 10),
                Action::DepositCancellation(RawAmount::yen("1000")),
            )
            .expect_bucket(|ex| BucketAtDate {
                recommended_or_actual_change: ex.yen("19000"),
                current_recommended_deposit: Some(ex.yen("22500")),
                current_actual_deposit: Some(ex.yen("19000")),
                current_withdrawal: None,
                total_deposit: ex.yen("29000"),
                total_withdrawal: ex.yen("0"),
                total: ex.yen("29000"),
            })
            .execute();
    }
    {
        Test::default()
            .target_set_last_period_one_hundred_thousand_in_five_months()
            .add_line(mkdate(8, 1), Action::Deposit(RawAmount::yen("20000")))
            .add_line(
                mkdate(8, 31),
                Action::DepositCancellation(RawAmount::yen("10000")),
            )
            .add_line(mkdate(9, 4), Action::Deposit(RawAmount::yen("20000")))
            .add_line(
                mkdate(9, 10),
                Action::DepositCancellation(RawAmount::yen("1000")),
            )
            .expect_bucket(|ex| BucketAtDate {
                recommended_or_actual_change: ex.yen("19000"),
                current_recommended_deposit: Some(ex.yen("22500")),
                current_actual_deposit: Some(ex.yen("19000")),
                current_withdrawal: None,
                total_deposit: ex.yen("29000"),
                total_withdrawal: ex.yen("0"),
                total: ex.yen("29000"),
            })
            .execute();
    }
}

#[test]
fn two_withdrawals() {
    Test::default()
        .add_line(mkdate(9, 8), Action::Withdrawal(RawAmount::yen("25000")))
        .add_line(mkdate(9, 9), Action::Withdrawal(RawAmount::yen("5000")))
        .expect_bucket(|ex| BucketAtDate {
            recommended_or_actual_change: ex.yen("-30000"),
            current_recommended_deposit: None,
            current_actual_deposit: None,
            current_withdrawal: Some(ex.yen("30000")),
            total_deposit: ex.yen("0"),
            total_withdrawal: ex.yen("30000"),
            total: ex.yen("-30000"),
        })
        .execute()
}

#[test]
fn one_today_deposit_the_same_day_reverse_order() {
    Test::default()
        .target_set_in_current_period_one_hundred_thousand_in_four_months()
        .add_line(mkdate(9, 15), Action::Withdrawal(RawAmount::yen("10000")))
        .add_line(mkdate(9, 15), Action::Deposit(RawAmount::yen("25000")))
        .expect_bucket(|ex| BucketAtDate {
            recommended_or_actual_change: ex.yen("15000"),
            current_recommended_deposit: Some(ex.yen("25000")),
            current_actual_deposit: Some(ex.yen("25000")),
            current_withdrawal: Some(ex.yen("10000")),
            total_deposit: ex.yen("25000"),
            total_withdrawal: ex.yen("10000"),
            total: ex.yen("15000"),
        })
        .execute();
}

#[test]
fn one_today_withdraw_too_much() {
    Test::default()
        .target_set_in_current_period_one_hundred_thousand_in_four_months()
        .add_line(mkdate(9, 8), Action::Deposit(RawAmount::yen("25000")))
        .add_line(mkdate(9, 15), Action::Withdrawal(RawAmount::yen("30000")))
        .expect_bucket(|ex| BucketAtDate {
            recommended_or_actual_change: ex.yen("-5000"),
            current_recommended_deposit: Some(ex.yen("25000")),
            current_actual_deposit: Some(ex.yen("25000")),
            current_withdrawal: Some(ex.yen("30000")),
            total_deposit: ex.yen("25000"),
            total_withdrawal: ex.yen("30000"),
            total: ex.yen("-5000"),
        })
        .execute();
}

#[test]
fn one_withdraw_everything() {
    Test::default()
        .target_set_in_current_period_one_hundred_thousand_in_four_months()
        .add_line(mkdate(9, 8), Action::Deposit(RawAmount::yen("25000")))
        .add_line(mkdate(9, 15), Action::Withdrawal(RawAmount::yen("25000")))
        .expect_bucket(|ex| BucketAtDate {
            recommended_or_actual_change: ex.yen("0"),
            current_recommended_deposit: Some(ex.yen("25000")),
            current_actual_deposit: Some(ex.yen("25000")),
            current_withdrawal: Some(ex.yen("25000")),
            total_deposit: ex.yen("25000"),
            total_withdrawal: ex.yen("25000"),
            total: ex.yen("0"),
        })
        .execute();
}

#[test]
fn mod_one_withdrawal_too_big_followed_by_one_deposit_that_brings_back_the_bucket_to_positive() {
    {
        Test::default()
            .target_set_in_current_period_one_hundred_thousand_in_four_months()
            .add_line(mkdate(9, 8), Action::Deposit(RawAmount::yen("25000")))
            // This is a bit of a dumb scenario - saving 30000 yen and then withdrawing them immediately
            // It is however valid
            .add_line(mkdate(9, 13), Action::Withdrawal(RawAmount::yen("30000")))
            .add_line(mkdate(9, 15), Action::Deposit(RawAmount::yen("30000")))
            .expect_bucket(|ex| BucketAtDate {
                recommended_or_actual_change: ex.yen("25000"),
                current_recommended_deposit: Some(ex.yen("25000")),
                current_actual_deposit: Some(ex.yen("55000")),
                current_withdrawal: Some(ex.yen("30000")),
                total_deposit: ex.yen("55000"),
                total_withdrawal: ex.yen("30000"),
                total: ex.yen("25000"),
            })
            .execute();
    }
    {
        Test::default()
            .target_set_last_period_one_hundred_thousand_in_five_months()
            .add_line(mkdate(8, 8), Action::Deposit(RawAmount::yen("25000")))
            .add_line(
                mkdate(8, 13),
                Action::DepositCancellation(RawAmount::yen("30000")),
            )
            .add_line(mkdate(8, 15), Action::Deposit(RawAmount::yen("30000")))
            .expect_error("attempt to remove more than was deposited")
            .execute();
    }
}

#[test]
fn one_withdrawal() {
    Test::default()
        .target_set_last_period_one_hundred_thousand_in_five_months()
        .add_line(mkdate(8, 1), Action::Deposit(RawAmount::yen("20000")))
        .add_line(mkdate(8, 31), Action::Withdrawal(RawAmount::yen("10000")))
        .expect_bucket(|ex| BucketAtDate {
            recommended_or_actual_change: ex.yen("20000"),
            current_recommended_deposit: Some(ex.yen("20000")),
            current_actual_deposit: None,
            current_withdrawal: None,
            total_deposit: ex.yen("20000"),
            total_withdrawal: ex.yen("10000"),
            total: ex.yen("10000"),
        })
        .execute();
}

#[test]
fn two_withdrawal() {
    Test::default()
        .target_set_last_period_one_hundred_thousand_in_five_months()
        .add_line(mkdate(8, 1), Action::Deposit(RawAmount::yen("20000")))
        .add_line(mkdate(8, 15), Action::Withdrawal(RawAmount::yen("5000")))
        .add_line(mkdate(8, 31), Action::Withdrawal(RawAmount::yen("5000")))
        .expect_bucket(|ex| BucketAtDate {
            recommended_or_actual_change: ex.yen("20000"),
            current_recommended_deposit: Some(ex.yen("20000")),
            current_actual_deposit: None,
            current_withdrawal: None,
            total_deposit: ex.yen("20000"),
            total_withdrawal: ex.yen("10000"),
            total: ex.yen("10000"),
        })
        .execute();
}

#[test]
fn withdraw_more_than_deposited() {
    Test::default()
        .target_set_last_period_one_hundred_thousand_in_five_months()
        .add_line(mkdate(8, 8), Action::Deposit(RawAmount::yen("20000")))
        .add_line(mkdate(8, 15), Action::Withdrawal(RawAmount::yen("30000")))
        .expect_bucket(|ex| BucketAtDate {
            recommended_or_actual_change: ex.yen("20000"),
            current_recommended_deposit: Some(ex.yen("20000")),
            current_actual_deposit: None,
            current_withdrawal: None,
            total_deposit: ex.yen("20000"),
            total_withdrawal: ex.yen("30000"),
            total: ex.yen("-10000"),
        })
        .execute();
}

#[test]
fn one_withdrawal_tomorrow() {
    Test::default()
        .target_set_in_current_period_one_hundred_thousand_in_four_months()
        .add_line(mkdate(9, 1), Action::Deposit(RawAmount::yen("25000")))
        .add_line(mkdate(9, 16), Action::Withdrawal(RawAmount::yen("25000")))
        .expect_bucket_recommended_commit_one_hundred_thousand_in_four_months()
        .execute();
}

#[test]
fn one_withdrawal_this_period_after_tomorrow() {
    Test::default()
        .target_set_in_current_period_one_hundred_thousand_in_four_months()
        .add_line(mkdate(9, 1), Action::Deposit(RawAmount::yen("25000")))
        .add_line(mkdate(9, 17), Action::Withdrawal(RawAmount::yen("25000")))
        .expect_bucket_recommended_commit_one_hundred_thousand_in_four_months()
        .execute();
}

#[test]
fn one_withdrawal_next_period() {
    Test::default()
        .target_set_in_current_period_one_hundred_thousand_in_four_months()
        .add_line(mkdate(9, 1), Action::Deposit(RawAmount::yen("25000")))
        .add_line(mkdate(10, 18), Action::Withdrawal(RawAmount::yen("25000")))
        .expect_bucket_recommended_commit_one_hundred_thousand_in_four_months()
        .execute();
}

#[test]
fn one_today_with_deposit() {
    Test::default()
        .target_set_in_current_period_one_hundred_thousand_in_four_months()
        .add_line(mkdate(9, 8), Action::Deposit(RawAmount::yen("25000")))
        .add_line(mkdate(9, 13), Action::Withdrawal(RawAmount::yen("10000")))
        .add_line(
            mkdate(9, 15),
            Action::WithdrawalCancellation(RawAmount::yen("5000")),
        )
        .expect_bucket(|ex| BucketAtDate {
            recommended_or_actual_change: ex.yen("20000"),
            current_recommended_deposit: Some(ex.yen("25000")),
            current_actual_deposit: Some(ex.yen("25000")),
            current_withdrawal: Some(ex.yen("5000")),
            total_deposit: ex.yen("25000"),
            total_withdrawal: ex.yen("5000"),
            total: ex.yen("20000"),
        })
        .execute();
}

#[test]
fn one_today_withdrawal_last_period() {
    Test::default()
        .target_set_last_period_one_hundred_thousand_in_five_months()
        .add_line(mkdate(8, 13), Action::Withdrawal(RawAmount::yen("10000")))
        .add_line(
            mkdate(9, 15),
            Action::WithdrawalCancellation(RawAmount::yen("5000")),
        )
        .expect_bucket(|ex| BucketAtDate {
            recommended_or_actual_change: ex.yen("5000"),
            current_recommended_deposit: Some(ex.yen("25000")),
            current_actual_deposit: None,
            current_withdrawal: Some(ex.yen("-5000")),
            total_deposit: ex.yen("0"),
            total_withdrawal: ex.yen("5000"),
            total: ex.yen("-5000"),
        })
        .execute();
}

#[test]
fn one_this_period_withdrawal_last_period() {
    Test::default()
        .target_set_last_period_one_hundred_thousand_in_five_months()
        .add_line(mkdate(8, 8), Action::Deposit(RawAmount::yen("20000")))
        .add_line(mkdate(8, 13), Action::Withdrawal(RawAmount::yen("10000")))
        .add_line(
            mkdate(9, 15),
            Action::WithdrawalCancellation(RawAmount::yen("5000")),
        )
        .expect_bucket(|ex| BucketAtDate {
            recommended_or_actual_change: ex.yen("5000"),
            current_recommended_deposit: Some(ex.yen("20000")),
            current_actual_deposit: None,
            current_withdrawal: Some(ex.yen("-5000")),
            total_deposit: ex.yen("20000"),
            total_withdrawal: ex.yen("5000"),
            total: ex.yen("15000"),
        })
        .execute();
}

#[test]
fn two_this_period_withdrawal_last_period() {
    Test::default()
        .target_set_last_period_one_hundred_thousand_in_five_months()
        .add_line(mkdate(8, 8), Action::Deposit(RawAmount::yen("20000")))
        .add_line(mkdate(8, 13), Action::Withdrawal(RawAmount::yen("10000")))
        .add_line(
            mkdate(9, 13),
            Action::WithdrawalCancellation(RawAmount::yen("3000")),
        )
        .add_line(
            mkdate(9, 15),
            Action::WithdrawalCancellation(RawAmount::yen("2000")),
        )
        .expect_bucket(|ex| BucketAtDate {
            recommended_or_actual_change: ex.yen("5000"),
            current_recommended_deposit: Some(ex.yen("20000")),
            current_actual_deposit: None,
            current_withdrawal: Some(ex.yen("-5000")),
            total_deposit: ex.yen("20000"),
            total_withdrawal: ex.yen("5000"),
            total: ex.yen("15000"),
        })
        .execute();
}

#[test]
fn one_today_withdraws_too_much() {
    Test::default()
        .target_set_in_current_period_one_hundred_thousand_in_four_months()
        .add_line(mkdate(9, 8), Action::Deposit(RawAmount::yen("25000")))
        .add_line(mkdate(9, 13), Action::Withdrawal(RawAmount::yen("10000")))
        .add_line(
            mkdate(9, 15),
            Action::WithdrawalCancellation(RawAmount::yen("12000")),
        )
        .expect_error("attempt to put back money that was not withdrawn")
        .execute();
}

#[test]
fn one_today_withdraws_too_much_but_money_is_withdrawn_again() {
    Test::default()
        .target_set_in_current_period_one_hundred_thousand_in_four_months()
        .add_line(mkdate(9, 8), Action::Deposit(RawAmount::yen("25000")))
        .add_line(mkdate(9, 10), Action::Withdrawal(RawAmount::yen("10000")))
        .add_line(
            mkdate(9, 12),
            Action::WithdrawalCancellation(RawAmount::yen("12000")),
        )
        .add_line(mkdate(9, 14), Action::Withdrawal(RawAmount::yen("3000")))
        .expect_error("attempt to put back money that was not withdrawn")
        .execute();
}

#[test]
fn withdraws_too_much() {
    Test::default()
        .target_set_last_period_one_hundred_thousand_in_five_months()
        .add_line(mkdate(8, 8), Action::Deposit(RawAmount::yen("25000")))
        .add_line(mkdate(8, 13), Action::Withdrawal(RawAmount::yen("10000")))
        .add_line(
            mkdate(8, 15),
            Action::WithdrawalCancellation(RawAmount::yen("12000")),
        )
        .expect_error("attempt to put back money that was not withdrawn")
        .execute();
}

#[test]
fn withdraws_too_much_but_money_is_withdrawn_again() {
    Test::default()
        .target_set_last_period_one_hundred_thousand_in_five_months()
        .add_line(mkdate(8, 8), Action::Deposit(RawAmount::yen("25000")))
        .add_line(mkdate(8, 10), Action::Withdrawal(RawAmount::yen("10000")))
        .add_line(
            mkdate(8, 12),
            Action::WithdrawalCancellation(RawAmount::yen("12000")),
        )
        .add_line(mkdate(8, 14), Action::Withdrawal(RawAmount::yen("3000")))
        .expect_error("attempt to put back money that was not withdrawn")
        .execute();
}

#[test]
fn one_withdrawal_cancellation_tomorrow() {
    Test::default()
        .target_set_in_current_period_one_hundred_thousand_in_four_months()
        .add_line(mkdate(9, 3), Action::Deposit(RawAmount::yen("25000")))
        .add_line(mkdate(9, 15), Action::Withdrawal(RawAmount::yen("5000")))
        .add_line(mkdate(9, 16), Action::WithdrawalCancellation(RawAmount::yen("5000")))
        .expect_bucket_recommended_commit_one_hundred_thousand_in_four_months_five_thousand_withdrawn()
        .execute();
}

#[test]
fn one_withdrawal_cancellation_this_period_after_tomorrow() {
    Test::default()
        .target_set_in_current_period_one_hundred_thousand_in_four_months()
        .add_line(mkdate(9, 3), Action::Deposit(RawAmount::yen("25000")))
        .add_line(mkdate(9, 15), Action::Withdrawal(RawAmount::yen("5000")))
        .add_line(
            mkdate(9, 17),
            Action::WithdrawalCancellation(RawAmount::yen("5000")),
        )
        .expect_bucket_recommended_commit_one_hundred_thousand_in_four_months_five_thousand_withdrawn()
        .execute();
}

#[test]
fn one_withdrawal_cancellation_next_period() {
    Test::default()
        .target_set_in_current_period_one_hundred_thousand_in_four_months()
        .add_line(mkdate(9, 3), Action::Deposit(RawAmount::yen("25000")))
        .add_line(mkdate(9, 15), Action::Withdrawal(RawAmount::yen("5000")))
        .add_line(
            mkdate(10, 18),
            Action::WithdrawalCancellation(RawAmount::yen("5000")),
        )
        .expect_bucket_recommended_commit_one_hundred_thousand_in_four_months_five_thousand_withdrawn()
        .execute();
}

#[test]
fn one_withdrawal_cancellation_many_period_after() {
    Test::default()
        .target_set_in_current_period_one_hundred_thousand_in_four_months()
        .add_line(mkdate(9, 3), Action::Deposit(RawAmount::yen("25000")))
        .add_line(mkdate(9, 15), Action::Withdrawal(RawAmount::yen("5000")))
        .add_line(
            mkdate(12, 18),
            Action::WithdrawalCancellation(RawAmount::yen("5000")),
        )
        .expect_bucket_recommended_commit_one_hundred_thousand_in_four_months_five_thousand_withdrawn()
        .execute();
}

#[test]
fn two_withdrawals_one_deposit() {
    Test::default()
        .add_line(mkdate(9, 8), Action::Withdrawal(RawAmount::yen("25000")))
        .add_line(mkdate(9, 9), Action::Withdrawal(RawAmount::yen("5000")))
        .add_line(mkdate(9, 10), Action::Deposit(RawAmount::yen("30000")))
        .expect_bucket(|ex| BucketAtDate {
            recommended_or_actual_change: ex.yen("0"),
            current_recommended_deposit: None,
            current_actual_deposit: Some(ex.yen("30000")),
            current_withdrawal: Some(ex.yen("30000")),
            total_deposit: ex.yen("30000"),
            total_withdrawal: ex.yen("30000"),
            total: ex.yen("0"),
        })
        .execute()
}

#[test]
fn last_period_cancellation_this_period_withdrawal() {
    Test::default()
        .target_set_last_period_one_hundred_thousand_in_five_months()
        .add_line(mkdate(8, 1), Action::Deposit(RawAmount::yen("20000")))
        .add_line(
            mkdate(8, 31),
            Action::DepositCancellation(RawAmount::yen("10000")),
        )
        .add_line(mkdate(9, 5), Action::Withdrawal(RawAmount::yen("3000")))
        .expect_bucket(|ex| BucketAtDate {
            recommended_or_actual_change: ex.yen("-3000"),
            current_recommended_deposit: Some(ex.yen("22500")),
            current_actual_deposit: None,
            current_withdrawal: Some(ex.yen("3000")),
            total_deposit: ex.yen("10000"),
            total_withdrawal: ex.yen("3000"),
            total: ex.yen("7000"),
        })
        .execute();
}

fn create_operand_nominal() {
    let ex = ExchangeRates::for_tests();
    let period_configuration = PeriodConfigurationVaultValue::CalendarMonth;
    let today = mkdate(9, 15);

    let bucket = Bucket {
        name: "test-bucket".to_string(),
        lines: vec![
            Line((
                mkdate(8, 13),
                Action::SetTarget {
                    amount: RawAmount::yen("3000"),
                    target_date: mkdate(10, 30),
                },
            )),
            Line((mkdate(8, 13), Action::Deposit(RawAmount::yen("1100")))),
            Line((mkdate(8, 20), Action::Withdrawal(RawAmount::yen("500")))),
            Line((mkdate(8, 20), Action::DepositCancellation(RawAmount::yen("100")))),
            Line((mkdate(9, 15), Action::Deposit(RawAmount::yen("1000")))),
        ],
        archived_since: None,
    };

    let expected: Result<Vec<Operand>, String> = Ok(vec![Operand {
        name: "test-bucket".to_string(),
        amount: ex.yen("-1000"),
        illustration: vec![
            ("This period - recommended deposit".to_string(), IllustrationValue::Amount(ex.yen("1000"))),
            ("This period - actual deposit".to_string(), IllustrationValue::Amount(ex.yen("1000"))),
            ("This period - actual withdrawal".to_string(), IllustrationValue::NullAmount),
            ("Deposited".to_string(), IllustrationValue::Amount(ex.yen("2000"))),
            ("Withdrawn".to_string(), IllustrationValue::Amount(ex.yen("500"))),
            ("Total".to_string(), IllustrationValue::Amount(ex.yen("1500"))),
        ],
        archived_from: None,
    }]);
    let actual = bucket.build(&period_configuration, &today, &ex);
    assert!(same_operands(&actual, &expected), "got {:?}", actual);
}

fn buckets_json_lines() -> Vec<&'static str> {
    vec![
        "2025/08/13 TARG ¥3000 2025/10/30",
        "2025/08/13 DEPO ¥1100 #Comment",
        "2025/08/20 WITH ¥500",
        "2025/08/20 DEPO- ¥100",
        "2025/09/15 DEPO ¥1000",
        "2025/09/15 WITH- ¥50",
    ]
}

fn expected_bucket(archived: bool) -> Bucket {
    Bucket {
        name: "test-bucket".to_string(),
        lines: vec![
            Line((
                mkdate(8, 13),
                Action::SetTarget {
                    amount: RawAmount::yen("3000"),
                    target_date: mkdate(10, 30),
                },
            )),
            Line((mkdate(8, 13), Action::Deposit(RawAmount::yen("1100")))),
            Line((mkdate(8, 20), Action::Withdrawal(RawAmount::yen("500")))),
            Line((mkdate(8, 20), Action::DepositCancellation(RawAmount::yen("100")))),
            Line((mkdate(9, 15), Action::Deposit(RawAmount::yen("1000")))),
            Line((mkdate(9, 15), Action::WithdrawalCancellation(RawAmount::yen("50")))),
        ],
        archived_since: if archived { Some(Date::from_ymd(2025, 10, 3).expect("can create date")) } else { None },
    }
}

fn same_raw_amount(a: &RawAmount, b: &RawAmount) -> bool {
    a.currency == b.currency && a.figure.mantissa == b.figure.mantissa && a.figure.scale == b.figure.scale
}

fn same_action(a: &Action, b: &Action) -> bool {
    match (a, b) {
        (Action::Deposit(x), Action::Deposit(y)) => same_raw_amount(x, y),
        (Action::DepositCancellation(x), Action::DepositCancellation(y)) => same_raw_amount(x, y),
        (Action::Withdrawal(x), Action::Withdrawal(y)) => same_raw_amount(x, y),
        (Action::WithdrawalCancellation(x), Action::WithdrawalCancellation(y)) => same_raw_amount(x, y),
        (
            Action::SetTarget { amount: x, target_date: dx },
            Action::SetTarget { amount: y, target_date: dy },
        ) => same_raw_amount(x, y) && dx == dy,
        _ => false,
    }
}

fn parsed_bucket(archived: bool) -> Bucket {
    let lines: Vec<Line> = buckets_json_lines()
        .into_iter()
        .map(|l| Line::parse(l).expect("valid line"))
        .collect();
    Bucket {
        name: "test-bucket".to_string(),
        lines,
        archived_since: if archived { Some(Date::from_ymd(2025, 10, 3).unwrap()) } else { None },
    }
}

fn same_buckets(a: &Bucket, b: &Bucket) -> bool {
    a.name == b.name
        && a.archived_since == b.archived_since
        && a.lines.len() == b.lines.len()
        && a.lines.iter().zip(b.lines.iter()).all(|(x, y)| x.0 .0 == y.0 .0 && same_action(&x.0 .1, &y.0 .1))
}

#[test]
fn mod_nominal() {
    create_operand_nominal();
    assert!(same_buckets(&parsed_bucket(false), &expected_bucket(false)));
}

#[test]
fn archived() {
    assert!(same_buckets(&parsed_bucket(true), &expected_bucket(true)));
}

#[test]
fn withdrawal_only() {
    let ex = ExchangeRates::for_tests();
    let period_configuration = PeriodConfigurationVaultValue::CalendarMonth;
    let today = mkdate(9, 15);

    let bucket = Bucket {
        name: "test-bucket".to_string(),
        lines: vec![
            Line((
                mkdate(8, 13),
                Action::SetTarget {
                    amount: RawAmount::yen("3000"),
                    target_date: mkdate(10, 30),
                },
            )),
            Line((mkdate(9, 14), Action::Withdrawal(RawAmount::yen("500")))),
        ],
        archived_since: None,
    };

    let expected: Result<Vec<Operand>, String> = Ok(vec![Operand {
        name: "test-bucket".to_string(),
        amount: ex.yen("500"),
        illustration: vec![
            ("This period - recommended deposit".to_string(), IllustrationValue::Amount(ex.yen("1500"))),
            ("This period - actual deposit".to_string(), IllustrationValue::NullAmount),
            ("This period - actual withdrawal".to_string(), IllustrationValue::Amount(ex.yen("500"))),
            ("Deposited".to_string(), IllustrationValue::Amount(ex.yen("0"))),
            ("Withdrawn".to_string(), IllustrationValue::Amount(ex.yen("500"))),
            ("Total".to_string(), IllustrationValue::Amount(ex.yen("-500"))),
        ],
        archived_from: None,
    }]);
    let actual = bucket.build(&period_configuration, &today, &ex);
    assert!(same_operands(&actual, &expected), "got {:?}", actual);
}

#[test]
fn no_goal() {
    let ex = ExchangeRates::for_tests();
    let period_configuration = PeriodConfigurationVaultValue::CalendarMonth;
    let today = mkdate(9, 15);

    let bucket = Bucket {
        name: "test-bucket".to_string(),
        lines: vec![
            Line((mkdate(8, 13), Action::Deposit(RawAmount::yen("1100")))),
            Line((mkdate(8, 20), Action::Withdrawal(RawAmount::yen("500")))),
            Line((mkdate(8, 20), Action::DepositCancellation(RawAmount::yen("100")))),
            Line((mkdate(9, 15), Action::Deposit(RawAmount::yen("1000")))),
        ],
        archived_since: None,
    };

    let expected: Result<Vec<Operand>, String> = Ok(vec![Operand {
        name: "test-bucket".to_string(),
        amount: ex.yen("-1000"),
        illustration: vec![
            ("This period - recommended deposit".to_string(), IllustrationValue::NullAmount),
            ("This period - actual deposit".to_string(), IllustrationValue::Amount(ex.yen("1000"))),
            ("This period - actual withdrawal".to_string(), IllustrationValue::NullAmount),
            ("Deposited".to_string(), IllustrationValue::Amount(ex.yen("2000"))),
            ("Withdrawn".to_string(), IllustrationValue::Amount(ex.yen("500"))),
            ("Total".to_string(), IllustrationValue::Amount(ex.yen("1500"))),
        ],
        archived_from: None,
    }]);
    let actual = bucket.build(&period_configuration, &today, &ex);
    assert!(same_operands(&actual, &expected), "got {:?}", actual);
}

fn euro_target_bucket(deposit: &str) -> Bucket {
    Bucket {
        name: "euro target".to_string(),
        lines: vec![
            Line((mkdate(8, 1), Action::SetTarget { amount: RawAmount::parse("€500").unwrap(), target_date: mkdate(12, 31) })),
            Line((mkdate(8, 5), Action::Deposit(RawAmount::yen(deposit)))),
        ],
        archived_since: None,
    }
}

#[test]
fn recommendation_for_a_euro_target_counts_earlier_deposits_converted() {
    let ex = ExchangeRates::for_tests();
    let today = mkdate(9, 15);
    let result = euro_target_bucket("200").for_period(&PeriodConfigurationVaultValue::CalendarMonth, &today, &ex).unwrap();
    let recommended = result.current_recommended_deposit.unwrap();
    // ¥200 is €100 at these rates: €400 lack, over the four months to December.
    assert_eq!(recommended.currency().code.ident(), "EUR");
    assert_eq!(recommended.in_cents(), 10000);
    assert_eq!(result.recommended_or_actual_change.in_cents(), 10000);
}

#[test]
fn recommendation_for_a_reached_euro_target_is_zero_yen() {
    let ex = ExchangeRates::for_tests();
    let today = mkdate(9, 15);
    let result = euro_target_bucket("2000").for_period(&PeriodConfigurationVaultValue::CalendarMonth, &today, &ex).unwrap();
    let recommended = result.current_recommended_deposit.unwrap();
    assert_eq!(recommended.currency().code.ident(), "JPY");
    assert_eq!(recommended.in_cents(), 0);
}

#[test]
fn lines_after_the_date_change_nothing() {
    let ex = ExchangeRates::for_tests();
    let today = mkdate(9, 15);
    let base = || vec![
        Line((mkdate(8, 1), Action::SetTarget { amount: RawAmount::yen("100000"), target_date: mkdate(12, 31) })),
        Line((mkdate(8, 20), Action::Deposit(RawAmount::yen("20000")))),
        Line((mkdate(9, 3), Action::Deposit(RawAmount::yen("5000")))),
    ];
    let mut longer = base();
    longer.push(Line((mkdate(9, 16), Action::Deposit(RawAmount::yen("7000")))));
    longer.push(Line((mkdate(10, 18), Action::Withdrawal(RawAmount::yen("1000")))));
    longer.push(Line((mkdate(11, 1), Action::SetTarget { amount: RawAmount::yen("50000"), target_date: mkdate(12, 31) })));
    let short_bucket = Bucket { name: "b".to_string(), lines: base(), archived_since: None };
    let long_bucket = Bucket { name: "b".to_string(), lines: longer, archived_since: None };
    let config = PeriodConfigurationVaultValue::CalendarMonth;
    let a = short_bucket.for_period(&config, &today, &ex);
    let b = long_bucket.for_period(&config, &today, &ex);
    assert!(same_result(&a, &b), "{:?} vs {:?}", a, b);
}

#[test]
fn recommendation_for_a_very_large_target_divides_exactly() {
    let ex = ExchangeRates::for_tests();
    let today = mkdate(9, 15);
    let bucket = Bucket {
        name: "large".to_string(),
        lines: vec![Line((mkdate(9, 1), Action::SetTarget { amount: RawAmount::yen("10000000000000000000000"), target_date: mkdate(12, 31) }))],
        archived_since: None,
    };
    let result = bucket.for_period(&PeriodConfigurationVaultValue::CalendarMonth, &today, &ex).unwrap();
    let recommended = result.current_recommended_deposit.unwrap();
    assert_eq!(recommended.to_text(), "¥2500000000000000000000");
}
