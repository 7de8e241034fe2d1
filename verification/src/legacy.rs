//! The "remaining money" screen of the first version of the tool: the
//! balances of the accounts at the start of the period and now, the goals,
//! the predicted income, and what remains for the period; figures in any
//! currency named in the exchange rates.
use vstd::prelude::*;
use crate::accounts::{AccountJson, spec_amount_at};
use crate::amounts::{Figure, decimal_convert, decimal_limit, cents_of, pow10, exact_sum};
use crate::buckets::in_decimal_range;
use crate::date::Date;
use crate::goals::{GoalImplementation, committed_total};
use crate::period::{AnyPeriodsConfiguration, Period};
use crate::text::{text, join2, join3, same_text};

verus! {

/// A figure in a named currency.
#[derive(Clone, Debug)]
pub struct LegacyAmount {
    pub currency: String,
    pub figure: Figure,
}

/// Exchange rates by currency name; where a name comes twice, the later
/// rate stands (as when a map is built from the list).
#[derive(Debug)]
pub struct LegacyRates {
    pub rates: Vec<(String, Figure)>,
}

/// The rate of the currency `name`: the last one given for it.
pub open spec fn rate_lookup(rates: Seq<(String, Figure)>, name: Seq<char>) -> Option<Figure>
    decreases rates.len(),
{
    if rates.len() == 0 {
        None
    } else if rates.last().0@ == name {
        Some(rates.last().1)
    } else {
        rate_lookup(rates.drop_last(), name)
    }
}

/// Every rate is a figure that `rust_decimal` can hold.
pub open spec fn rates_wf(rates: Seq<(String, Figure)>) -> bool {
    forall|i: int| 0 <= i < rates.len() ==> (#[trigger] rates[i]).1.wf()
}

/// What converting figure `f` from currency `from` to `target` gives: the
/// figure times the quotient of their rates, rounded to hundredths, as a
/// (mantissa, scale) pair.
pub open spec fn spec_convert(rates: Seq<(String, Figure)>, target: Seq<char>, from: Seq<char>, f: Figure) -> Result<(int, int), Seq<char>> {
    if from == target {
        Err("Attempt to convert from the target currency to the target currency"@)
    } else {
        match rate_lookup(rates, target) {
            None => Err("Could not find currency for "@ + target),
            Some(t) => match rate_lookup(rates, from) {
                None => Err("Could not find currency for "@ + from),
                Some(r) => match decimal_convert(f.mantissa as int, f.scale as int, r.mantissa as int, r.scale as int,
                    t.mantissa as int, t.scale as int) {
                    None => Err("Amount conversion overflowed"@),
                    Some(x) => Ok(x),
                },
            },
        }
    }
}

/// A figure of `currency`, in hundredths of `target`: unchanged in the
/// target currency, converted otherwise.
pub open spec fn in_target_cents(rates: Seq<(String, Figure)>, target: Seq<char>, currency: Seq<char>, f: Figure) -> Result<int, Seq<char>> {
    if currency == target {
        Ok(f.cents())
    } else {
        match spec_convert(rates, target, currency, f) {
            Err(m) => Err(m),
            Ok((m, s)) => Ok(cents_of(m, s as u32)),
        }
    }
}

/// A whole number of units, as a figure.
pub open spec fn units(n: int) -> Figure {
    Figure { mantissa: n as i128, scale: 0 }
}

impl LegacyRates {
    /// The rate of a currency.
    pub fn rate_for_currency(&self, name: &str) -> (r: Result<Figure, String>)
        requires
            rates_wf(self.rates@),
        ensures
            match rate_lookup(self.rates@, name@) {
                Some(f) => r == Ok::<Figure, String>(f) && f.wf(),
                None => r matches Err(e) && e@ == "Could not find currency for "@ + name@,
            },
    {
        let mut i: usize = self.rates.len();
        assert(self.rates@.subrange(0, i as int) =~= self.rates@);
        while i > 0
            invariant
                i <= self.rates@.len(),
                rates_wf(self.rates@),
                rate_lookup(self.rates@, name@) == rate_lookup(self.rates@.subrange(0, i as int), name@),
            decreases i,
        {
            let ghost prefix = self.rates@.subrange(0, i as int);
            assert(prefix.drop_last() =~= self.rates@.subrange(0, i - 1));
            assert(prefix.last() == self.rates@[i - 1]);
            if same_text(self.rates[i - 1].0.as_str(), name) {
                return Ok(self.rates[i - 1].1);
            }
            i = i - 1;
        }
        Err(join2("Could not find currency for ", name))
    }

    /// `f` converted from currency `from` to `target`.
    pub fn convert(&self, target: &str, f: &Figure, from: &str) -> (r: Result<Figure, String>)
        requires
            rates_wf(self.rates@),
            f.wf(),
        ensures
            match spec_convert(self.rates@, target@, from@, *f) {
                Ok((m, s)) => r matches Ok(g) && g.mantissa == m && g.scale == s && g.wf() && g.scale <= 2,
                Err(msg) => r matches Err(e) && e@ == msg,
            },
    {
        if same_text(from, target) {
            return Err(text("Attempt to convert from the target currency to the target currency"));
        }
        let target_rate = self.rate_for_currency(target)?;
        let from_rate = self.rate_for_currency(from)?;
        match f.converted(&from_rate, &target_rate) {
            Some(g) => Ok(g),
            None => Err(text("Amount conversion overflowed")),
        }
    }

    /// `f`, of `currency`, in hundredths of `target`.
    fn in_target(&self, target: &str, f: &Figure, currency: &str) -> (r: Result<Figure, String>)
        requires
            rates_wf(self.rates@),
            f.wf(),
            f.scale <= 2,
        ensures
            match in_target_cents(self.rates@, target@, currency@, *f) {
                Ok(c) => r matches Ok(g) && g.cents() == c && g.wf() && g.scale <= 2,
                Err(msg) => r matches Err(e) && e@ == msg,
            },
    {
        if same_text(currency, target) {
            Ok(*f)
        } else {
            self.convert(target, f, currency)
        }
    }
}

/// An account as the screen shows it: its balance at the start of the
/// period and now, and the difference.
#[derive(Debug)]
pub struct DisplayAccount {
    pub name: String,
    pub period_start_balance: Figure,
    pub current_balance: Figure,
    pub difference: Figure,
    pub currency: String,
}

/// The sum (or, with `subtract`, the difference) of two figures of at most
/// two decimals, where it can be held in hundredths.
fn figure_sum(a: &Figure, b: &Figure, subtract: bool) -> (r: Result<Figure, String>)
    requires
        a.wf(),
        b.wf(),
        a.scale <= 2,
        b.scale <= 2,
    ensures
        in_decimal_range(if subtract { a.cents() - b.cents() } else { a.cents() + b.cents() }) ==> (r matches Ok(f)
            && f.cents() == (if subtract { a.cents() - b.cents() } else { a.cents() + b.cents() }) && f.wf() && f.scale <= 2),
        !in_decimal_range(if subtract { a.cents() - b.cents() } else { a.cents() + b.cents() }) ==> (r matches Err(e) && e@ == "Amount overflow"@),
        r matches Ok(f) ==> f.scale == crate::amounts::scale_after(a.cents(), a.scale, b.cents(), b.scale),
{
    let x = a.in_cents();
    let y = b.in_cents();
    let total: i128 = if subtract { x - y } else { x + y };
    if total <= -crate::amounts::DECIMAL_LIMIT || total >= crate::amounts::DECIMAL_LIMIT {
        return Err(text("Amount overflow"));
    }
    let other = if subtract { b.negated() } else { *b };
    match a.plus(&other) {
        Some(f) => Ok(f),
        None => Err(text("Amount overflow")),
    }
}

impl DisplayAccount {
    /// An account of the given balances; the difference is computed.
    pub fn from_values(name: String, currency: String, period_start_balance: Figure, current_balance: Figure) -> (r: Result<DisplayAccount, String>)
        requires
            period_start_balance.wf(),
            current_balance.wf(),
            period_start_balance.scale <= 2,
            current_balance.scale <= 2,
        ensures
            in_decimal_range(current_balance.cents() - period_start_balance.cents()) ==> (r matches Ok(a)
                && a.name == name && a.currency == currency && a.period_start_balance == period_start_balance
                && a.current_balance == current_balance && a.difference.cents() == current_balance.cents() - period_start_balance.cents()
                && a.difference.wf() && a.difference.scale <= 2),
            !in_decimal_range(current_balance.cents() - period_start_balance.cents()) ==> (r matches Err(e) && e@ == "Amount overflow"@),
    {
        let difference = figure_sum(&current_balance, &period_start_balance, true)?;
        Ok(DisplayAccount { name, currency, period_start_balance, current_balance, difference })
    }
}

impl DisplayAccount {
    /// The account as the screen shows it, from its balances at the start
    /// of the period and at the current date; an error of either lookup is
    /// prefixed with the account's name.
    pub fn from_queriable_account(raw_account: &AccountJson, period_start_date: &Date, current_date: &Date) -> (r: Result<DisplayAccount, String>)
        ensures
            match spec_amount_at(raw_account.amounts@, *period_start_date) {
                Err(m) => r matches Err(e) && e@ == account_error(raw_account.name@, m),
                Ok(fs) => match spec_amount_at(raw_account.amounts@, *current_date) {
                    Err(m) => r matches Err(e) && e@ == account_error(raw_account.name@, m),
                    Ok(fc) => r matches Ok(a) && a.wf() && a.name@ == raw_account.name@ && a.currency@ == raw_account.currency@
                        && a.period_start_balance == units(fs.figure as int) && a.current_balance == units(fc.figure as int)
                        && a.difference.cents() == (fc.figure - fs.figure) * 100,
                },
            },
    {
        let start = match raw_account.amount_at(period_start_date) {
            Ok(f) => f,
            Err(e) => {
                return Err(join2(join3("Error when querying account \"", raw_account.name.as_str(), "\": ").as_str(), e.as_str()));
            },
        };
        let current = match raw_account.amount_at(current_date) {
            Ok(f) => f,
            Err(e) => {
                return Err(join2(join3("Error when querying account \"", raw_account.name.as_str(), "\": ").as_str(), e.as_str()));
            },
        };
        let start_figure = Figure::from_int(start.figure as i64);
        let current_figure = Figure::from_int(current.figure as i64);
        let shown = DisplayAccount::from_values(raw_account.name.clone(), raw_account.currency.clone(), start_figure, current_figure);
        match shown {
            Ok(x) => Ok(x),
            Err(e) => {
                assert(false);
                Err(e)
            },
        }
    }
}

/// The error of an account that could not be queried.
pub open spec fn account_error(name: Seq<char>, m: Seq<char>) -> Seq<char> {
    "Error when querying account \""@ + name + "\": "@ + m
}

/// The balances of the accounts at the start of the period and at `date`,
/// or the error of the first account that cannot be queried.
pub open spec fn query_outcome(accs: Seq<AccountJson>, p: Period, date: Date) -> Result<Seq<(int, int)>, Seq<char>>
    decreases accs.len(),
{
    if accs.len() == 0 {
        Ok(Seq::empty())
    } else {
        match query_outcome(accs.drop_last(), p, date) {
            Err(m) => Err(m),
            Ok(v) => {
                let a = accs.last();
                match spec_amount_at(a.amounts@, p.start_date) {
                    Err(m) => Err(account_error(a.name@, m)),
                    Ok(fs) => match spec_amount_at(a.amounts@, date) {
                        Err(m) => Err(account_error(a.name@, m)),
                        Ok(fc) => Ok(v.push((fs.figure as int, fc.figure as int))),
                    },
                }
            },
        }
    }
}

/// The total balances at the start of the period and now, in hundredths of
/// `target`, of accounts given as (currency, start balance, current
/// balance) rows.
pub open spec fn balance_totals(rates: Seq<(String, Figure)>, target: Seq<char>, rows: Seq<(Seq<char>, Figure, Figure)>) -> Result<(int, int), Seq<char>>
    decreases rows.len(),
{
    if rows.len() == 0 {
        Ok((0, 0))
    } else {
        match balance_totals(rates, target, rows.drop_last()) {
            Err(m) => Err(m),
            Ok((s, c)) => {
                let (currency, start, current) = rows.last();
                match in_target_cents(rates, target, currency, start) {
                    Err(m) => Err(m),
                    Ok(x) => match in_target_cents(rates, target, currency, current) {
                        Err(m) => Err(m),
                        Ok(y) => if !in_decimal_range(s + x) || !in_decimal_range(c + y) {
                            Err("Amount overflow"@)
                        } else {
                            Ok((s + x, c + y))
                        },
                    },
                }
            },
        }
    }
}

/// The rows of shown accounts.
pub open spec fn account_rows(das: Seq<DisplayAccount>) -> Seq<(Seq<char>, Figure, Figure)> {
    das.map_values(|a: DisplayAccount| (a.currency@, a.period_start_balance, a.current_balance))
}

/// The rows of accounts of the given balances.
pub open spec fn account_rows_of(accs: Seq<AccountJson>, figs: Seq<(int, int)>) -> Seq<(Seq<char>, Figure, Figure)> {
    Seq::new(figs.len(), |i: int| (accs[i].currency@, units(figs[i].0), units(figs[i].1)))
}

/// The sum of the commits dated within period `p`.
pub open spec fn committed_within(commits: Seq<(Date, u32)>, p: Period) -> int
    decreases commits.len(),
{
    if commits.len() == 0 {
        0
    } else {
        committed_within(commits.drop_last(), p) + if p.spec_contains(commits.last().0) { commits.last().1 as int } else { 0 }
    }
}

/// The goal as the screen shows it: what was committed, what was committed
/// this period, what is to be committed this period (nothing where it is
/// zero) and the target; or the error of `to_pay_at`.
pub open spec fn goal_outcome(g: GoalImplementation, config: AnyPeriodsConfiguration, p: Period, date: Date) -> Result<(int, int, int), Seq<char>> {
    match g.spec_to_pay_at(config, date) {
        Err(m) => Err(m),
        Ok(n) => Ok((committed_total(g.commited@), committed_within(g.commited@, p), n)),
    }
}

/// The goals as the screen shows them, or the first error.
pub open spec fn goals_outcome(goals: Seq<GoalImplementation>, config: AnyPeriodsConfiguration, p: Period, date: Date) -> Result<Seq<(int, int, int)>, Seq<char>>
    decreases goals.len(),
{
    if goals.len() == 0 {
        Ok(Seq::empty())
    } else {
        match goals_outcome(goals.drop_last(), config, p, date) {
            Err(m) => Err(m),
            Ok(v) => match goal_outcome(goals.last(), config, p, date) {
                Err(m) => Err(m),
                Ok(x) => Ok(v.push(x)),
            },
        }
    }
}

/// The overall goal's figures in hundredths of the target currency:
/// targets, commits, commits of the period, and what is to be committed
/// this period (`None` where no goal has anything to commit).
pub struct GoalSums {
    pub target: int,
    pub committed: int,
    pub committed_this_period: int,
    pub to_commit: Option<int>,
}

/// The overall goal of goals given as (currency, target, committed,
/// committed this period, to commit this period) rows, or the first error.
pub open spec fn goal_totals(rates: Seq<(String, Figure)>, target: Seq<char>, rows: Seq<(Seq<char>, Figure, Figure, Figure, Option<Figure>)>) -> Result<GoalSums, Seq<char>>
    decreases rows.len(),
{
    if rows.len() == 0 {
        Ok(GoalSums { target: 0, committed: 0, committed_this_period: 0, to_commit: None })
    } else {
        match goal_totals(rates, target, rows.drop_last()) {
            Err(m) => Err(m),
            Ok(acc) => {
                let (currency, goal_target, committed, this_period, to_commit) = rows.last();
                match in_target_cents(rates, target, currency, goal_target) {
                    Err(m) => Err(m),
                    Ok(t) => match in_target_cents(rates, target, currency, committed) {
                        Err(m) => Err(m),
                        Ok(c) => match in_target_cents(rates, target, currency, this_period) {
                            Err(m) => Err(m),
                            Ok(p) => {
                                let tc: Result<Option<int>, Seq<char>> = match to_commit {
                                    None => Ok(None),
                                    Some(f) => match in_target_cents(rates, target, currency, f) {
                                        Err(m) => Err(m),
                                        Ok(x) => Ok(Some(x)),
                                    },
                                };
                                match tc {
                                    Err(m) => Err(m),
                                    Ok(tc) => {
                                        let sum: Option<int> = match tc {
                                            None => acc.to_commit,
                                            Some(x) => Some(match acc.to_commit { Some(y) => y, None => 0 } + x),
                                        };
                                        if !in_decimal_range(acc.target + t) || !in_decimal_range(acc.committed + c)
                                            || (sum matches Some(z) && !in_decimal_range(z))
                                            || !in_decimal_range(acc.committed_this_period + p) {
                                            Err("Amount overflow"@)
                                        } else {
                                            Ok(GoalSums {
                                                target: acc.target + t,
                                                committed: acc.committed + c,
                                                committed_this_period: acc.committed_this_period + p,
                                                to_commit: sum,
                                            })
                                        }
                                    },
                                }
                            },
                        },
                    },
                }
            },
        }
    }
}

/// The rows of shown goals.
pub open spec fn goal_rows(dgs: Seq<DisplayGoal>) -> Seq<(Seq<char>, Figure, Figure, Figure, Option<Figure>)> {
    dgs.map_values(|g: DisplayGoal| (g.currency@, g.target, g.committed, g.committed_this_period, g.to_commit_this_period))
}

/// What is to be committed this period: nothing where it is zero.
pub open spec fn due_figure(n: int) -> Option<Figure> {
    if n == 0 { None } else { Some(units(n)) }
}

/// The rows of goals of the given figures.
pub open spec fn goal_rows_of(goals: Seq<GoalImplementation>, vals: Seq<(int, int, int)>) -> Seq<(Seq<char>, Figure, Figure, Figure, Option<Figure>)> {
    Seq::new(vals.len(), |i: int| goal_row_of(goals[i], vals[i]))
}

/// A goal as the screen shows it.
#[derive(Debug)]
pub struct DisplayGoal {
    pub name: String,
    pub committed: Figure,
    pub committed_this_period: Figure,
    pub to_commit_this_period: Option<Figure>,
    pub target: Figure,
    pub currency: String,
}

impl DisplayGoal {
    /// All figures are whole or have at most two decimals.
    pub open spec fn wf(self) -> bool {
        &&& self.committed.wf() && self.committed.scale <= 2
        &&& self.committed_this_period.wf() && self.committed_this_period.scale <= 2
        &&& self.target.wf() && self.target.scale <= 2
        &&& self.to_commit_this_period matches Some(f) ==> f.wf() && f.scale <= 2
    }
}

impl DisplayAccount {
    /// All figures are whole or have at most two decimals.
    pub open spec fn wf(self) -> bool {
        &&& self.period_start_balance.wf() && self.period_start_balance.scale <= 2
        &&& self.current_balance.wf() && self.current_balance.scale <= 2
        &&& self.difference.wf() && self.difference.scale <= 2
    }
}

/// The screen: the period, the accounts and their overall balance, the
/// predicted income, the goals and the overall goal, what is not committed
/// to goals (and whether that is below zero), and what remains.
#[derive(Debug)]
pub struct RemainingMoneyScreen {
    pub current_period: Period,
    pub overall_balance: DisplayAccount,
    pub individual_balances: Vec<DisplayAccount>,
    pub predicted_income: Option<LegacyAmount>,
    pub overall_goal: DisplayGoal,
    pub goals: Vec<DisplayGoal>,
    pub uncommitted: LegacyAmount,
    pub overcommitted: bool,
    pub remaining: LegacyAmount,
}

/// The inputs of the legacy screen.
#[derive(Debug)]
pub struct RemainingOperation {
    pub rates: LegacyRates,
    pub target_currency: String,
    pub date: Date,
    pub periods_configuration: AnyPeriodsConfiguration,
    pub raw_accounts: Vec<AccountJson>,
    pub goals: Vec<GoalImplementation>,
    pub predicted_income: Option<LegacyAmount>,
}

impl RemainingOperation {
    /// The operation can be computed: the rates are valid figures, the
    /// configuration handles the date, and every goal can be shown (see
    /// `goal_ready`).
    pub open spec fn ready(self) -> bool {
        &&& rates_wf(self.rates.rates@)
        &&& self.periods_configuration.handles(self.date)
        &&& forall|i: int| 0 <= i < self.goals@.len() ==> goal_ready(#[trigger] self.goals@[i], self.periods_configuration, self.date)
        &&& self.predicted_income matches Some(pi) ==> pi.figure.wf()
    }
}

/// The accounts as the screen shows them.
fn query_accounts(accs: &Vec<AccountJson>, p: &Period, date: &Date) -> (r: Result<Vec<DisplayAccount>, String>)
    ensures
        match query_outcome(accs@, *p, *date) {
            Err(m) => r matches Err(e) && e@ == m,
            Ok(v) => r matches Ok(das) && das@.len() == v.len() && forall|i: int| 0 <= i < v.len() ==> {
                let a = #[trigger] das@[i];
                &&& a.wf()
                &&& a.name@ == accs@[i].name@
                &&& a.currency@ == accs@[i].currency@
                &&& a.period_start_balance == units(v[i].0)
                &&& a.current_balance == units(v[i].1)
                &&& a.difference.cents() == (v[i].1 - v[i].0) * 100
            },
        },
{
    let mut das: Vec<DisplayAccount> = Vec::new();
    let ghost figures: Seq<(int, int)> = Seq::empty();
    let mut i: usize = 0;
    while i < accs.len()
        invariant
            i <= accs@.len(),
            query_outcome(accs@.subrange(0, i as int), *p, *date) == Ok::<Seq<(int, int)>, Seq<char>>(figures),
            das@.len() == i,
            figures.len() == i,
            forall|k: int| 0 <= k < i ==> {
                let a = #[trigger] das@[k];
                &&& a.wf()
                &&& a.name@ == accs@[k].name@
                &&& a.currency@ == accs@[k].currency@
                &&& a.period_start_balance == units(figures[k].0)
                &&& a.current_balance == units(figures[k].1)
                &&& a.difference.cents() == (figures[k].1 - figures[k].0) * 100
            },
        decreases accs.len() - i,
    {
        let ghost prefix = accs@.subrange(0, i + 1);
        assert(prefix.drop_last() =~= accs@.subrange(0, i as int));
        assert(prefix.last() == accs@[i as int]);
        let a = &accs[i];
        let shown = match DisplayAccount::from_queriable_account(a, &p.start_date, date) {
            Ok(x) => x,
            Err(e) => {
                proof {
                    lemma_query_error_sticks(accs@, *p, *date, i + 1);
                }
                return Err(e);
            },
        };
        let ghost fs = spec_amount_at(a.amounts@, p.start_date)->Ok_0;
        let ghost fc = spec_amount_at(a.amounts@, *date)->Ok_0;
        das.push(shown);
        proof {
            figures = figures.push((fs.figure as int, fc.figure as int));
        }
        i = i + 1;
    }
    assert(accs@.subrange(0, i as int) =~= accs@);
    Ok(das)
}

proof fn lemma_query_error_sticks(all: Seq<AccountJson>, p: Period, date: Date, k: int)
    requires
        0 <= k <= all.len(),
        query_outcome(all.subrange(0, k), p, date) is Err,
    ensures
        query_outcome(all, p, date) == query_outcome(all.subrange(0, k), p, date),
    decreases all.len(),
{
    if all.len() > k {
        let shorter = all.drop_last();
        assert(shorter.subrange(0, k) =~= all.subrange(0, k));
        lemma_query_error_sticks(shorter, p, date, k);
    } else {
        assert(all.subrange(0, k) =~= all);
    }
}

/// The overall balance of the shown accounts, in the target currency.
fn overall_balance(rates: &LegacyRates, target: &String, das: &Vec<DisplayAccount>) -> (r: Result<DisplayAccount, String>)
    requires
        rates_wf(rates.rates@),
        forall|i: int| 0 <= i < das@.len() ==> (#[trigger] das@[i]).wf(),
    ensures
        match balance_totals(rates.rates@, target@, account_rows(das@)) {
            Err(m) => r matches Err(e) && e@ == m,
            Ok((s, c)) => if in_decimal_range(c - s) {
                r matches Ok(a) && a.name@ == "Overall Balance"@ && a.currency@ == target@ && a.wf()
                    && a.period_start_balance.cents() == s && a.current_balance.cents() == c && a.difference.cents() == c - s
            } else {
                r matches Err(e) && e@ == "Amount overflow"@
            },
        },
{
    let mut start = Figure::from_int(0);
    let mut current = Figure::from_int(0);
    let mut i: usize = 0;
    while i < das.len()
        invariant
            i <= das@.len(),
            rates_wf(rates.rates@),
            forall|k: int| 0 <= k < das@.len() ==> (#[trigger] das@[k]).wf(),
            start.wf() && start.scale <= 2,
            current.wf() && current.scale <= 2,
            balance_totals(rates.rates@, target@, account_rows(das@.subrange(0, i as int))) == Ok::<(int, int), Seq<char>>((start.cents(), current.cents())),
        decreases das.len() - i,
    {
        let ghost rows = account_rows(das@.subrange(0, i + 1));
        assert(rows.drop_last() =~= account_rows(das@.subrange(0, i as int)));
        assert(rows.last() == (das@[i as int].currency@, das@[i as int].period_start_balance, das@[i as int].current_balance));
        let a = &das[i];
        let x = match rates.in_target(target.as_str(), &a.period_start_balance, a.currency.as_str()) {
            Ok(x) => x,
            Err(e) => {
                proof { lemma_balance_error_sticks(rates.rates@, target@, das@, i + 1); }
                return Err(e);
            },
        };
        let y = match rates.in_target(target.as_str(), &a.current_balance, a.currency.as_str()) {
            Ok(y) => y,
            Err(e) => {
                proof { lemma_balance_error_sticks(rates.rates@, target@, das@, i + 1); }
                return Err(e);
            },
        };
        let s2 = match figure_sum(&start, &x, false) {
            Ok(f) => f,
            Err(e) => {
                proof { lemma_balance_error_sticks(rates.rates@, target@, das@, i + 1); }
                return Err(e);
            },
        };
        let c2 = match figure_sum(&current, &y, false) {
            Ok(f) => f,
            Err(e) => {
                proof { lemma_balance_error_sticks(rates.rates@, target@, das@, i + 1); }
                return Err(e);
            },
        };
        start = s2;
        current = c2;
        i = i + 1;
    }
    assert(das@.subrange(0, i as int) =~= das@);
    DisplayAccount::from_values(text("Overall Balance"), target.clone(), start, current)
}

proof fn lemma_balance_error_sticks(rates: Seq<(String, Figure)>, target: Seq<char>, all: Seq<DisplayAccount>, k: int)
    requires
        0 <= k <= all.len(),
        balance_totals(rates, target, account_rows(all.subrange(0, k))) is Err,
    ensures
        balance_totals(rates, target, account_rows(all)) == balance_totals(rates, target, account_rows(all.subrange(0, k))),
    decreases all.len(),
{
    if all.len() > k {
        let shorter = all.drop_last();
        assert(shorter.subrange(0, k) =~= all.subrange(0, k));
        assert(account_rows(all).drop_last() =~= account_rows(shorter));
        lemma_balance_error_sticks(rates, target, shorter, k);
    } else {
        assert(all.subrange(0, k) =~= all);
    }
}

/// The sum of the commits, and of those dated within `p`.
fn commit_sums(commits: &Vec<(Date, u32)>, p: &Period) -> (r: (u64, u64))
    requires
        committed_total(commits@) <= i64::MAX,
    ensures
        r.0 == committed_total(commits@),
        r.1 == committed_within(commits@, *p),
{
    let mut all: u64 = 0;
    let mut within: u64 = 0;
    let mut i: usize = 0;
    proof {
        lemma_committed_prefix_le(commits@, 0, *p);
    }
    while i < commits.len()
        invariant
            i <= commits@.len(),
            committed_total(commits@) <= i64::MAX,
            all == committed_total(commits@.subrange(0, i as int)),
            within == committed_within(commits@.subrange(0, i as int), *p),
            within <= all,
        decreases commits.len() - i,
    {
        let ghost prefix = commits@.subrange(0, i + 1);
        assert(prefix.drop_last() =~= commits@.subrange(0, i as int));
        assert(prefix.last() == commits@[i as int]);
        proof {
            lemma_committed_prefix_le(commits@, i + 1, *p);
        }
        all = all + commits[i].1 as u64;
        if p.contains(&commits[i].0) {
            within = within + commits[i].1 as u64;
        }
        i = i + 1;
    }
    assert(commits@.subrange(0, i as int) =~= commits@);
    (all, within)
}

proof fn lemma_committed_prefix_le(commits: Seq<(Date, u32)>, i: int, p: Period)
    requires
        0 <= i <= commits.len(),
    ensures
        0 <= committed_total(commits.subrange(0, i)) <= committed_total(commits),
        0 <= committed_within(commits.subrange(0, i), p) <= committed_total(commits.subrange(0, i)),
    decreases commits.len() - i,
{
    lemma_within_le(commits.subrange(0, i), p);
    if i < commits.len() {
        lemma_committed_prefix_le(commits, i + 1, p);
        assert(commits.subrange(0, i + 1).drop_last() =~= commits.subrange(0, i));
    } else {
        assert(commits.subrange(0, i) =~= commits);
    }
}

proof fn lemma_within_le(commits: Seq<(Date, u32)>, p: Period)
    ensures
        0 <= committed_within(commits, p) <= committed_total(commits),
    decreases commits.len(),
{
    if commits.len() > 0 {
        lemma_within_le(commits.drop_last(), p);
    }
}

/// The goal can be shown at `date` (see `GoalImplementation::to_pay_at`).
/// Its commits add up within an `i64` (a machine bound on the figures);
/// where `to_pay_at` adds them up, within a `u32`; and where it spreads
/// what remains, the configuration can count the periods left.
pub open spec fn goal_ready(g: GoalImplementation, config: AnyPeriodsConfiguration, date: Date) -> bool {
    &&& committed_total(g.commited@) <= i64::MAX
    &&& g.sums_commits(config, date) ==> committed_total(g.commited@) <= u32::MAX
    &&& g.spreads(config, date) && g.spec_remaining() is Ok
        ==> config.handles_span(date, g.target_date) && config.counts_forward(date, g.target_date)
}

/// The row of a goal of the given figures.
pub open spec fn goal_row_of(g: GoalImplementation, v: (int, int, int)) -> (Seq<char>, Figure, Figure, Figure, Option<Figure>) {
    (g.currency@, units(g.target as int), units(v.0), units(v.1), due_figure(v.2))
}

/// The goal as the screen shows it.
fn display_goal(g: &GoalImplementation, config: &AnyPeriodsConfiguration, p: &Period, date: &Date) -> (r: Result<DisplayGoal, String>)
    requires
        config.handles(*date),
        goal_ready(*g, *config, *date),
    ensures
        match goal_outcome(*g, *config, *p, *date) {
            Err(m) => r matches Err(e) && e@ == m,
            Ok(v) => r matches Ok(d) && d.wf() && d.name@ == g.name@
                && (d.currency@, d.target, d.committed, d.committed_this_period, d.to_commit_this_period) == goal_row_of(*g, v),
        },
{
    let due = g.to_pay_at(config, date)?;
    let (all, within) = commit_sums(&g.commited, p);
    let to_commit = if due == 0 { None } else { Some(Figure::from_int(due as i64)) };
    let d = DisplayGoal {
        name: g.name.clone(),
        committed: Figure::from_int(all as i64),
        committed_this_period: Figure::from_int(within as i64),
        to_commit_this_period: to_commit,
        target: Figure::from_int(g.target as i64),
        currency: g.currency.clone(),
    };
    proof {
        let v = goal_outcome(*g, *config, *p, *date)->Ok_0;
        assert(v.2 == due as int);
        assert(v.0 == all as int);
        assert(v.1 == within as int);
        lemma_within_le(g.commited@, *p);
        assert(d.committed == units(v.0));
        assert(d.committed_this_period == units(v.1));
        assert(d.to_commit_this_period == due_figure(v.2));
        assert(d.target == units(g.target as int));
    }
    Ok(d)
}

/// The goals as the screen shows them.
fn display_goals(goals: &Vec<GoalImplementation>, config: &AnyPeriodsConfiguration, p: &Period, date: &Date) -> (r: Result<Vec<DisplayGoal>, String>)
    requires
        config.handles(*date),
        forall|i: int| 0 <= i < goals@.len() ==> goal_ready(#[trigger] goals@[i], *config, *date),
    ensures
        match goals_outcome(goals@, *config, *p, *date) {
            Err(m) => r matches Err(e) && e@ == m,
            Ok(v) => r matches Ok(dgs) && dgs@.len() == v.len() && goal_rows(dgs@) == goal_rows_of(goals@, v)
                && forall|i: int| 0 <= i < v.len() ==> (#[trigger] dgs@[i]).wf() && dgs@[i].name@ == goals@[i].name@,
        },
{
    let mut dgs: Vec<DisplayGoal> = Vec::new();
    let ghost vals: Seq<(int, int, int)> = Seq::empty();
    let mut i: usize = 0;
    while i < goals.len()
        invariant
            i <= goals@.len(),
            config.handles(*date),
            forall|k: int| 0 <= k < goals@.len() ==> goal_ready(#[trigger] goals@[k], *config, *date),
            goals_outcome(goals@.subrange(0, i as int), *config, *p, *date) == Ok::<Seq<(int, int, int)>, Seq<char>>(vals),
            dgs@.len() == i,
            vals.len() == i,
            forall|k: int| 0 <= k < i ==> goal_rows(dgs@)[k] == #[trigger] goal_row_of(goals@[k], vals[k]),
            forall|k: int| 0 <= k < i ==> (#[trigger] dgs@[k]).wf() && dgs@[k].name@ == goals@[k].name@,
        decreases goals.len() - i,
    {
        let ghost prefix = goals@.subrange(0, i + 1);
        assert(prefix.drop_last() =~= goals@.subrange(0, i as int));
        assert(prefix.last() == goals@[i as int]);
        let d = match display_goal(&goals[i], config, p, date) {
            Ok(d) => d,
            Err(e) => {
                proof { lemma_goals_error_sticks(goals@, *config, *p, *date, i + 1); }
                return Err(e);
            },
        };
        let ghost v = goal_outcome(goals@[i as int], *config, *p, *date)->Ok_0;
        let ghost before = dgs@;
        dgs.push(d);
        proof {
            assert forall|k: int| 0 <= k < i + 1 implies goal_rows(dgs@)[k] == #[trigger] goal_row_of(goals@[k], vals.push(v)[k]) by {
                if k < i {
                    assert(dgs@[k] == before[k]);
                    assert(goal_rows(before)[k] == goal_row_of(goals@[k], vals[k]));
                }
            }
            vals = vals.push(v);
        }
        i = i + 1;
    }
    assert(goals@.subrange(0, i as int) =~= goals@);
    assert(goal_rows(dgs@) =~= goal_rows_of(goals@, vals));
    Ok(dgs)
}

proof fn lemma_goals_error_sticks(all: Seq<GoalImplementation>, config: AnyPeriodsConfiguration, p: Period, date: Date, k: int)
    requires
        0 <= k <= all.len(),
        goals_outcome(all.subrange(0, k), config, p, date) is Err,
    ensures
        goals_outcome(all, config, p, date) == goals_outcome(all.subrange(0, k), config, p, date),
    decreases all.len(),
{
    if all.len() > k {
        let shorter = all.drop_last();
        assert(shorter.subrange(0, k) =~= all.subrange(0, k));
        lemma_goals_error_sticks(shorter, config, p, date, k);
    } else {
        assert(all.subrange(0, k) =~= all);
    }
}

/// The overall goal of the shown goals, in the target currency.
fn overall_goal(rates: &LegacyRates, target: &String, dgs: &Vec<DisplayGoal>) -> (r: Result<DisplayGoal, String>)
    requires
        rates_wf(rates.rates@),
        forall|i: int| 0 <= i < dgs@.len() ==> (#[trigger] dgs@[i]).wf(),
    ensures
        match goal_totals(rates.rates@, target@, goal_rows(dgs@)) {
            Err(m) => r matches Err(e) && e@ == m,
            Ok(gs) => r matches Ok(g) && g.wf() && g.name@ == "Overall Goal"@ && g.currency@ == target@
                && g.target.cents() == gs.target && g.committed.cents() == gs.committed
                && g.committed_this_period.cents() == gs.committed_this_period
                && match gs.to_commit {
                    None => g.to_commit_this_period is None,
                    Some(z) => g.to_commit_this_period matches Some(f) && f.cents() == z,
                },
        },
{
    let zero = Figure::from_int(0);
    let mut goal_target = zero;
    let mut committed = zero;
    let mut this_period = zero;
    let mut to_commit: Option<Figure> = None;
    let mut i: usize = 0;
    while i < dgs.len()
        invariant
            i <= dgs@.len(),
            rates_wf(rates.rates@),
            forall|k: int| 0 <= k < dgs@.len() ==> (#[trigger] dgs@[k]).wf(),
            zero.mantissa == 0 && zero.scale == 0,
            goal_target.wf() && goal_target.scale <= 2,
            committed.wf() && committed.scale <= 2,
            this_period.wf() && this_period.scale <= 2,
            to_commit matches Some(f) ==> f.wf() && f.scale <= 2,
            goal_totals(rates.rates@, target@, goal_rows(dgs@.subrange(0, i as int))) matches Ok(gs)
                && gs.target == goal_target.cents() && gs.committed == committed.cents()
                && gs.committed_this_period == this_period.cents()
                && match gs.to_commit {
                    None => to_commit is None,
                    Some(z) => to_commit matches Some(f) && f.cents() == z,
                },
        decreases dgs.len() - i,
    {
        let ghost rows = goal_rows(dgs@.subrange(0, i + 1));
        assert(rows.drop_last() =~= goal_rows(dgs@.subrange(0, i as int)));
        let g = &dgs[i];
        assert(rows.last() == (g.currency@, g.target, g.committed, g.committed_this_period, g.to_commit_this_period));
        let cur = g.currency.as_str();
        let t = match rates.in_target(target.as_str(), &g.target, cur) {
            Ok(x) => x,
            Err(e) => { proof { lemma_goal_totals_error_sticks(rates.rates@, target@, dgs@, i + 1); } return Err(e); },
        };
        let c = match rates.in_target(target.as_str(), &g.committed, cur) {
            Ok(x) => x,
            Err(e) => { proof { lemma_goal_totals_error_sticks(rates.rates@, target@, dgs@, i + 1); } return Err(e); },
        };
        let p = match rates.in_target(target.as_str(), &g.committed_this_period, cur) {
            Ok(x) => x,
            Err(e) => { proof { lemma_goal_totals_error_sticks(rates.rates@, target@, dgs@, i + 1); } return Err(e); },
        };
        let tc: Option<Figure> = match &g.to_commit_this_period {
            None => None,
            Some(f) => match rates.in_target(target.as_str(), f, cur) {
                Ok(x) => Some(x),
                Err(e) => { proof { lemma_goal_totals_error_sticks(rates.rates@, target@, dgs@, i + 1); } return Err(e); },
            },
        };
        let new_target = match figure_sum(&goal_target, &t, false) {
            Ok(x) => x,
            Err(e) => { proof { lemma_goal_totals_error_sticks(rates.rates@, target@, dgs@, i + 1); } return Err(e); },
        };
        let new_committed = match figure_sum(&committed, &c, false) {
            Ok(x) => x,
            Err(e) => { proof { lemma_goal_totals_error_sticks(rates.rates@, target@, dgs@, i + 1); } return Err(e); },
        };
        let new_to_commit: Option<Figure> = match tc {
            None => to_commit,
            Some(x) => {
                let base = match to_commit { Some(y) => y, None => zero };
                match figure_sum(&base, &x, false) {
                    Ok(z) => Some(z),
                    Err(e) => { proof { lemma_goal_totals_error_sticks(rates.rates@, target@, dgs@, i + 1); } return Err(e); },
                }
            },
        };
        let new_this = match figure_sum(&this_period, &p, false) {
            Ok(x) => x,
            Err(e) => { proof { lemma_goal_totals_error_sticks(rates.rates@, target@, dgs@, i + 1); } return Err(e); },
        };
        goal_target = new_target;
        committed = new_committed;
        to_commit = new_to_commit;
        this_period = new_this;
        i = i + 1;
    }
    assert(dgs@.subrange(0, i as int) =~= dgs@);
    Ok(DisplayGoal {
        name: text("Overall Goal"),
        committed,
        committed_this_period: this_period,
        to_commit_this_period: to_commit,
        target: goal_target,
        currency: target.clone(),
    })
}

proof fn lemma_goal_totals_error_sticks(rates: Seq<(String, Figure)>, target: Seq<char>, all: Seq<DisplayGoal>, k: int)
    requires
        0 <= k <= all.len(),
        goal_totals(rates, target, goal_rows(all.subrange(0, k))) is Err,
    ensures
        goal_totals(rates, target, goal_rows(all)) == goal_totals(rates, target, goal_rows(all.subrange(0, k))),
    decreases all.len(),
{
    if all.len() > k {
        let shorter = all.drop_last();
        assert(shorter.subrange(0, k) =~= all.subrange(0, k));
        assert(goal_rows(all).drop_last() =~= goal_rows(shorter));
        lemma_goal_totals_error_sticks(rates, target, shorter, k);
    } else {
        assert(all.subrange(0, k) =~= all);
    }
}

/// The predicted income in the target currency, as a (mantissa, scale)
/// pair, converted where it is in another currency.
pub open spec fn predicted_outcome(rates: Seq<(String, Figure)>, target: Seq<char>, pi: Option<LegacyAmount>) -> Result<Option<(int, int)>, Seq<char>> {
    match pi {
        None => Ok(None),
        Some(a) => if a.currency@ != target {
            match spec_convert(rates, target, a.currency@, a.figure) {
                Err(m) => Err(m),
                Ok(x) => Ok(Some(x)),
            }
        } else {
            Ok(Some((a.figure.mantissa as int, a.figure.scale as int)))
        },
    }
}

/// The value of a figure: in hundredths where it has at most two decimals,
/// otherwise the figure itself.
pub enum FigureValue {
    Cents(int),
    Exact(Figure),
}

/// The value of `f` (see `FigureValue`).
pub open spec fn value_of(f: Figure) -> FigureValue {
    if f.scale <= 2 {
        FigureValue::Cents(f.cents())
    } else {
        FigureValue::Exact(f)
    }
}

/// What adding `d` hundredths to a figure of value `v` gives, as
/// `rust_decimal` adds a figure of at most two decimals, or nothing where
/// the sum cannot be held exactly. In hundredths the sum must stay in range;
/// to a figure with more decimals, a zero figure gives the added one, a
/// zero addend leaves the figure, and otherwise the addend is written at the
/// figure's scale and added to its mantissa.
pub open spec fn value_step(v: FigureValue, d: int) -> Option<FigureValue> {
    match v {
        FigureValue::Cents(x) => if in_decimal_range(x + d) { Some(FigureValue::Cents(x + d)) } else { None },
        FigureValue::Exact(f) => if f.mantissa == 0 {
            Some(FigureValue::Cents(d))
        } else if d == 0 {
            Some(FigureValue::Exact(f))
        } else {
            let y = d * pow10((f.scale - 2) as nat);
            if in_decimal_range(y) && in_decimal_range(f.mantissa + y) {
                Some(FigureValue::Exact(Figure { mantissa: (f.mantissa + y) as i128, scale: f.scale }))
            } else {
                None
            }
        },
    }
}

/// `cents_of(m, sc)` written at scale `s` is `m` written at scale `s`.
proof fn lemma_cents_rescaled(m: int, sc: u32, s: u32)
    requires
        sc <= 2 < s,
    ensures
        cents_of(m, sc) * pow10((s - 2) as nat) == m * pow10((s - sc) as nat),
{
    crate::amounts::lemma_pow10_add((2 - sc) as nat, (s - 2) as nat);
    reveal_with_fuel(pow10, 3);
    let p = pow10((s - 2) as nat);
    assert(((2 - sc) + (s - 2)) as nat == (s - sc) as nat);
    if sc == 0 {
        assert(m * 100 * p == m * (100 * p)) by (nonlinear_arith);
    } else if sc == 1 {
        assert(m * 10 * p == m * (10 * p)) by (nonlinear_arith);
    } else {
        assert(m * p == m * (1 * p));
    }
}

/// Powers of ten up to `10^26` grow with the exponent.
proof fn lemma_pow10_up_to_26(i: nat)
    requires
        i <= 26,
    ensures
        1 <= pow10(i) <= 100_000_000_000_000_000_000_000_000,
{
    reveal_with_fuel(pow10, 27);
    assert(pow10(26) == 100_000_000_000_000_000_000_000_000);
    crate::amounts::lemma_pow10_add(i, (26 - i) as nat);
    crate::amounts::lemma_pow10_add((26 - i) as nat, 0);
    let a = pow10(i);
    let b = pow10((26 - i) as nat);
    assert(a <= a * b) by (nonlinear_arith) requires a >= 1, b >= 1;
}

/// `10^k` for `k` up to 26.
fn pow10_small(k: u32) -> (r: i128)
    requires
        k <= 26,
    ensures
        r == pow10(k as nat),
        1 <= r <= 100_000_000_000_000_000_000_000_000,
{
    let mut r: i128 = 1;
    let mut i: u32 = 0;
    while i < k
        invariant
            i <= k <= 26,
            r == pow10(i as nat),
        decreases k - i,
    {
        proof {
            lemma_pow10_up_to_26((i + 1) as nat);
            assert(pow10((i + 1) as nat) == 10 * pow10(i as nat));
        }
        r = r * 10;
        i = i + 1;
    }
    proof {
        lemma_pow10_up_to_26(k as nat);
    }
    r
}

/// The sum (or, with `subtract`, the difference) of a figure of any scale
/// and one of at most two decimals, as `rust_decimal` computes it, where
/// it is exact (see `value_step`).
fn figure_step(a: &Figure, b: &Figure, subtract: bool) -> (r: Result<Figure, String>)
    requires
        a.wf(),
        b.wf(),
        b.scale <= 2,
    ensures
        match value_step(value_of(*a), if subtract { -b.cents() } else { b.cents() }) {
            None => r matches Err(e) && e@ == "Amount overflow"@,
            Some(v) => r matches Ok(f) && f.wf() && value_of(f) == v,
        },
{
    if a.scale <= 2 {
        let f = figure_sum(a, b, subtract)?;
        return Ok(f);
    }
    let addend = if subtract { b.negated() } else { *b };
    let d = addend.in_cents();
    if a.mantissa != 0 && d != 0 {
        let p = pow10_small(a.scale - 2);
        let q = (crate::amounts::DECIMAL_LIMIT - 1) / p;
        proof {
            let qq = q as int;
            let pp = p as int;
            let lim = decimal_limit() - 1;
            assert(qq == lim / pp);
            assert(qq * pp <= lim < (qq + 1) * pp) by (nonlinear_arith)
                requires qq == lim / pp, pp >= 1;
        }
        if d > q || d < -q {
            proof {
                let dd = d as int;
                let pp = p as int;
                let qq = q as int;
                assert(pp == pow10((a.scale - 2) as nat));
                assert(dd == (if subtract { -b.cents() } else { b.cents() }));
                if dd > qq {
                    assert(dd * pp >= (qq + 1) * pp) by (nonlinear_arith) requires dd >= qq + 1, pp >= 1;
                } else {
                    assert(dd * pp <= -((qq + 1) * pp)) by (nonlinear_arith) requires dd <= -(qq + 1), pp >= 1;
                }
                assert(!in_decimal_range(dd * pp));
            }
            return Err(text("Amount overflow"));
        }
        proof {
            let dd = d as int;
            assert(-(q * p) <= dd * p <= q * p) by (nonlinear_arith) requires -q <= dd <= q, p >= 1;
        }
        let y = d * p;
        let total = a.mantissa + y;
        if total <= -crate::amounts::DECIMAL_LIMIT || total >= crate::amounts::DECIMAL_LIMIT {
            return Err(text("Amount overflow"));
        }
        proof {
            lemma_cents_rescaled(addend.mantissa as int, addend.scale, a.scale);
            crate::amounts::lemma_pow10_add(0, 0);
            assert(pow10(0) == 1);
            assert((a.scale - a.scale) as nat == 0nat);
            assert(a.mantissa * pow10(0) == a.mantissa);
            assert(crate::amounts::rescaled(*a, a.scale) == a.mantissa);
            assert(crate::amounts::rescaled(addend, a.scale) == y);
        }
    }
    match a.plus(&addend) {
        Some(f) => Ok(f),
        None => Err(text("Amount overflow")),
    }
}

/// The figures that both screens share, in hundredths of the target
/// currency where they are totals: the period, each account's balances,
/// their totals, each goal and the goals' totals, and the predicted income
/// in the target currency as a (mantissa, scale) pair.
pub struct LegacyInputs {
    pub period: Period,
    pub balances: Seq<(int, int)>,
    pub overall: (int, int),
    pub goals: Seq<(int, int, int)>,
    pub goal_sums: GoalSums,
    pub predicted: Option<(int, int)>,
}

/// The shared figures, or the first error: the period of the date; each
/// account's balance at the period's start and at the date; their total in
/// the target currency (whose change must be held); each goal and their
/// total; the predicted income.
pub open spec fn legacy_inputs(op: RemainingOperation) -> Result<LegacyInputs, Seq<char>> {
    let rates = op.rates.rates@;
    let target = op.target_currency@;
    match op.periods_configuration.spec_period_for_date(op.date) {
        Err(m) => Err("Failed to fetch Periods Configuration: "@ + m),
        Ok(p) => match query_outcome(op.raw_accounts@, p, op.date) {
            Err(m) => Err(m),
            Ok(figs) => match balance_totals(rates, target, account_rows_of(op.raw_accounts@, figs)) {
                Err(m) => Err(m),
                Ok((s, c)) => if !in_decimal_range(c - s) {
                    Err("Amount overflow"@)
                } else {
                    match goals_outcome(op.goals@, op.periods_configuration, p, op.date) {
                        Err(m) => Err(m),
                        Ok(gv) => match goal_totals(rates, target, goal_rows_of(op.goals@, gv)) {
                            Err(m) => Err(m),
                            Ok(gs) => match predicted_outcome(rates, target, op.predicted_income) {
                                Err(m) => Err(m),
                                Ok(pred) => Ok(LegacyInputs { period: p, balances: figs, overall: (s, c), goals: gv, goal_sums: gs, predicted: pred }),
                            },
                        },
                    }
                },
            },
        },
    }
}

/// The value of the predicted income, zero where there is none.
pub open spec fn predicted_value(pred: Option<(int, int)>) -> FigureValue {
    match pred {
        None => FigureValue::Cents(0),
        Some((m, sc)) => value_of(Figure { mantissa: m as i128, scale: sc as u32 }),
    }
}

/// What is still to commit this period, in hundredths.
pub open spec fn due_cents(gs: GoalSums) -> int {
    match gs.to_commit { None => 0, Some(z) => z }
}

/// The figures of the legacy screen: the shared ones, what remains and
/// what is not committed.
pub struct LegacyFigures {
    pub inputs: LegacyInputs,
    pub remaining: FigureValue,
    pub uncommitted: int,
}

/// What the legacy screen shows, or the first error: the shared figures;
/// what remains (the predicted income plus the change of the overall
/// balance, minus what was committed to goals this period and what is still
/// to commit this period); and what the accounts hold beyond the goals'
/// commits.
pub open spec fn legacy_outcome(op: RemainingOperation) -> Result<LegacyFigures, Seq<char>> {
    match legacy_inputs(op) {
        Err(m) => Err(m),
        Ok(i) => {
            let (s, c) = i.overall;
            match value_step(predicted_value(i.predicted), c - s) {
                None => Err("Amount overflow"@),
                Some(r1) => match value_step(r1, -i.goal_sums.committed_this_period) {
                    None => Err("Amount overflow"@),
                    Some(r2) => match value_step(r2, -due_cents(i.goal_sums)) {
                        None => Err("Amount overflow"@),
                        Some(r3) => if !in_decimal_range(c - i.goal_sums.committed) {
                            Err("Amount overflow"@)
                        } else {
                            Ok(LegacyFigures { inputs: i, remaining: r3, uncommitted: c - i.goal_sums.committed })
                        },
                    },
                },
            }
        },
    }
}

/// What the screen that counts from the current balance shows, or the
/// first error: the shared figures, and what remains (the current overall
/// balance plus the predicted income, minus what is still to commit this
/// period).
pub open spec fn current_balance_outcome(op: RemainingOperation) -> Result<(LegacyInputs, FigureValue), Seq<char>> {
    match legacy_inputs(op) {
        Err(m) => Err(m),
        Ok(i) => match value_step(predicted_value(i.predicted), i.overall.1) {
            None => Err("Amount overflow"@),
            Some(r1) => match value_step(r1, -due_cents(i.goal_sums)) {
                None => Err("Amount overflow"@),
                Some(r2) => Ok((i, r2)),
            },
        },
    }
}

/// The shared parts of the screens: the period, the balances, the goals
/// and the predicted income.
pub struct LegacyParts {
    pub current_period: Period,
    pub overall_balance: DisplayAccount,
    pub individual_balances: Vec<DisplayAccount>,
    pub predicted_income: Option<LegacyAmount>,
    pub overall_goal: DisplayGoal,
    pub goals: Vec<DisplayGoal>,
}

/// The parts show the shared figures `f` of operation `op`.
pub open spec fn parts_hold(s: LegacyParts, op: RemainingOperation, f: LegacyInputs) -> bool {
    let target = op.target_currency@;
    &&& s.current_period == f.period
    &&& s.individual_balances@.len() == f.balances.len()
    &&& forall|i: int| 0 <= i < f.balances.len() ==> {
        let a = #[trigger] s.individual_balances@[i];
        &&& a.name@ == op.raw_accounts@[i].name@
        &&& a.currency@ == op.raw_accounts@[i].currency@
        &&& a.period_start_balance == units(f.balances[i].0)
        &&& a.current_balance == units(f.balances[i].1)
        &&& a.difference.cents() == (f.balances[i].1 - f.balances[i].0) * 100
    }
    &&& s.overall_balance.name@ == "Overall Balance"@ && s.overall_balance.currency@ == target
    &&& s.overall_balance.period_start_balance.cents() == f.overall.0
    &&& s.overall_balance.current_balance.cents() == f.overall.1
    &&& s.overall_balance.difference.cents() == f.overall.1 - f.overall.0
    &&& s.goals@.len() == f.goals.len() && goal_rows(s.goals@) == goal_rows_of(op.goals@, f.goals)
    &&& forall|i: int| 0 <= i < f.goals.len() ==> (#[trigger] s.goals@[i]).name@ == op.goals@[i].name@
    &&& s.overall_goal.name@ == "Overall Goal"@ && s.overall_goal.currency@ == target
    &&& s.overall_goal.target.cents() == f.goal_sums.target
    &&& s.overall_goal.committed.cents() == f.goal_sums.committed
    &&& s.overall_goal.committed_this_period.cents() == f.goal_sums.committed_this_period
    &&& match f.goal_sums.to_commit {
        None => s.overall_goal.to_commit_this_period is None,
        Some(z) => s.overall_goal.to_commit_this_period matches Some(x) && x.cents() == z,
    }
    &&& match f.predicted {
        None => s.predicted_income is None,
        Some((m, sc)) => s.predicted_income matches Some(a) && a.currency@ == target && a.figure.mantissa == m && a.figure.scale == sc,
    }
}

/// The screen shows the figures `f` of operation `op`.
pub open spec fn screen_holds(s: RemainingMoneyScreen, op: RemainingOperation, f: LegacyFigures) -> bool {
    let target = op.target_currency@;
    &&& parts_hold((LegacyParts {
        current_period: s.current_period,
        overall_balance: s.overall_balance,
        individual_balances: s.individual_balances,
        predicted_income: s.predicted_income,
        overall_goal: s.overall_goal,
        goals: s.goals,
    }), op, f.inputs)
    &&& s.remaining.currency@ == target && value_of(s.remaining.figure) == f.remaining
    &&& s.uncommitted.currency@ == target && s.uncommitted.figure.cents() == f.uncommitted
    &&& s.overcommitted == (f.uncommitted < 0)
}

/// The parts that both screens share (see `legacy_inputs`).
fn legacy_parts(operation: &RemainingOperation) -> (r: Result<LegacyParts, String>)
    requires
        operation.ready(),
    ensures
        match legacy_inputs(*operation) {
            Err(m) => r matches Err(e) && e@ == m,
            Ok(i) => r matches Ok(p) && parts_hold(p, *operation, i) && p.overall_balance.wf() && p.overall_goal.wf()
                && (p.predicted_income matches Some(a) ==> a.figure.wf()),
        },
{
    let target = &operation.target_currency;
    let current_period = match operation.periods_configuration.period_for_date(&operation.date) {
        Ok(p) => p,
        Err(e) => {
            return Err(join2("Failed to fetch Periods Configuration: ", e.as_str()));
        },
    };
    let accounts = query_accounts(&operation.raw_accounts, &current_period, &operation.date)?;
    let ghost figs = query_outcome(operation.raw_accounts@, current_period, operation.date)->Ok_0;
    assert(account_rows(accounts@) =~= account_rows_of(operation.raw_accounts@, figs));
    let overall_balance = overall_balance(&operation.rates, target, &accounts)?;
    proof {
        assert forall|i: int| 0 <= i < operation.goals@.len() implies goal_ready(#[trigger] operation.goals@[i], operation.periods_configuration, operation.date) by {
            let g = operation.goals@[i];
        }
    }
    let goals = display_goals(&operation.goals, &operation.periods_configuration, &current_period, &operation.date)?;
    let overall_goal = overall_goal(&operation.rates, target, &goals)?;
    let predicted_income: Option<LegacyAmount> = match &operation.predicted_income {
        None => None,
        Some(pi) => {
            if !same_text(pi.currency.as_str(), target.as_str()) {
                let figure = operation.rates.convert(target.as_str(), &pi.figure, pi.currency.as_str())?;
                Some(LegacyAmount { currency: target.clone(), figure })
            } else {
                Some(LegacyAmount { currency: target.clone(), figure: pi.figure })
            }
        },
    };
    Ok(LegacyParts { current_period, overall_balance, individual_balances: accounts, predicted_income, overall_goal, goals })
}

/// The legacy "remaining money" screen of the operation (see
/// `legacy_outcome`).
pub fn compute_legacy_remaining_screen(operation: &RemainingOperation) -> (r: Result<RemainingMoneyScreen, String>)
    requires
        operation.ready(),
    ensures
        match legacy_outcome(*operation) {
            Err(m) => r matches Err(e) && e@ == m,
            Ok(f) => r matches Ok(s) && screen_holds(s, *operation, f),
        },
{
    let target = &operation.target_currency;
    let parts = legacy_parts(operation)?;
    let zero = Figure::from_int(0);
    let predicted_figure = match &parts.predicted_income {
        Some(a) => a.figure,
        None => zero,
    };
    let due = match parts.overall_goal.to_commit_this_period {
        Some(f) => f,
        None => zero,
    };
    let r1 = figure_step(&predicted_figure, &parts.overall_balance.difference, false)?;
    let r2 = figure_step(&r1, &parts.overall_goal.committed_this_period, true)?;
    let r3 = figure_step(&r2, &due, true)?;
    let uncommitted = figure_sum(&parts.overall_balance.current_balance, &parts.overall_goal.committed, true)?;
    let overcommitted = uncommitted.mantissa < 0;
    Ok(RemainingMoneyScreen {
        current_period: parts.current_period,
        overall_balance: parts.overall_balance,
        individual_balances: parts.individual_balances,
        predicted_income: parts.predicted_income,
        overall_goal: parts.overall_goal,
        goals: parts.goals,
        uncommitted: LegacyAmount { currency: target.clone(), figure: uncommitted },
        overcommitted,
        remaining: LegacyAmount { currency: target.clone(), figure: r3 },
    })
}

/// The screen that counts what remains from the current balance: the
/// shared parts, and what remains in the target currency.
#[derive(Debug)]
pub struct CurrentBalanceScreen {
    pub period_start: Date,
    pub overall_balance: DisplayAccount,
    pub individual_balances: Vec<DisplayAccount>,
    pub predicted_income: Option<LegacyAmount>,
    pub overall_goal: DisplayGoal,
    pub goals: Vec<DisplayGoal>,
    pub remaining: Figure,
    pub currency: String,
}

/// What the legacy operation outputs: its screen.
#[derive(Debug)]
pub struct RemainingOperationOutput {
    pub legacy_money_screen: RemainingMoneyScreen,
}

impl RemainingOperation {
    /// Computes the legacy screen (see `compute_legacy_remaining_screen`).
    pub fn execute(self) -> (r: Result<RemainingOperationOutput, String>)
        requires
            self.ready(),
        ensures
            match legacy_outcome(self) {
                Err(m) => r matches Err(e) && e@ == m,
                Ok(f) => r matches Ok(o) && screen_holds(o.legacy_money_screen, self, f),
            },
    {
        let legacy_money_screen = compute_legacy_remaining_screen(&self)?;
        Ok(RemainingOperationOutput { legacy_money_screen })
    }

    /// Computes the screen that counts what remains from the current
    /// balance: the current overall balance plus the predicted income, minus
    /// what is still to commit this period (see `current_balance_outcome`).
    pub fn execute_current_balance(self) -> (r: Result<CurrentBalanceScreen, String>)
        requires
            self.ready(),
        ensures
            match current_balance_outcome(self) {
                Err(m) => r matches Err(e) && e@ == m,
                Ok((i, v)) => r matches Ok(s) && s.currency@ == self.target_currency@
                    && s.period_start == i.period.start_date
                    && parts_hold((LegacyParts {
                        current_period: i.period,
                        overall_balance: s.overall_balance,
                        individual_balances: s.individual_balances,
                        predicted_income: s.predicted_income,
                        overall_goal: s.overall_goal,
                        goals: s.goals,
                    }), self, i)
                    && value_of(s.remaining) == v,
            },
    {
        let parts = legacy_parts(&self)?;
        let zero = Figure::from_int(0);
        let predicted_figure = match &parts.predicted_income {
            Some(a) => a.figure,
            None => zero,
        };
        let due = match parts.overall_goal.to_commit_this_period {
            Some(f) => f,
            None => zero,
        };
        let r1 = figure_step(&predicted_figure, &parts.overall_balance.current_balance, false)?;
        let remaining = figure_step(&r1, &due, true)?;
        Ok(CurrentBalanceScreen {
            period_start: parts.current_period.start_date,
            overall_balance: parts.overall_balance,
            individual_balances: parts.individual_balances,
            predicted_income: parts.predicted_income,
            overall_goal: parts.overall_goal,
            goals: parts.goals,
            remaining,
            currency: self.target_currency,
        })
    }
}

} // verus!
