//! Predicted transactions: recurring payments expected once per period from
//! a starting period (until an optional last one), and the payments made
//! for them.
use vstd::prelude::*;
use crate::amounts::{Amount, ExchangeRates, Figure, RawAmount};
use crate::date::Date;
use crate::operand::Operand;
use crate::amounts::{spec_round_dp2, cents_of};
use crate::chrono_stack::{ChronoStack, chronology_error, dated_before, dated_within};
use crate::period::{Period, PeriodConfigurationVaultValue, ErrorPeriodsBetween, month_index, month_of_index, period_id, month_period_result};
use crate::date::MAX_YEAR;
use crate::text::{text, join2, join3, chars_of, string_of, sub_chars, error_is};
use crate::line::{LineWithDateVisitor, RestVisitor};
use crate::remaining_operation::{GroupBuilder, OperandBuilder};
use crate::period::{CalendarMonthPeriodConfiguration, period_from_id_spec};

verus! {

broadcast use {vstd::seq_lib::group_to_multiset_ensures, vstd::multiset::group_multiset_axioms};

/// A payment: the date it was made on, and the period it pays for.
#[derive(Debug)]
pub struct Payment(pub (Date, Period));

/// Reads the period identifier that follows the date of a payment line.
pub struct PeriodIdVisitor;

/// What the text after the date of a payment line reads as: its first
/// character (the space after the date) is dropped and the rest read as a
/// calendar month identifier `YYYY-MM`.
pub open spec fn period_id_visited(rest: Seq<char>, r: Result<Period, String>) -> bool {
    if rest.len() < 2 {
        error_is(r, "invalid period id: missing space after date"@)
    } else {
        match period_from_id_spec(rest.skip(1)) {
            Ok(p) => r == Ok::<Period, String>(p),
            Err(m) => error_is(r, "invalid period id: "@ + m),
        }
    }
}

impl RestVisitor for PeriodIdVisitor {
    type Value = Period;

    open spec fn visited(&self, rest: Seq<char>, r: Result<Period, String>) -> bool {
        period_id_visited(rest, r)
    }

    open spec fn expected(&self) -> Seq<char> {
        "a period id"@
    }

    fn expecting(&self) -> (r: String) {
        text("a period id")
    }

    fn visit_str(&self, rest: &str) -> (r: Result<Period, String>) {
        let chars = chars_of(rest);
        if chars.len() < 2 {
            return Err(text("invalid period id: missing space after date"));
        }
        let id = string_of(&sub_chars(&chars, 1, chars.len()));
        assert(id@ =~= rest@.skip(1));
        match CalendarMonthPeriodConfiguration::period_from_id(id.as_str()) {
            Ok(p) => Ok(p),
            Err(e) => Err(join2("invalid period id: ", e.as_str())),
        }
    }
}

/// What a payment line reads as (see `LineWithDateVisitor::visited` and
/// `period_id_visited`).
pub open spec fn payment_read(v: Seq<char>, r: Result<Payment, String>) -> bool {
    let visitor = LineWithDateVisitor { other_visitor: PeriodIdVisitor };
    match r {
        Ok(p) => visitor.visited(v, Ok(p.0)) && p.0.0.wf(),
        Err(e) => visitor.visited(v, Err(e)),
    }
}

impl Payment {
    /// Reads a payment line: the date it was made on (`%Y/%m/%d`), a space,
    /// and the identifier of the period it pays for.
    pub fn parse(v: &str) -> (r: Result<Payment, String>)
        ensures
            payment_read(v@, r),
    {
        let visitor = LineWithDateVisitor::new(PeriodIdVisitor);
        match visitor.visit_str(v) {
            Ok(p) => Ok(Payment(p)),
            Err(e) => Err(e),
        }
    }
}

/// What a template expects: an amount per period, from `starts_on`, until
/// `until` if given.
#[derive(Debug)]
pub struct Target {
    pub amount: RawAmount,
    pub starts_on: Period,
    pub until: Option<Period>,
}

/// A recurring transaction and the payments made for it.
#[derive(Debug)]
pub struct PredictedTransactionTemplate {
    pub name: String,
    pub target: Target,
    pub actual_transactions: Vec<Payment>,
}

/// A transaction expected in a period: its name and its amount.
#[derive(Debug)]
pub struct PredictedTransaction {
    pub name: String,
    pub amount: Amount,
}

/// The periods are in order: none comes before one that precedes it.
pub open spec fn sorted_by_period<T>(s: Seq<(Period, T)>) -> bool {
    forall|i: int, j: int| 0 <= i < j < s.len() ==> !(#[trigger] s[j]).0.spec_precedes((#[trigger] s[i]).0)
}

proof fn lemma_insert_multiset<T>(s: Seq<T>, i: int, a: T)
    requires
        0 <= i <= s.len(),
    ensures
        s.insert(i, a).to_multiset() == s.to_multiset().insert(a),
{
    let t = s.insert(i, a);
    assert(t.remove(i) =~= s);
    assert(t[i] == a);
    assert(t.to_multiset().remove(a) == s.to_multiset());
    assert(t.to_multiset().count(a) > 0);
    assert(t.to_multiset() =~= s.to_multiset().insert(a));
}

/// The items sorted by period (the start date, then the end date).
pub fn sort_by_period<T>(items: Vec<(Period, T)>) -> (r: Vec<(Period, T)>)
    ensures
        r@.to_multiset() == items@.to_multiset(),
        sorted_by_period(r@),
{
    let ghost all = items@;
    let mut rest = items;
    let mut r: Vec<(Period, T)> = Vec::new();
    while rest.len() > 0
        invariant
            r@.to_multiset().add(rest@.to_multiset()) == all.to_multiset(),
            sorted_by_period(r@),
        decreases rest@.len(),
    {
        let ghost before_rest = rest@;
        let x = rest.pop().unwrap();
        proof {
            assert(before_rest =~= rest@.push(x));
        }
        let mut pos: usize = 0;
        while pos < r.len() && !x.0.precedes(&r[pos].0)
            invariant
                pos <= r@.len(),
                forall|k: int| 0 <= k < pos ==> !x.0.spec_precedes(#[trigger] r@[k].0),
            decreases r@.len() - pos,
        {
            pos = pos + 1;
        }
        let ghost before = r@;
        r.insert(pos, x);
        proof {
            lemma_insert_multiset(before, pos as int, x);
            assert forall|i: int, j: int| 0 <= i < j < r@.len() implies !(#[trigger] r@[j]).0.spec_precedes((#[trigger] r@[i]).0) by {
                if j < pos {
                    assert(r@[i] == before[i] && r@[j] == before[j]);
                } else if j == pos {
                    assert(r@[i] == before[i]);
                } else if i == pos {
                    assert(r@[j] == before[j - 1]);
                    assert(x.0.spec_precedes(before[pos as int].0));
                    if j - 1 > pos {
                        assert(!before[j - 1].0.spec_precedes(before[pos as int].0));
                    }
                } else if i < pos {
                    assert(r@[i] == before[i] && r@[j] == before[j - 1]);
                } else {
                    assert(r@[i] == before[i - 1] && r@[j] == before[j - 1]);
                }
            }
        }
    }
    r
}

/// The distinct periods of `s`, in the order they first come.
pub open spec fn distinct_periods(s: Seq<Period>) -> Seq<Period>
    decreases s.len(),
{
    if s.len() == 0 {
        Seq::empty()
    } else {
        let d = distinct_periods(s.drop_last());
        if d.contains(s.last()) { d } else { d.push(s.last()) }
    }
}

/// The last period a target expects a payment for by `current`: the
/// earlier of its last period (if any) and `current`.
pub open spec fn last_expected(until: Option<Period>, current: Period) -> Period {
    match until {
        Some(u) => if current.spec_precedes(u) { current } else { u },
        None => current,
    }
}

/// The periods and amounts to show: each expected period (from the
/// target's first period to `last_expected`) that was not paid, with the
/// target's amount; each period paid within the current period until
/// today, and the current period if it was paid before it started, with
/// zero.
pub open spec fn display_items(target: Target, current: Period, before: Seq<Period>, during: Seq<Period>) -> Result<Seq<(Period, Seq<char>, Figure)>, Seq<char>> {
    let last = last_expected(target.until, current);
    let k0 = month_index(target.starts_on.start_date);
    let k1 = month_index(last.start_date);
    if k1 < k0 {
        Err("End date is before start date"@)
    } else {
        let expected = Seq::new((k1 - k0 + 1) as nat, |i: int| month_of_index(k0 + i));
        let unpaid = expected.filter(|p: Period| !before.contains(p) && !during.contains(p));
        let paid = distinct_periods(during) + (if before.contains(current) { seq![current] } else { Seq::empty() });
        Ok(unpaid.map_values(|p: Period| (p, target.amount.currency@, target.amount.figure))
            + paid.map_values(|p: Period| (p, "JPY"@, Figure { mantissa: 0, scale: 0 })))
    }
}

/// The view of items: the period, the currency and the figure.
pub open spec fn item_view(s: Seq<(Period, RawAmount)>) -> Seq<(Period, Seq<char>, Figure)> {
    s.map_values(|x: (Period, RawAmount)| (x.0, x.1.currency@, x.1.figure))
}

/// The periods of the target can be counted in calendar months.
pub open spec fn target_readable(target: Target) -> bool {
    &&& target.starts_on.start_date.wf()
    &&& target.until matches Some(u) ==> u.start_date.wf() && !(u.start_date.year == MAX_YEAR && u.start_date.month == 12)
    &&& target.amount.figure.wf()
}

/// The periods of the target can be counted in calendar months up to
/// `current`.
pub open spec fn target_countable(target: Target, current: Period) -> bool {
    &&& target_readable(target)
    &&& current.start_date.wf()
    &&& !(current.start_date.year == MAX_YEAR && current.start_date.month == 12)
}

proof fn lemma_view_multiset(s: Seq<(Period, RawAmount)>, t: Seq<(Period, RawAmount)>)
    requires
        s.to_multiset() == t.to_multiset(),
    ensures
        item_view(s).to_multiset() == item_view(t).to_multiset(),
    decreases s.len(),
{
    if s.len() == 0 {
        assert(t.to_multiset().len() == 0);
        assert(t.len() == 0);
        assert(item_view(s) =~= Seq::<(Period, Seq<char>, Figure)>::empty());
        assert(item_view(t) =~= Seq::<(Period, Seq<char>, Figure)>::empty());
    } else {
        let x = s.last();
        assert(s =~= s.drop_last().push(x));
        assert(s.to_multiset() == s.drop_last().to_multiset().insert(x));
        assert(t.to_multiset().count(x) > 0);
        assert(t.contains(x));
        let k = choose|k: int| 0 <= k < t.len() && t[k] == x;
        assert(t.remove(k).to_multiset() == t.to_multiset().remove(x));
        assert(s.drop_last().to_multiset() =~= t.remove(k).to_multiset());
        lemma_view_multiset(s.drop_last(), t.remove(k));
        let f = |y: (Period, RawAmount)| (y.0, y.1.currency@, y.1.figure);
        assert(item_view(s) =~= item_view(s.drop_last()).push(f(x)));
        assert(item_view(t.remove(k)) =~= item_view(t).remove(k));
        assert(item_view(t)[k] == f(x));
        assert(item_view(t).remove(k).to_multiset() == item_view(t).to_multiset().remove(f(x)));
        assert(item_view(t).to_multiset().count(f(x)) > 0) by {
            assert(item_view(t).contains(f(x)));
        }
        assert(item_view(t).to_multiset() =~= item_view(t).remove(k).to_multiset().insert(f(x)));
    }
}


/// Whether `p` is among `v`.
fn contains_period(v: &Vec<Period>, p: &Period) -> (r: bool)
    ensures
        r == v@.contains(*p),
{
    let mut i: usize = 0;
    while i < v.len()
        invariant
            i <= v@.len(),
            forall|k: int| 0 <= k < i ==> v@[k] != *p,
        decreases v.len() - i,
    {
        if v[i].same_as(p) {
            assert(v@[i as int] == *p);
            return true;
        }
        i = i + 1;
    }
    false
}

/// The distinct periods of `v`, in the order they first come.
fn distinct(v: &Vec<Period>) -> (r: Vec<Period>)
    ensures
        r@ == distinct_periods(v@),
{
    let mut r: Vec<Period> = Vec::new();
    let mut i: usize = 0;
    while i < v.len()
        invariant
            i <= v@.len(),
            r@ == distinct_periods(v@.subrange(0, i as int)),
        decreases v.len() - i,
    {
        let ghost prefix = v@.subrange(0, i + 1);
        assert(prefix.drop_last() =~= v@.subrange(0, i as int));
        assert(prefix.last() == v@[i as int]);
        if !contains_period(&r, &v[i]) {
            r.push(v[i]);
        }
        i = i + 1;
    }
    assert(v@.subrange(0, i as int) =~= v@);
    r
}

impl PredictedTransactionTemplate {
    /// Which periods to show, with their amounts, sorted by period (see
    /// `display_items`).
    pub fn decide_which_predicted_transactions_to_display(period_configuration: &PeriodConfigurationVaultValue, target: &Target, current_period: &Period,
        paid_for_before_period: Vec<Period>, paid_for_in_period_until_date: Vec<Period>) -> (r: Result<Vec<(Period, RawAmount)>, String>)
        requires
            target_countable(*target, *current_period),
        ensures
            match display_items(*target, *current_period, paid_for_before_period@, paid_for_in_period_until_date@) {
                Err(m) => r matches Err(e) && e@ == m,
                Ok(items) => r matches Ok(v) && item_view(v@).to_multiset() == items.to_multiset() && sorted_by_period(v@),
            },
    {
        let last_period = match &target.until {
            Some(u) => if current_period.precedes(u) { *current_period } else { *u },
            None => *current_period,
        };
        let expected = match period_configuration.periods_between(&target.starts_on, &last_period) {
            Ok(v) => v,
            Err(e) => {
                return Err(e.into_message());
            },
        };
        let ghost k0 = month_index(target.starts_on.start_date);
        let ghost exp = Seq::new(expected@.len(), |i: int| month_of_index(k0 + i));
        assert(expected@ =~= exp);
        let mut items: Vec<(Period, RawAmount)> = Vec::new();
        let mut i: usize = 0;
        proof {
            reveal(Seq::filter);
            assert(expected@.subrange(0, 0) =~= Seq::<Period>::empty());
        }
        while i < expected.len()
            invariant
                i <= expected@.len(),
                item_view(items@) == expected@.subrange(0, i as int).filter(|p: Period| !paid_for_before_period@.contains(p) && !paid_for_in_period_until_date@.contains(p))
                    .map_values(|p: Period| (p, target.amount.currency@, target.amount.figure)),
            decreases expected.len() - i,
        {
            let p = expected[i];
            let ghost prefix = expected@.subrange(0, i as int);
            assert(expected@.subrange(0, i + 1) =~= prefix.push(p));
            proof {
                prefix.lemma_filter_push(p, |q: Period| !paid_for_before_period@.contains(q) && !paid_for_in_period_until_date@.contains(q));
            }
            let paid_before = contains_period(&paid_for_before_period, &p);
            let paid_during = contains_period(&paid_for_in_period_until_date, &p);
            if !paid_before && !paid_during {
                let ghost before = items@;
                items.push((p, target.amount.duplicate()));
                proof {
                    assert(item_view(items@) =~= item_view(before).push((p, target.amount.currency@, target.amount.figure)));
                    let f = prefix.filter(|q: Period| !paid_for_before_period@.contains(q) && !paid_for_in_period_until_date@.contains(q));
                    assert(f.push(p).map_values(|q: Period| (q, target.amount.currency@, target.amount.figure))
                        =~= f.map_values(|q: Period| (q, target.amount.currency@, target.amount.figure)).push((p, target.amount.currency@, target.amount.figure)));
                }
            }
            i = i + 1;
        }
        assert(expected@.subrange(0, i as int) =~= expected@);
        let ghost unpaid_view = item_view(items@);
        let paid = distinct(&paid_for_in_period_until_date);
        let mut j: usize = 0;
        while j < paid.len()
            invariant
                j <= paid@.len(),
                item_view(items@) == unpaid_view + paid@.subrange(0, j as int).map_values(|p: Period| (p, "JPY"@, Figure { mantissa: 0, scale: 0 })),
            decreases paid.len() - j,
        {
            let ghost before = items@;
            items.push((paid[j], RawAmount { currency: text("JPY"), figure: Figure::from_int(0) }));
            proof {
                assert(paid@.subrange(0, j + 1) =~= paid@.subrange(0, j as int).push(paid@[j as int]));
                assert(item_view(items@) =~= item_view(before).push((paid@[j as int], "JPY"@, Figure { mantissa: 0, scale: 0 })));
            }
            j = j + 1;
        }
        assert(paid@.subrange(0, j as int) =~= paid@);
        if contains_period(&paid_for_before_period, current_period) {
            let ghost before = items@;
            items.push((*current_period, RawAmount { currency: text("JPY"), figure: Figure::from_int(0) }));
            assert(item_view(items@) =~= item_view(before).push((*current_period, "JPY"@, Figure { mantissa: 0, scale: 0 })));
        }
        proof {
            let d = display_items(*target, *current_period, paid_for_before_period@, paid_for_in_period_until_date@)->Ok_0;
            assert(item_view(items@) =~= d);
        }
        let sorted = sort_by_period(items);
        proof {
            lemma_view_multiset(sorted@, items@);
        }
        Ok(sorted)
    }
}

impl PredictedTransaction {
    /// The transaction of a template for a period: named after the
    /// template and the period's identifier.
    pub fn new(period_configuration: &PeriodConfigurationVaultValue, template_name: String, period: Period, amount: Amount) -> (r: Result<PredictedTransaction, String>)
        ensures
            r matches Ok(t) && t.name@ == template_name@ + " - "@ + period_id(period) && t.amount == amount,
    {
        let id = period_configuration.id_for_period(&period)?;
        Ok(PredictedTransaction { name: join3(template_name.as_str(), " - ", id.as_str()), amount })
    }

    /// The transaction as an operand of the same name and amount.
    pub fn build_operand(self) -> (r: Operand)
        ensures
            r.name == self.name,
            r.amount == self.amount,
            r.illustration@.len() == 0,
            r.archived_from is None,
    {
        Operand { name: self.name, amount: self.amount, illustration: Vec::new(), archived_from: None }
    }
}

/// The items are sorted by period.
pub open spec fn items_sorted(d: Seq<(Period, Seq<char>, Figure)>) -> bool {
    forall|i: int, j: int| 0 <= i < j < d.len() ==> !(#[trigger] d[j]).0.spec_precedes((#[trigger] d[i]).0)
}

/// The transactions show the items `d`, in order: each is named after the
/// template and the item's period, its amount being the item's figure
/// rounded to hundredths in the item's currency.
pub open spec fn transactions_show(v: Seq<PredictedTransaction>, d: Seq<(Period, Seq<char>, Figure)>, name: Seq<char>, ex: ExchangeRates) -> bool {
    &&& v.len() == d.len()
    &&& forall|i: int| 0 <= i < v.len() ==> {
        let t = #[trigger] v[i];
        &&& t.name@ == name + " - "@ + period_id(d[i].0)
        &&& Some(t.amount.spec_currency()) == ex.spec_currency(d[i].1)
        &&& t.amount.cents() == cents_of(spec_round_dp2(d[i].2).0, spec_round_dp2(d[i].2).1)
    }
}

/// The transactions show the items, sorted by period.
pub open spec fn shows_items(v: Seq<PredictedTransaction>, items: Seq<(Period, Seq<char>, Figure)>, name: Seq<char>, ex: ExchangeRates) -> bool {
    exists|d: Seq<(Period, Seq<char>, Figure)>| d.to_multiset() == items.to_multiset() && items_sorted(d)
        && #[trigger] transactions_show(v, d, name, ex)
}

/// The dated periods that the payments pay for.
pub open spec fn payment_items(payments: Seq<Payment>) -> Seq<(Date, Period)> {
    payments.map_values(|p: Payment| p.0)
}

impl PredictedTransactionTemplate {
    /// The transactions to show in the month of `date`: those that
    /// `decide_which_predicted_transactions_to_display` keeps, given the
    /// payments made before the month and those made in it until `date`,
    /// sorted by period.
    pub fn predicted_transactions(self, period_configuration: &PeriodConfigurationVaultValue, date: &Date, ex: &ExchangeRates) -> (r: Result<Vec<PredictedTransaction>, String>)
        requires
            date.wf(),
            ex.wf(),
            target_readable(self.target),
        ensures
            match month_period_result(date.year as int, date.month as int) {
                Err(m) => r matches Err(e) && e@ == m,
                Ok(p) => match chronology_error(payment_items(self.actual_transactions@)) {
                    Some(m) => r matches Err(e) && e@ == m,
                    None => match display_items(self.target, p, dated_before(payment_items(self.actual_transactions@), p.start_date),
                        dated_within(payment_items(self.actual_transactions@), p.start_date, *date)) {
                        Err(m) => r matches Err(e) && e@ == m,
                        Ok(items) => (r matches Ok(v) ==> shows_items(v@, items, self.name@, *ex))
                            && ((ex.spec_currency(self.target.amount.currency@) is Some && ex.spec_currency("JPY"@) is Some) ==> r is Ok),
                    },
                },
            },
    {
        let period = period_configuration.period_for_date(date)?;
        let ghost items = payment_items(self.actual_transactions@);
        let mut dated: Vec<(Date, Period)> = Vec::new();
        let mut i: usize = 0;
        while i < self.actual_transactions.len()
            invariant
                i <= self.actual_transactions@.len(),
                items == payment_items(self.actual_transactions@),
                dated@ == items.subrange(0, i as int),
            decreases self.actual_transactions.len() - i,
        {
            dated.push(self.actual_transactions[i].0);
            i = i + 1;
            assert(dated@ =~= items.subrange(0, i as int));
        }
        assert(items.subrange(0, i as int) =~= items);
        let stack = ChronoStack::new(dated)?;
        let (before, during, _after) = stack.into_split_for_period_and_date(&period, date);
        let ghost before_seq = before@;
        let ghost during_seq = during@;
        let decided = PredictedTransactionTemplate::decide_which_predicted_transactions_to_display(period_configuration, &self.target, &period, before, during)?;
        let ghost d = item_view(decided@);
        let ghost spec_items = display_items(self.target, period, before_seq, during_seq)->Ok_0;
        proof {
            assert forall|i: int, j: int| 0 <= i < j < d.len() implies !(#[trigger] d[j]).0.spec_precedes((#[trigger] d[i]).0) by {
                assert(d[i].0 == decided@[i].0 && d[j].0 == decided@[j].0);
            }
            lemma_items_forms(self.target, period, before_seq, during_seq, d);
        }
        let mut out: Vec<PredictedTransaction> = Vec::new();
        let mut k: usize = 0;
        while k < decided.len()
            invariant
                k <= decided@.len(),
                ex.wf(),
                d == item_view(decided@),
                month_period_result(date.year as int, date.month as int) == Ok::<Period, Seq<char>>(period),
                chronology_error(payment_items(self.actual_transactions@)) is None,
                before_seq == dated_before(payment_items(self.actual_transactions@), period.start_date),
                during_seq == dated_within(payment_items(self.actual_transactions@), period.start_date, *date),
                display_items(self.target, period, before_seq, during_seq) == Ok::<Seq<(Period, Seq<char>, Figure)>, Seq<char>>(spec_items),
                d.to_multiset() == spec_items.to_multiset(),
                items_sorted(d),
                target_readable(self.target),
                forall|j: int| 0 <= j < d.len() ==> (d[j].1 == self.target.amount.currency@ && d[j].2 == self.target.amount.figure)
                    || (d[j].1 == "JPY"@ && d[j].2 == Figure { mantissa: 0, scale: 0 }),
                transactions_show(out@, d.subrange(0, k as int), self.name@, *ex),
            decreases decided.len() - k,
        {
            let (p, raw) = &decided[k];
            assert(d[k as int] == (*p, raw.currency@, raw.figure));
            let amount = ex.new_amount_from_raw_amount(raw)?;
            let t = PredictedTransaction::new(period_configuration, self.name.clone(), *p, amount)?;
            let ghost before = out@;
            out.push(t);
            proof {
                assert forall|j: int| 0 <= j < out@.len() implies {
                    let t = #[trigger] out@[j];
                    &&& t.name@ == self.name@ + " - "@ + period_id(d.subrange(0, k + 1)[j].0)
                    &&& Some(t.amount.spec_currency()) == ex.spec_currency(d.subrange(0, k + 1)[j].1)
                    &&& t.amount.cents() == cents_of(spec_round_dp2(d.subrange(0, k + 1)[j].2).0, spec_round_dp2(d.subrange(0, k + 1)[j].2).1)
                } by {
                    if j < k {
                        assert(out@[j] == before[j]);
                        assert(d.subrange(0, k + 1)[j] == d.subrange(0, k as int)[j]);
                    }
                }
            }
            k = k + 1;
        }
        assert(d.subrange(0, k as int) =~= d);
        assert(transactions_show(out@, d, self.name@, *ex));
        let ghost outcome = display_items(self.target, period, dated_before(payment_items(self.actual_transactions@), period.start_date),
            dated_within(payment_items(self.actual_transactions@), period.start_date, *date));
        assert(outcome == Ok::<Seq<(Period, Seq<char>, Figure)>, Seq<char>>(spec_items));
        assert(d.to_multiset() =~= outcome->Ok_0.to_multiset());
        assert(shows_items(out@, outcome->Ok_0, self.name@, *ex));
        Ok(out)
    }
}

/// Every item to show is the target's amount or zero yen.
proof fn lemma_items_forms(target: Target, current: Period, before: Seq<Period>, during: Seq<Period>, d: Seq<(Period, Seq<char>, Figure)>)
    requires
        display_items(target, current, before, during) matches Ok(items) && d.to_multiset() == items.to_multiset(),
    ensures
        forall|j: int| 0 <= j < d.len() ==> (d[j].1 == target.amount.currency@ && d[j].2 == target.amount.figure)
            || (d[j].1 == "JPY"@ && d[j].2 == Figure { mantissa: 0, scale: 0 }),
{
    let items = display_items(target, current, before, during)->Ok_0;
    assert forall|j: int| 0 <= j < d.len() implies (d[j].1 == target.amount.currency@ && d[j].2 == target.amount.figure)
        || (d[j].1 == "JPY"@ && d[j].2 == Figure { mantissa: 0, scale: 0 }) by {
        assert(d.contains(d[j]));
        assert(d.to_multiset().count(d[j]) > 0);
        assert(items.contains(d[j]));
        let idx = choose|idx: int| 0 <= idx < items.len() && items[idx] == d[j];
    }
}

/// The operands are those of transactions that show the items.
pub open spec fn operands_show_items(ops: Seq<Operand>, items: Seq<(Period, Seq<char>, Figure)>, name: Seq<char>, ex: ExchangeRates) -> bool {
    exists|v: Seq<PredictedTransaction>| shows_items(v, items, name, ex) && #[trigger] operands_of(ops, v)
}

/// The operands are those of the transactions `v`, in order.
pub open spec fn operands_of(ops: Seq<Operand>, v: Seq<PredictedTransaction>) -> bool {
    &&& ops.len() == v.len()
    &&& forall|i: int| 0 <= i < ops.len() ==> {
        let o = #[trigger] ops[i];
        &&& o.name == v[i].name
        &&& o.amount == v[i].amount
        &&& o.illustration@.len() == 0
        &&& o.archived_from is None
    }
}

/// The template's operands at `today`: one per transaction to show (see
/// `predicted_transactions`), of the transaction's name and amount.
impl OperandBuilder for PredictedTransactionTemplate {
    open spec fn buildable(&self, today: Date, ex: ExchangeRates) -> bool {
        target_readable(self.target)
    }

    open spec fn builds(&self, pc: PeriodConfigurationVaultValue, today: Date, ex: ExchangeRates, r: Result<Vec<Operand>, String>) -> bool {
        match month_period_result(today.year as int, today.month as int) {
            Err(m) => r matches Err(e) && e@ == m,
            Ok(p) => match chronology_error(payment_items(self.actual_transactions@)) {
                Some(m) => r matches Err(e) && e@ == m,
                None => match display_items(self.target, p, dated_before(payment_items(self.actual_transactions@), p.start_date),
                    dated_within(payment_items(self.actual_transactions@), p.start_date, today)) {
                    Err(m) => r matches Err(e) && e@ == m,
                    Ok(items) => (r matches Ok(ops) ==> operands_show_items(ops@, items, self.name@, ex))
                        && ((ex.spec_currency(self.target.amount.currency@) is Some && ex.spec_currency("JPY"@) is Some) ==> r is Ok),
                },
            },
        }
    }

    fn build(self, period_configuration: &PeriodConfigurationVaultValue, today: &Date, exchange_rates: &ExchangeRates) -> (r: Result<Vec<Operand>, String>)
    {
        let ghost name = self.name@;
        let ghost outcome = display_items(self.target, month_period_result(today.year as int, today.month as int)->Ok_0,
            dated_before(payment_items(self.actual_transactions@), month_period_result(today.year as int, today.month as int)->Ok_0.start_date),
            dated_within(payment_items(self.actual_transactions@), month_period_result(today.year as int, today.month as int)->Ok_0.start_date, *today));
        let transactions = self.predicted_transactions(period_configuration, today, exchange_rates)?;
        let ghost tv = transactions@;
        let mut rest = transactions;
        let mut pending: Vec<PredictedTransaction> = Vec::new();
        while rest.len() > 0
            invariant
                rest@.len() + pending@.len() == tv.len(),
                rest@ == tv.subrange(0, rest@.len() as int),
                forall|k: int| 0 <= k < pending@.len() ==> pending@[k] == tv[tv.len() - 1 - k],
            decreases rest@.len(),
        {
            let t = rest.pop().unwrap();
            pending.push(t);
            assert(rest@ =~= tv.subrange(0, rest@.len() as int));
        }
        let n = pending.len();
        let mut ops: Vec<Operand> = Vec::new();
        let mut i: usize = 0;
        while i < n
            invariant
                n == tv.len(),
                i <= n,
                pending@.len() == n - i,
                forall|k: int| 0 <= k < pending@.len() ==> pending@[k] == tv[n - 1 - k],
                operands_of(ops@, tv.subrange(0, i as int)),
            decreases n - i,
        {
            let t = pending.pop().unwrap();
            assert(t == tv[i as int]);
            let ghost before = ops@;
            ops.push(t.build_operand());
            proof {
                assert forall|k: int| 0 <= k < ops@.len() implies {
                    let o = #[trigger] ops@[k];
                    &&& o.name == tv.subrange(0, i + 1)[k].name
                    &&& o.amount == tv.subrange(0, i + 1)[k].amount
                    &&& o.illustration@.len() == 0
                    &&& o.archived_from is None
                } by {
                    if k < i {
                        assert(ops@[k] == before[k]);
                    }
                }
            }
            i = i + 1;
        }
        assert(tv.subrange(0, n as int) =~= tv);
        assert(operands_of(ops@, tv));
        proof {
            if outcome is Ok {
                assert(shows_items(tv, outcome->Ok_0, name, *exchange_rates));
                assert(operands_show_items(ops@, outcome->Ok_0, name, *exchange_rates));
            }
        }
        Ok(ops)
    }
}

/// The predicted transactions of the vault.
pub type PeriodTransactionsVaultValue = Vec<PredictedTransactionTemplate>;

/// The templates of the vault form the group "Predicted Transactions".
impl GroupBuilder<PredictedTransactionTemplate> for PeriodTransactionsVaultValue {
    open spec fn buildable(&self, today: Date, ex: ExchangeRates) -> bool {
        forall|i: int| 0 <= i < self@.len() ==> target_readable((#[trigger] self@[i]).target)
    }

    open spec fn gives(&self, r: Result<(String, Vec<PredictedTransactionTemplate>), String>) -> bool {
        r matches Ok(p) && p.0@ == "Predicted Transactions"@ && p.1@ == self@
    }

    fn build(self) -> (r: Result<(String, Vec<PredictedTransactionTemplate>), String>) {
        Ok((text("Predicted Transactions"), self))
    }
}

} // verus!
