//! Bank accounts known by the history of their balance: dated amounts.
use vstd::prelude::*;
use crate::amounts::{Currency, ExchangeRates, Figure};
use crate::date::Date;
use crate::operand::{Operand, IllustrationValue, illustration_names, TimelineOperandBuilderHelper, TimelineOperandEnd};
use crate::period::{PeriodConfigurationVaultValue, month_period_result};
use crate::text::text;
use crate::remaining_operation::{GroupBuilder, OperandBuilder};

verus! {

/// A balance of the account, and whether it was recorded on the requested
/// date (`estimated` is false) or carried over from an earlier record.
#[derive(Clone, Copy, Debug, PartialEq, Eq, Structural)]
pub struct FoundAmount {
    pub figure: u32,
    pub estimated: bool,
}

/// A recorded balance.
#[derive(Clone, Copy, Debug, PartialEq, Eq, Structural)]
pub struct AmountListItem {
    pub date: Date,
    pub amount: u32,
}

/// An account: its name, its currency and the history of its balance.
#[derive(Debug)]
pub struct AccountJson {
    pub name: String,
    pub currency: String,
    pub amounts: Vec<AmountListItem>,
}

/// What the search for the balance at `date` gives from record `i` on, the
/// records before `i` being in order and dated before `date`: the record of
/// `date` itself, or else the last one before `date` when the next one is
/// after it (or there is no next one); a record dated after the one that
/// follows it stops the search with an error.
pub open spec fn amount_from(amounts: Seq<AmountListItem>, date: Date, i: int) -> Result<FoundAmount, Seq<char>>
    decreases amounts.len() - i,
{
    if i < 0 || i >= amounts.len() {
        Err("Reached end of the list but did not return amount"@)
    } else {
        let left = amounts[i];
        if i + 1 < amounts.len() && amounts[i + 1].date.spec_lt(left.date) {
            Err("Amount history out of order"@)
        } else if date == left.date {
            Ok(FoundAmount { figure: left.amount, estimated: false })
        } else if i + 1 >= amounts.len() || (left.date.spec_lt(date) && date.spec_lt(amounts[i + 1].date)) {
            Ok(FoundAmount { figure: left.amount, estimated: true })
        } else {
            amount_from(amounts, date, i + 1)
        }
    }
}

/// What `amount_at` gives (see `amount_from`).
pub open spec fn spec_amount_at(amounts: Seq<AmountListItem>, date: Date) -> Result<FoundAmount, Seq<char>> {
    if amounts.len() == 0 {
        Err("The account has no amount history"@)
    } else if date.spec_lt(amounts[0].date) {
        Err("The requested date is before the start of the amount history"@)
    } else {
        amount_from(amounts, date, 0)
    }
}

impl AccountJson {
    /// The balance of the account at `date`: the one recorded on that date,
    /// otherwise the last one recorded before it (then marked estimated).
    pub fn amount_at(&self, date: &Date) -> (r: Result<FoundAmount, String>)
        ensures
            match spec_amount_at(self.amounts@, *date) {
                Ok(f) => r == Ok::<FoundAmount, String>(f),
                Err(m) => r matches Err(e) && e@ == m,
            },
    {
        let n = self.amounts.len();
        if n == 0 {
            return Err(text("The account has no amount history"));
        }
        if date.is_before(&self.amounts[0].date) {
            return Err(text("The requested date is before the start of the amount history"));
        }
        let mut i: usize = 0;
        while i < n
            invariant
                n == self.amounts@.len(),
                i <= n,
                spec_amount_at(self.amounts@, *date) == amount_from(self.amounts@, *date, i as int),
                n > 0,
                !date.spec_lt(self.amounts@[0].date),
            decreases n - i,
        {
            let left = self.amounts[i];
            let between = if i + 1 < n {
                let right = self.amounts[i + 1];
                if right.date.is_before(&left.date) {
                    return Err(text("Amount history out of order"));
                }
                left.date.is_before(date) && date.is_before(&right.date)
            } else {
                true
            };
            if date.same_day(&left.date) {
                return Ok(FoundAmount { figure: left.amount, estimated: false });
            }
            if between {
                return Ok(FoundAmount { figure: left.amount, estimated: true });
            }
            i = i + 1;
        }
        Err(text("Reached end of the list but did not return amount"))
    }
}

/// The records are in chronological order.
pub open spec fn history_in_order(amounts: Seq<AmountListItem>) -> bool {
    forall|i: int, j: int| 0 <= i < j < amounts.len() ==> (#[trigger] amounts[i]).date.spec_le((#[trigger] amounts[j]).date)
}

/// `a <= b <= c` gives `a <= c`, for the calendar order.
proof fn lemma_date_le_trans(a: Date, b: Date, c: Date)
    requires
        a.spec_le(b),
        b.spec_le(c),
    ensures
        a.spec_le(c),
{
}

/// From record `i` on, dated no later than `date`, the search finds a
/// record `k >= i`, dated no later than `date`, that is the latest such
/// record from `i` on; its amount is the one found, estimated exactly where
/// it is not dated `date`.
proof fn lemma_amount_from_latest(amounts: Seq<AmountListItem>, date: Date, i: int)
    requires
        history_in_order(amounts),
        0 <= i < amounts.len(),
        amounts[i].date.spec_le(date),
    ensures
        amount_from(amounts, date, i) matches Ok(f) && exists|k: int| #![trigger amounts[k]]
            i <= k < amounts.len() && amounts[k].date.spec_le(date) && f.figure == amounts[k].amount
            && f.estimated == (amounts[k].date != date)
            && forall|j: int| i <= j < amounts.len() && (#[trigger] amounts[j]).date.spec_le(date)
                ==> amounts[j].date.spec_le(amounts[k].date),
    decreases amounts.len() - i,
{
    let left = amounts[i];
    if i + 1 < amounts.len() {
        assert(amounts[i].date.spec_le(amounts[i + 1].date));
    }
    if date == left.date {
        assert forall|j: int| i <= j < amounts.len() && (#[trigger] amounts[j]).date.spec_le(date)
            implies amounts[j].date.spec_le(amounts[i].date) by {}
    } else if i + 1 >= amounts.len() {
        assert forall|j: int| i <= j < amounts.len() && (#[trigger] amounts[j]).date.spec_le(date)
            implies amounts[j].date.spec_le(amounts[i].date) by {
            assert(j == i);
        }
    } else if left.date.spec_lt(date) && date.spec_lt(amounts[i + 1].date) {
        assert forall|j: int| i <= j < amounts.len() && (#[trigger] amounts[j]).date.spec_le(date)
            implies amounts[j].date.spec_le(amounts[i].date) by {
            if j > i {
                assert(amounts[i + 1].date.spec_le(amounts[j].date));
                lemma_date_le_trans(amounts[i + 1].date, amounts[j].date, date);
            }
        }
    } else {
        lemma_amount_from_latest(amounts, date, i + 1);
        let f = amount_from(amounts, date, i + 1)->Ok_0;
        let k = choose|k: int| #![trigger amounts[k]]
            i + 1 <= k < amounts.len() && amounts[k].date.spec_le(date) && f.figure == amounts[k].amount
            && f.estimated == (amounts[k].date != date)
            && forall|j: int| i + 1 <= j < amounts.len() && (#[trigger] amounts[j]).date.spec_le(date)
                ==> amounts[j].date.spec_le(amounts[k].date);
        assert(amounts[i + 1].date.spec_le(date));
        assert(amounts[i + 1].date.spec_le(amounts[k].date));
        lemma_date_le_trans(amounts[i].date, amounts[i + 1].date, amounts[k].date);
        assert forall|j: int| i <= j < amounts.len() && (#[trigger] amounts[j]).date.spec_le(date)
            implies amounts[j].date.spec_le(amounts[k].date) by {}
    }
}

/// The balance of an account whose history is in order, at a date no
/// earlier than its first record, is always found; it is the amount of a
/// record dated no later than the date, and no other record dated no later
/// than the date is later than that one; it is estimated exactly where no
/// record is dated on the date itself. A date before the first record, or
/// an empty history, gives an error.
pub proof fn law_amount_at_is_latest_record(amounts: Seq<AmountListItem>, date: Date)
    requires
        history_in_order(amounts),
    ensures
        (amounts.len() == 0 || date.spec_lt(amounts[0].date)) <==> spec_amount_at(amounts, date) is Err,
        spec_amount_at(amounts, date) matches Ok(f) ==> exists|k: int| #![trigger amounts[k]]
            0 <= k < amounts.len() && amounts[k].date.spec_le(date) && f.figure == amounts[k].amount
            && f.estimated == (amounts[k].date != date)
            && forall|j: int| 0 <= j < amounts.len() && (#[trigger] amounts[j]).date.spec_le(date)
                ==> amounts[j].date.spec_le(amounts[k].date),
        spec_amount_at(amounts, date) matches Ok(f)
            ==> (f.estimated <==> forall|j: int| 0 <= j < amounts.len() ==> (#[trigger] amounts[j]).date != date),
{
    if amounts.len() > 0 && !date.spec_lt(amounts[0].date) {
        lemma_amount_from_latest(amounts, date, 0);
        let f = amount_from(amounts, date, 0)->Ok_0;
        let k = choose|k: int| #![trigger amounts[k]]
            0 <= k < amounts.len() && amounts[k].date.spec_le(date) && f.figure == amounts[k].amount
            && f.estimated == (amounts[k].date != date)
            && forall|j: int| 0 <= j < amounts.len() && (#[trigger] amounts[j]).date.spec_le(date)
                ==> amounts[j].date.spec_le(amounts[k].date);
        if f.estimated {
            assert forall|j: int| 0 <= j < amounts.len() implies (#[trigger] amounts[j]).date != date by {
                if amounts[j].date == date {
                    assert(amounts[j].date.spec_le(amounts[k].date));
                }
            }
        } else {
            assert(amounts[k].date == date);
        }
    }
}

/// The operand of an account: its balance at the start of the period
/// (`start` units of currency `c`) against the one at its end (`end`), the
/// difference being counted.
pub open spec fn account_operand(op: Operand, name: Seq<char>, c: Currency, start: int, end: int) -> bool {
    &&& op.name@ == name
    &&& op.amount.cents() == (end - start) * 100
    &&& op.amount.spec_currency() == c
    &&& op.archived_from is None
    &&& illustration_names(op.illustration@) == seq!["Period start amount"@, "Period end amount"@, "Committed"@, "Difference"@]
    &&& op.illustration@[0].1 matches IllustrationValue::Amount(a) && a.cents() == start * 100 && a.spec_currency() == c
    &&& op.illustration@[1].1 matches IllustrationValue::Amount(a) && a.cents() == end * 100 && a.spec_currency() == c
    &&& op.illustration@[2].1 == IllustrationValue::Bool(true)
    &&& op.illustration@[3].1 == IllustrationValue::Amount(op.amount)
}

/// The account as an operand for the month of `today`: its balance on the
/// first day of the month against the one on its last day.
impl OperandBuilder for AccountJson {
    open spec fn buildable(&self, today: Date, ex: ExchangeRates) -> bool {
        true
    }

    open spec fn builds(&self, pc: PeriodConfigurationVaultValue, today: Date, ex: ExchangeRates, r: Result<Vec<Operand>, String>) -> bool {
        match month_period_result(today.year as int, today.month as int) {
            Err(m) => r matches Err(e) && e@ == m,
            Ok(p) => match spec_amount_at(self.amounts@, p.start_date) {
                Err(m) => r matches Err(e) && e@ == m,
                Ok(fs) => match ex.spec_currency(self.currency@) {
                    None => r matches Err(e) && e@ == "Could not find currency ident: "@ + self.currency@,
                    Some(c) => match spec_amount_at(self.amounts@, p.end_date) {
                        Err(m) => r matches Err(e) && e@ == m,
                        Ok(fe) => r matches Ok(v) && v@.len() == 1
                            && account_operand(v@[0], self.name@, c, fs.figure as int, fe.figure as int),
                    },
                },
            },
        }
    }

    fn build(self, period_configuration: &PeriodConfigurationVaultValue, today: &Date, exchange_rates: &ExchangeRates) -> (r: Result<Vec<Operand>, String>)
    {
        let period = period_configuration.period_for_date(today)?;
        let start = self.amount_at(&period.start_date)?;
        let start_amount = exchange_rates.new_amount(self.currency.as_str(), Figure::from_int(start.figure as i64))?;
        let end = self.amount_at(&period.end_date)?;
        let end_amount = exchange_rates.new_amount(self.currency.as_str(), Figure::from_int(end.figure as i64))?;
        let helper = TimelineOperandBuilderHelper {
            name: self.name,
            start_amount,
            wrapper_end_amount: TimelineOperandEnd::Current(end_amount),
            archived_since: None,
        };
        helper.build()
    }
}

/// The accounts of the vault.
#[derive(Debug)]
pub struct AccountGetter {
    pub accounts: Vec<AccountJson>,
}

/// The accounts of the vault form the group "Accounts".
impl GroupBuilder<AccountJson> for AccountGetter {
    open spec fn buildable(&self, today: Date, ex: ExchangeRates) -> bool {
        true
    }

    open spec fn gives(&self, r: Result<(String, Vec<AccountJson>), String>) -> bool {
        r matches Ok(p) && p.0@ == "Accounts"@ && p.1@ == self.accounts@
    }

    fn build(self) -> (r: Result<(String, Vec<AccountJson>), String>) {
        Ok((text("Accounts"), self.accounts))
    }
}
} // verus!
