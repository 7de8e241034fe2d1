//! Transactions of the period that the remaining amount should not count
//! as spent: they are added back once they have happened.
use vstd::prelude::*;
use crate::amounts::{Currency, ExchangeRates, Figure, spec_round_dp2, cents_of};
use crate::date::Date;
use crate::operand::{Operand, IllustrationValue, illustration_names};
use crate::period::{PeriodConfigurationVaultValue, month_period_result};
use crate::text::text;
use crate::remaining_operation::{GroupBuilder, OperandBuilder};

verus! {

/// A transaction to leave out of what the period spent.
#[derive(Debug)]
pub struct IgnoredTransaction {
    pub name: String,
    pub currency: String,
    pub amount: Figure,
    pub date: Date,
}

/// The operand of an ignored transaction dated `date`: its amount (in
/// currency `c`) once the transaction has happened by `today`, zero before.
pub open spec fn ignored_operand(op: Operand, name: Seq<char>, c: Currency, amount: Figure, date: Date, today: Date) -> bool {
    &&& op.name@ == name
    &&& op.amount.spec_currency() == c
    &&& op.amount.cents() == (if date.spec_le(today) { cents_of(spec_round_dp2(amount).0, spec_round_dp2(amount).1) } else { 0 })
    &&& op.archived_from is None
    &&& illustration_names(op.illustration@) == seq!["Included"@, "Date"@]
    &&& op.illustration@[0].1 == IllustrationValue::Bool(date.spec_le(today))
    &&& op.illustration@[1].1 == IllustrationValue::Date(date)
}

/// The transaction as an operand of the month of `today`; none where the
/// transaction falls outside that month.
impl OperandBuilder for IgnoredTransaction {
    open spec fn buildable(&self, today: Date, ex: ExchangeRates) -> bool {
        self.amount.wf()
    }

    open spec fn builds(&self, pc: PeriodConfigurationVaultValue, today: Date, ex: ExchangeRates, r: Result<Vec<Operand>, String>) -> bool {
        match month_period_result(today.year as int, today.month as int) {
            Err(m) => r matches Err(e) && e@ == m,
            Ok(p) => if !p.spec_contains(self.date) {
                r matches Ok(v) && v@.len() == 0
            } else {
                match ex.spec_currency(self.currency@) {
                    None => r matches Err(e) && e@ == "Could not find currency ident: "@ + self.currency@,
                    Some(c) => r matches Ok(v) && v@.len() == 1 && ignored_operand(v@[0], self.name@, c, self.amount, self.date, today),
                }
            },
        }
    }

    fn build(self, period_configuration: &PeriodConfigurationVaultValue, today: &Date, exchange_rates: &ExchangeRates) -> (r: Result<Vec<Operand>, String>)
    {
        let current_period = period_configuration.period_for_date(today)?;
        if !current_period.contains(&self.date) {
            return Ok(Vec::new());
        }
        let amount = exchange_rates.new_amount(self.currency.as_str(), self.amount)?;
        let included = self.date.is_before_or_on(today);
        let operand_amount = if included {
            amount
        } else {
            exchange_rates.new_amount(self.currency.as_str(), Figure::from_int(0))?
        };
        let mut illustration: Vec<(String, IllustrationValue)> = Vec::new();
        illustration.push((text("Included"), IllustrationValue::Bool(included)));
        illustration.push((text("Date"), IllustrationValue::Date(self.date)));
        let op = Operand { name: self.name, amount: operand_amount, illustration, archived_from: None };
        proof {
            assert(illustration_names(op.illustration@) =~= seq!["Included"@, "Date"@]);
        }
        let ghost shown = op;
        let mut v: Vec<Operand> = Vec::new();
        v.push(op);
        assert(v@[0] == shown);
        Ok(v)
    }
}

/// The transactions of the vault to leave out.
pub type IgnoredTransactionsVaultValues = Vec<IgnoredTransaction>;

/// The ignored transactions of the vault form the group "Ignored
/// Transactions".
impl GroupBuilder<IgnoredTransaction> for IgnoredTransactionsVaultValues {
    open spec fn buildable(&self, today: Date, ex: ExchangeRates) -> bool {
        forall|i: int| 0 <= i < self@.len() ==> (#[trigger] self@[i]).amount.wf()
    }

    open spec fn gives(&self, r: Result<(String, Vec<IgnoredTransaction>), String>) -> bool {
        r matches Ok(p) && p.0@ == "Ignored Transactions"@ && p.1@ == self@
    }

    fn build(self) -> (r: Result<(String, Vec<IgnoredTransaction>), String>) {
        Ok((text("Ignored Transactions"), self))
    }
}

} // verus!
