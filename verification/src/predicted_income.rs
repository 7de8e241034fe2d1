//! The income expected during the period.
use vstd::prelude::*;
use crate::amounts::{Currency, ExchangeRates, Figure, spec_round_dp2, cents_of};
use crate::operand::Operand;
use crate::text::text;
use crate::date::Date;
use crate::period::PeriodConfigurationVaultValue;
use crate::remaining_operation::{GroupBuilder, OperandBuilder};

verus! {

/// An income expected in the period, in a currency.
#[derive(Debug)]
pub struct PredictedIncome {
    pub currency: String,
    pub figure: Figure,
}

/// The income as the one operand of its group, named "Predicted Income".
impl OperandBuilder for PredictedIncome {
    open spec fn buildable(&self, today: Date, ex: ExchangeRates) -> bool {
        self.figure.wf()
    }

    open spec fn builds(&self, pc: PeriodConfigurationVaultValue, today: Date, ex: ExchangeRates, r: Result<Vec<Operand>, String>) -> bool {
        match ex.spec_currency(self.currency@) {
            None => r matches Err(e) && e@ == "Could not find currency ident: "@ + self.currency@,
            Some(c) => r matches Ok(v) && v@.len() == 1 && v@[0].name@ == "Predicted Income"@
                && v@[0].amount.spec_currency() == c
                && v@[0].amount.cents() == cents_of(spec_round_dp2(self.figure).0, spec_round_dp2(self.figure).1)
                && v@[0].illustration@.len() == 0 && v@[0].archived_from is None,
        }
    }

    fn build(self, period_configuration: &PeriodConfigurationVaultValue, today: &Date, exchange_rates: &ExchangeRates) -> (r: Result<Vec<Operand>, String>)
    {
        let amount = exchange_rates.new_amount(self.currency.as_str(), self.figure)?;
        let op = Operand { name: text("Predicted Income"), amount, illustration: Vec::new(), archived_from: None };
        let ghost shown = op;
        let mut v: Vec<Operand> = Vec::new();
        v.push(op);
        assert(v@[0] == shown);
        Ok(v)
    }
}

/// The predicted income forms the group "Predicted Income" on its own.
impl GroupBuilder<PredictedIncome> for PredictedIncome {
    open spec fn buildable(&self, today: Date, ex: ExchangeRates) -> bool {
        self.figure.wf()
    }

    open spec fn gives(&self, r: Result<(String, Vec<PredictedIncome>), String>) -> bool {
        r matches Ok(p) && p.0@ == "Predicted Income"@ && p.1@ == seq![*self]
    }

    fn build(self) -> (r: Result<(String, Vec<PredictedIncome>), String>) {
        let ghost me = self;
        let mut v: Vec<PredictedIncome> = Vec::new();
        v.push(self);
        assert(v@ =~= seq![me]);
        Ok((text("Predicted Income"), v))
    }
}

} // verus!
