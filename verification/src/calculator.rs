//! The pieces of the calculator of what remains: groups of named entries,
//! each known by the amounts of its timeline.
use vstd::prelude::*;
use crate::amounts::{Amount, ExchangeRates, Figure, spec_round_dp2};
use crate::remaining_operation::GroupCombinations;

verus! {

/// A group of the calculator: its name, how it combines with the others,
/// and its entries.
#[derive(Debug)]
pub struct CalculatorGroup {
    pub name: String,
    pub combination: GroupCombinations,
    pub entries: Vec<CalculatorEntry>,
}

/// An entry of a group: its name and its amounts.
#[derive(Debug)]
pub struct CalculatorEntry {
    pub name: String,
    pub amount_timeline: AmountTimeline,
}

/// The figures of an entry at the start of the period, now, and at its
/// predicted end, each where it is known, in one currency.
#[derive(Debug)]
pub struct AmountTimeline {
    pub currency_ident: String,
    pub period_start: Option<Figure>,
    pub current: Option<Figure>,
    pub predicted_end: Option<Figure>,
}

/// `r` is the amount that an optional figure of currency `ident` makes:
/// none without a figure, otherwise the amount rounded to hundredths or the
/// error of an unknown currency.
pub open spec fn optional_amount(ex: ExchangeRates, ident: Seq<char>, figure: Option<Figure>, r: Result<Option<Amount>, String>) -> bool {
    match figure {
        None => r == Ok::<Option<Amount>, String>(None),
        Some(f) => match ex.spec_currency(ident) {
            Some(c) => r matches Ok(Some(a)) && a.spec_currency() == c
                && (a.spec_figure().mantissa as int, a.spec_figure().scale) == spec_round_dp2(f),
            None => r matches Err(e) && e@ == "Could not find currency ident: "@ + ident,
        },
    }
}

impl AmountTimeline {
    /// The figures of the timeline are ones that `rust_decimal` can hold.
    pub open spec fn wf(self) -> bool {
        &&& self.period_start matches Some(f) ==> f.wf()
        &&& self.current matches Some(f) ==> f.wf()
        &&& self.predicted_end matches Some(f) ==> f.wf()
    }

    /// The amount of an optional figure in the timeline's currency.
    fn make_amount(&self, figure_maybe: &Option<Figure>, exchange_rates: &ExchangeRates) -> (r: Result<Option<Amount>, String>)
        requires
            exchange_rates.wf(),
            figure_maybe matches Some(f) ==> f.wf(),
        ensures
            optional_amount(*exchange_rates, self.currency_ident@, *figure_maybe, r),
    {
        match figure_maybe {
            Some(figure) => {
                let amount = exchange_rates.new_amount(self.currency_ident.as_str(), *figure)?;
                Ok(Some(amount))
            },
            None => Ok(None),
        }
    }

    /// The amount at the start of the period, if known.
    pub fn period_start(&self, exchange_rates: &ExchangeRates) -> (r: Result<Option<Amount>, String>)
        requires
            exchange_rates.wf(),
            self.wf(),
        ensures
            optional_amount(*exchange_rates, self.currency_ident@, self.period_start, r),
    {
        self.make_amount(&self.period_start, exchange_rates)
    }

    /// The amount now, if known.
    pub fn current(&self, exchange_rates: &ExchangeRates) -> (r: Result<Option<Amount>, String>)
        requires
            exchange_rates.wf(),
            self.wf(),
        ensures
            optional_amount(*exchange_rates, self.currency_ident@, self.current, r),
    {
        self.make_amount(&self.current, exchange_rates)
    }

    /// The amount predicted at the end of the period, if known.
    pub fn predicted_end(&self, exchange_rates: &ExchangeRates) -> (r: Result<Option<Amount>, String>)
        requires
            exchange_rates.wf(),
            self.wf(),
        ensures
            optional_amount(*exchange_rates, self.currency_ident@, self.predicted_end, r),
    {
        self.make_amount(&self.predicted_end, exchange_rates)
    }
}

} // verus!
