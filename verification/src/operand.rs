//! The lines of the "remaining" screen: named amounts, each with the
//! values that illustrate how it was obtained.
use vstd::prelude::*;
use crate::amounts::Amount;
use crate::buckets::in_decimal_range;
use crate::date::Date;
use crate::text::text;

verus! {

/// A value shown beside an operand.
#[derive(Clone, Copy, Debug)]
pub enum IllustrationValue {
    Amount(Amount),
    NullAmount,
    Bool(bool),
    Date(Date),
}

impl IllustrationValue {
    /// The value of an optional amount: the amount, or the null amount.
    pub fn from_option(value: Option<Amount>) -> (r: IllustrationValue)
        ensures
            match value {
                Some(a) => r == IllustrationValue::Amount(a),
                None => r == IllustrationValue::NullAmount,
            },
    {
        match value {
            Some(a) => IllustrationValue::Amount(a),
            None => IllustrationValue::NullAmount,
        }
    }
}

/// A named amount that counts toward the remaining amount of the period,
/// with its illustration (named values) and the date from which it is
/// archived, if any.
#[derive(Debug)]
pub struct Operand {
    pub name: String,
    pub amount: Amount,
    pub illustration: Vec<(String, IllustrationValue)>,
    pub archived_from: Option<Date>,
}

impl Operand {
    /// A copy of the operand.
    pub fn duplicate(&self) -> (r: Operand)
        ensures
            r.name == self.name,
            r.amount == self.amount,
            r.illustration@ == self.illustration@,
            r.archived_from == self.archived_from,
    {
        let mut illustration: Vec<(String, IllustrationValue)> = Vec::new();
        let mut i: usize = 0;
        while i < self.illustration.len()
            invariant
                i <= self.illustration@.len(),
                illustration@ == self.illustration@.subrange(0, i as int),
            decreases self.illustration.len() - i,
        {
            let (k, v) = &self.illustration[i];
            illustration.push((k.clone(), *v));
            i = i + 1;
            assert(illustration@ =~= self.illustration@.subrange(0, i as int));
        }
        assert(self.illustration@.subrange(0, i as int) =~= self.illustration@);
        Operand { name: self.name.clone(), amount: self.amount, illustration, archived_from: self.archived_from }
    }
}

/// The names of an illustration's values, in order.
pub open spec fn illustration_names(illustration: Seq<(String, IllustrationValue)>) -> Seq<Seq<char>> {
    illustration.map_values(|x: (String, IllustrationValue)| x.0@)
}

/// The amount at the end of a period: known already, or predicted.
#[derive(Clone, Copy, Debug)]
pub enum TimelineOperandEnd {
    Current(Amount),
    Predicted(Amount),
}

/// An operand that compares an amount at the start of the period with the
/// one at its end.
#[derive(Debug)]
pub struct TimelineOperandBuilderHelper {
    pub name: String,
    pub start_amount: Amount,
    pub wrapper_end_amount: TimelineOperandEnd,
    pub archived_since: Option<Date>,
}

/// The operand compares `start` with `end`: its amount is their difference
/// (`diff` hundredths of `end`'s currency), and it shows both, whether the
/// end amount is known, and the difference.
pub open spec fn timeline_operand(op: Operand, name: Seq<char>, start: Amount, end: Amount, predicted: bool, diff: int, archived: Option<Date>) -> bool {
    &&& op.name@ == name
    &&& op.amount.cents() == diff
    &&& op.amount.spec_currency() == end.spec_currency()
    &&& op.archived_from == archived
    &&& illustration_names(op.illustration@) == seq!["Period start amount"@, "Period end amount"@, "Committed"@, "Difference"@]
    &&& op.illustration@[0].1 == IllustrationValue::Amount(start)
    &&& op.illustration@[1].1 == IllustrationValue::Amount(end)
    &&& op.illustration@[2].1 == IllustrationValue::Bool(!predicted)
    &&& op.illustration@[3].1 == IllustrationValue::Amount(op.amount)
}

impl TimelineOperandEnd {
    /// The end amount.
    pub open spec fn amount(self) -> Amount {
        match self {
            TimelineOperandEnd::Current(a) => a,
            TimelineOperandEnd::Predicted(a) => a,
        }
    }
}

impl TimelineOperandBuilderHelper {
    /// The single operand of the timeline: the end amount minus the start
    /// amount (converted to the end amount's currency).
    pub fn build(self) -> (r: Result<Vec<Operand>, String>)
        ensures
            match self.start_amount.spec_converted_cents(self.wrapper_end_amount.amount().spec_currency()) {
                None => r matches Err(e) && e@ == "Amount conversion overflowed"@,
                Some(c) => if in_decimal_range(self.wrapper_end_amount.amount().cents() - c) {
                    r matches Ok(v) && v@.len() == 1 && timeline_operand(v@[0], self.name@, self.start_amount,
                        self.wrapper_end_amount.amount(), self.wrapper_end_amount is Predicted,
                        self.wrapper_end_amount.amount().cents() - c, self.archived_since)
                } else {
                    r matches Err(e) && e@ == "Amount overflow"@
                },
            },
    {
        let (end_amount, predicted) = match self.wrapper_end_amount {
            TimelineOperandEnd::Current(amount) => (amount, false),
            TimelineOperandEnd::Predicted(amount) => (amount, true),
        };
        let difference = end_amount.sub(&self.start_amount)?;
        let mut illustration: Vec<(String, IllustrationValue)> = Vec::new();
        illustration.push((text("Period start amount"), IllustrationValue::Amount(self.start_amount)));
        illustration.push((text("Period end amount"), IllustrationValue::Amount(end_amount)));
        illustration.push((text("Committed"), IllustrationValue::Bool(!predicted)));
        illustration.push((text("Difference"), IllustrationValue::Amount(difference)));
        let op = Operand { name: self.name, amount: difference, illustration, archived_from: self.archived_since };
        proof {
            assert(illustration_names(op.illustration@) =~= seq!["Period start amount"@, "Period end amount"@, "Committed"@, "Difference"@]);
        }
        let ghost shown = op;
        let mut v: Vec<Operand> = Vec::new();
        v.push(op);
        assert(v@[0] == shown);
        Ok(v)
    }
}

} // verus!
