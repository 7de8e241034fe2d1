//! Savings buckets: dated lines that deposit money into a bucket, withdraw
//! from it, cancel either, or set the bucket a target; and what a bucket
//! asks of the current period.
use vstd::prelude::*;
use crate::amounts::{Amount, Currency, ExchangeRates, RawAmount, Figure, spec_raw_amount_parse, raw_amount_is, converted_cents, spec_round_dp2, decimal_limit, cents_of, round_half_even_div, converted_figure, scale_after, decimal_divided_rounded};
use crate::chrono_stack::{ChronoStack, chronology_error, dated_before, dated_within, dated_after, lemma_filtered_elements};
use crate::date::Date;
use crate::operand::{Operand, IllustrationValue, illustration_names};
use crate::period::{Period, PeriodConfigurationVaultValue, ErrorPeriodsBetween, month_period_result, month_index};
use crate::text::{text, chars_of, string_of, sub_chars, same_text, next_word, next_word_at, error_is};
use crate::line::{LineWithDateVisitor, RestVisitor, line_date_format};
use crate::date::{chrono_parsed_date, parse_date};
use vstd::string::StringExecFns;
use crate::remaining_operation::{GroupBuilder, OperandBuilder};

verus! {

/// What a line of a bucket does.
#[derive(Clone, Debug)]
pub enum Action {
    Deposit(RawAmount),
    DepositCancellation(RawAmount),
    Withdrawal(RawAmount),
    WithdrawalCancellation(RawAmount),
    SetTarget { amount: RawAmount, target_date: Date },
}

impl Action {
    /// The amounts of the action are figures that `rust_decimal` can hold.
    pub open spec fn wf(self) -> bool {
        match self {
            Action::Deposit(a) => a.figure.wf(),
            Action::DepositCancellation(a) => a.figure.wf(),
            Action::Withdrawal(a) => a.figure.wf(),
            Action::WithdrawalCancellation(a) => a.figure.wf(),
            Action::SetTarget { amount, target_date } => amount.figure.wf() && target_date.wf(),
        }
    }

    /// The amount of money that the action moves, if it moves any.
    pub open spec fn movement(self) -> Option<RawAmount> {
        match self {
            Action::Deposit(a) => Some(a),
            Action::DepositCancellation(a) => Some(a),
            Action::Withdrawal(a) => Some(a),
            Action::WithdrawalCancellation(a) => Some(a),
            Action::SetTarget { .. } => None,
        }
    }

    /// A deposit, or the cancellation of one.
    pub open spec fn is_deposit_kind(self) -> bool {
        self is Deposit || self is DepositCancellation
    }

    /// A withdrawal, or the cancellation of one.
    pub open spec fn is_withdrawal_kind(self) -> bool {
        self is Withdrawal || self is WithdrawalCancellation
    }

    /// A copy of the action.
    pub fn duplicate(&self) -> (r: Action)
        ensures
            r == *self,
    {
        match self {
            Action::Deposit(a) => Action::Deposit(a.duplicate()),
            Action::DepositCancellation(a) => Action::DepositCancellation(a.duplicate()),
            Action::Withdrawal(a) => Action::Withdrawal(a.duplicate()),
            Action::WithdrawalCancellation(a) => Action::WithdrawalCancellation(a.duplicate()),
            Action::SetTarget { amount, target_date } => Action::SetTarget { amount: amount.duplicate(), target_date: *target_date },
        }
    }
}

/// A dated line of a bucket.
#[derive(Debug)]
pub struct Line(pub (Date, Action));

/// The first word at or after `from`, read as an amount, with the position
/// where it ends.
pub open spec fn spec_amount_word(s: Seq<char>, from: int) -> Result<((Seq<char>, Figure), int), Seq<char>> {
    match next_word(s, from) {
        None => Err("No amounts specified"@),
        Some((a, b)) => match spec_raw_amount_parse(s.subrange(a, b)) {
            Err(m) => Err("Failed to parse amount: "@ + s.subrange(a, b) + ". Error: "@ + m),
            Ok(parts) => Ok((parts, b)),
        },
    }
}

/// The tags of the lines that move money.
pub open spec fn is_moving_tag(tag: Seq<char>) -> bool {
    tag == "DEPO"@ || tag == "DEPO-"@ || tag == "WITH"@ || tag == "WITH-"@
}

/// The action that a moving tag names, holding the given amount.
pub open spec fn moving_action_is(a: Action, tag: Seq<char>, parts: (Seq<char>, Figure)) -> bool {
    &&& a.wf()
    &&& match a {
        Action::Deposit(x) => tag == "DEPO"@ && raw_amount_is(x, parts),
        Action::DepositCancellation(x) => tag == "DEPO-"@ && raw_amount_is(x, parts),
        Action::Withdrawal(x) => tag == "WITH"@ && raw_amount_is(x, parts),
        Action::WithdrawalCancellation(x) => tag == "WITH-"@ && raw_amount_is(x, parts),
        Action::SetTarget { .. } => false,
    }
}

/// A target of the given amount and date.
pub open spec fn target_is(a: Action, parts: (Seq<char>, Figure), date: Date) -> bool {
    &&& a.wf()
    &&& a matches Action::SetTarget { amount, target_date } && raw_amount_is(amount, parts) && target_date == date
}

/// What the text after the date of a bucket line reads as: its first word
/// is the tag; `TARG` takes an amount and a target date (`%Y/%m/%d`),
/// `DEPO`, `DEPO-`, `WITH` and `WITH-` an amount; words beyond are not read.
pub open spec fn action_visited(s: Seq<char>, r: Result<Action, String>) -> bool {
    match next_word(s, 0) {
        None => error_is(r, "No tag specified"@),
        Some((a, b)) => {
            let tag = s.subrange(a, b);
            if tag == "TARG"@ {
                match spec_amount_word(s, b) {
                    Err(m) => error_is(r, m),
                    Ok((parts, e)) => match next_word(s, e) {
                        None => error_is(r, "No target date specified"@),
                        Some((c, d)) => match chrono_parsed_date(s.subrange(c, d), line_date_format()) {
                            Err(m) => error_is(r, "Failed to parse date: "@ + s.subrange(c, d) + ". Error: "@ + m),
                            Ok(date) => r matches Ok(x) && target_is(x, parts, date),
                        },
                    },
                }
            } else if is_moving_tag(tag) {
                match spec_amount_word(s, b) {
                    Err(m) => error_is(r, m),
                    Ok((parts, _)) => r matches Ok(x) && moving_action_is(x, tag, parts),
                }
            } else {
                error_is(r, "Unknown tag"@)
            }
        },
    }
}

/// Reads what follows the date of a bucket line.
pub struct ActionVisitor;

/// Reads the first word at or after `from` as an amount.
fn amount_word(chars: &Vec<char>, from: usize) -> (r: Result<(RawAmount, usize), String>)
    requires
        from <= chars@.len(),
    ensures
        match spec_amount_word(chars@, from as int) {
            Ok((parts, e)) => r matches Ok((x, e2)) && raw_amount_is(x, parts) && x.figure.wf() && e2 == e && e2 <= chars@.len(),
            Err(m) => error_is(r, m),
        },
{
    match next_word_at(chars, from) {
        None => Err(text("No amounts specified")),
        Some((a, b)) => {
            let word = string_of(&sub_chars(chars, a, b));
            match RawAmount::parse(word.as_str()) {
                Ok(x) => Ok((x, b)),
                Err(m) => {
                    let mut message = text("Failed to parse amount: ");
                    message.append(word.as_str());
                    message.append(". Error: ");
                    message.append(m.as_str());
                    Err(message)
                },
            }
        },
    }
}

impl RestVisitor for ActionVisitor {
    type Value = Action;

    open spec fn visited(&self, rest: Seq<char>, r: Result<Action, String>) -> bool {
        action_visited(rest, r)
    }

    open spec fn expected(&self) -> Seq<char> {
        "an action"@
    }

    fn expecting(&self) -> (r: String) {
        text("an action")
    }

    fn visit_str(&self, rest: &str) -> (r: Result<Action, String>) {
        let chars = chars_of(rest);
        let (a, b) = match next_word_at(&chars, 0) {
            None => {
                return Err(text("No tag specified"));
            },
            Some(p) => p,
        };
        let tag = string_of(&sub_chars(&chars, a, b));
        if same_text(tag.as_str(), "TARG") {
            let (amount, e) = match amount_word(&chars, b) {
                Ok(p) => p,
                Err(m) => {
                    return Err(m);
                },
            };
            let (c, d) = match next_word_at(&chars, e) {
                None => {
                    return Err(text("No target date specified"));
                },
                Some(p) => p,
            };
            let raw = string_of(&sub_chars(&chars, c, d));
            let date = parse_date(raw.as_str(), "%Y/%m/%d");
            proof {
                reveal_strlit("%Y/%m/%d");
                assert("%Y/%m/%d"@ =~= line_date_format());
            }
            match date {
                Ok(target_date) => Ok(Action::SetTarget { amount, target_date }),
                Err(err) => {
                    let mut message = text("Failed to parse date: ");
                    message.append(raw.as_str());
                    message.append(". Error: ");
                    message.append(err.as_str());
                    Err(message)
                },
            }
        } else if same_text(tag.as_str(), "DEPO") {
            match amount_word(&chars, b) {
                Ok((x, _)) => Ok(Action::Deposit(x)),
                Err(m) => Err(m),
            }
        } else if same_text(tag.as_str(), "DEPO-") {
            match amount_word(&chars, b) {
                Ok((x, _)) => Ok(Action::DepositCancellation(x)),
                Err(m) => Err(m),
            }
        } else if same_text(tag.as_str(), "WITH") {
            match amount_word(&chars, b) {
                Ok((x, _)) => Ok(Action::Withdrawal(x)),
                Err(m) => Err(m),
            }
        } else if same_text(tag.as_str(), "WITH-") {
            match amount_word(&chars, b) {
                Ok((x, _)) => Ok(Action::WithdrawalCancellation(x)),
                Err(m) => Err(m),
            }
        } else {
            Err(text("Unknown tag"))
        }
    }
}

/// What a bucket line reads as (see `LineWithDateVisitor::visited` and
/// `action_visited`).
pub open spec fn line_read(v: Seq<char>, r: Result<Line, String>) -> bool {
    let visitor = LineWithDateVisitor { other_visitor: ActionVisitor };
    match r {
        Ok(l) => visitor.visited(v, Ok(l.0)) && l.0.0.wf(),
        Err(e) => visitor.visited(v, Err(e)),
    }
}

impl Line {
    /// Reads a bucket line: a date (`%Y/%m/%d`), a space, a tag and its
    /// amounts.
    pub fn parse(v: &str) -> (r: Result<Line, String>)
        ensures
            line_read(v@, r),
    {
        let visitor = LineWithDateVisitor::new(ActionVisitor);
        match visitor.visit_str(v) {
            Ok(p) => Ok(Line(p)),
            Err(e) => Err(e),
        }
    }
}

/// Strictly between the bounds of what `rust_decimal` can hold.
pub open spec fn in_decimal_range(x: int) -> bool {
    -decimal_limit() < x < decimal_limit()
}

/// What a money movement amounts to, in hundredths of `to`: the raw amount
/// in its currency rounded to hundredths, then converted.
pub open spec fn movement_cents(ex: ExchangeRates, raw: RawAmount, to: Currency) -> Result<int, Seq<char>> {
    match ex.spec_currency(raw.currency@) {
        None => Err("Could not find currency ident: "@ + raw.currency@),
        Some(c) => match converted_cents(spec_round_dp2(raw.figure).0, spec_round_dp2(raw.figure).1, c, to) {
            None => Err("Amount conversion overflowed"@),
            Some(x) => Ok(x),
        },
    }
}

/// The totals `(total, deposited, withdrawn)`, in hundredths, once an action
/// moving `delta` is applied; or why it is refused.
pub open spec fn apply_movement(s: (int, int, int), action: Action, delta: int) -> Result<(int, int, int), Seq<char>> {
    let (t, d, w) = s;
    match action {
        Action::Deposit(_) => if !in_decimal_range(d + delta) || !in_decimal_range(t + delta) {
            Err("Amount overflow"@)
        } else {
            Ok((t + delta, d + delta, w))
        },
        Action::DepositCancellation(_) => if !in_decimal_range(d - delta) {
            Err("Amount overflow"@)
        } else if d - delta < 0 {
            Err("attempt to remove more than was deposited"@)
        } else if !in_decimal_range(t - delta) {
            Err("Amount overflow"@)
        } else {
            Ok((t - delta, d - delta, w))
        },
        Action::Withdrawal(_) => if !in_decimal_range(w + delta) || !in_decimal_range(t - delta) {
            Err("Amount overflow"@)
        } else {
            Ok((t - delta, d, w + delta))
        },
        Action::WithdrawalCancellation(_) => if !in_decimal_range(w - delta) {
            Err("Amount overflow"@)
        } else if w - delta < 0 {
            Err("attempt to put back money that was not withdrawn"@)
        } else if !in_decimal_range(t + delta) {
            Err("Amount overflow"@)
        } else {
            Ok((t + delta, d, w - delta))
        },
        Action::SetTarget { .. } => Ok(s),
    }
}

/// The totals once `action` is applied, amounts being counted in `to`.
pub open spec fn step(ex: ExchangeRates, to: Currency, s: (int, int, int), action: Action) -> Result<(int, int, int), Seq<char>> {
    match action.movement() {
        None => Ok(s),
        Some(raw) => match movement_cents(ex, raw, to) {
            Err(e) => Err(e),
            Ok(delta) => apply_movement(s, action, delta),
        },
    }
}

/// The totals once `actions` are applied in order from `s`; the first
/// refusal stops it.
pub open spec fn aggregate(ex: ExchangeRates, to: Currency, s: (int, int, int), actions: Seq<Action>) -> Result<(int, int, int), Seq<char>>
    decreases actions.len(),
{
    if actions.len() == 0 {
        Ok(s)
    } else {
        match aggregate(ex, to, s, actions.drop_last()) {
            Err(e) => Err(e),
            Ok(s1) => step(ex, to, s1, actions.last()),
        }
    }
}

/// The figure (mantissa, scale) that a money movement amounts to in `to`:
/// the raw amount rounded to hundredths, then converted.
pub open spec fn movement_figure(ex: ExchangeRates, raw: RawAmount, to: Currency) -> Option<(int, u32)> {
    match ex.spec_currency(raw.currency@) {
        None => None,
        Some(c) => converted_figure(spec_round_dp2(raw.figure).0, spec_round_dp2(raw.figure).1, c, to),
    }
}

/// The scales of the figures (total, deposited, withdrawn) once `action`
/// is applied to totals `s` of scales `sc`, where it applies: each figure
/// that the action changes takes the scale of the sum (see `scale_after`).
pub open spec fn step_scales(ex: ExchangeRates, to: Currency, s: (int, int, int), sc: (u32, u32, u32), action: Action) -> (u32, u32, u32) {
    match action.movement() {
        None => sc,
        Some(raw) => match movement_figure(ex, raw, to) {
            None => sc,
            Some((m, ms)) => {
                let d = cents_of(m, ms);
                if action.is_deposit_kind() {
                    (scale_after(s.0, sc.0, d, ms), scale_after(s.1, sc.1, d, ms), sc.2)
                } else {
                    (scale_after(s.0, sc.0, d, ms), sc.1, scale_after(s.2, sc.2, d, ms))
                }
            },
        },
    }
}

/// The scales of the figures once `actions` are applied in order from
/// totals `s` of scales `sc`, where they all apply.
pub open spec fn aggregate_scales(ex: ExchangeRates, to: Currency, s: (int, int, int), sc: (u32, u32, u32), actions: Seq<Action>) -> (u32, u32, u32)
    decreases actions.len(),
{
    if actions.len() == 0 {
        sc
    } else {
        match aggregate(ex, to, s, actions.drop_last()) {
            Err(_) => sc,
            Ok(s1) => step_scales(ex, to, s1, aggregate_scales(ex, to, s, sc, actions.drop_last()), actions.last()),
        }
    }
}

/// The total of a bucket is what was deposited minus what was withdrawn.
pub open spec fn balanced(s: (int, int, int)) -> bool {
    s.0 == s.1 - s.2
}

/// Applying a line to a bucket keeps its total equal to what was deposited
/// minus what was withdrawn.
pub proof fn law_apply_keeps_balance(ex: ExchangeRates, to: Currency, s: (int, int, int), action: Action)
    requires
        balanced(s),
    ensures
        step(ex, to, s, action) matches Ok(n) ==> balanced(n),
{
}

/// Applying any lines in turn to an empty bucket keeps its total equal to
/// what was deposited minus what was withdrawn.
pub proof fn law_aggregate_keeps_balance(ex: ExchangeRates, to: Currency, s: (int, int, int), actions: Seq<Action>)
    requires
        balanced(s),
    ensures
        aggregate(ex, to, s, actions) matches Ok(n) ==> balanced(n),
    decreases actions.len(),
{
    if actions.len() > 0 {
        law_aggregate_keeps_balance(ex, to, s, actions.drop_last());
        if let Ok(s1) = aggregate(ex, to, s, actions.drop_last()) {
            law_apply_keeps_balance(ex, to, s1, actions.last());
        }
    }
}

/// Cancelling a deposit right after making it, or a withdrawal right after
/// making it, of the same amount brings the totals back to what they were.
pub proof fn law_cancellation_undoes(ex: ExchangeRates, to: Currency, s: (int, int, int), amount: RawAmount)
    requires
        in_decimal_range(s.0),
        in_decimal_range(s.1),
        in_decimal_range(s.2),
        s.1 >= 0,
        s.2 >= 0,
    ensures
        step(ex, to, s, Action::Deposit(amount)) matches Ok(n)
            ==> step(ex, to, n, Action::DepositCancellation(amount)) == Ok::<(int, int, int), Seq<char>>(s),
        step(ex, to, s, Action::Withdrawal(amount)) matches Ok(n)
            ==> step(ex, to, n, Action::WithdrawalCancellation(amount)) == Ok::<(int, int, int), Seq<char>>(s),
{
}

/// Running totals of a bucket: its total, what was deposited and what was
/// withdrawn, in yen.
#[derive(Clone, Copy, Debug)]
pub struct AggregatedAmounts {
    total: Amount,
    deposited: Amount,
    withdrawn: Amount,
    exchange_rates: ExchangeRates,
}

/// The yen, with its rate, where the exchange rates know it.
pub open spec fn yen_of(ex: ExchangeRates) -> Option<Currency> {
    ex.spec_currency("JPY"@)
}

impl AggregatedAmounts {
    #[verifier::type_invariant]
    spec fn in_yen(self) -> bool {
        &&& self.exchange_rates.wf()
        &&& yen_of(self.exchange_rates) matches Some(c)
        &&& self.total.spec_currency() == c
        &&& self.deposited.spec_currency() == c
        &&& self.withdrawn.spec_currency() == c
    }

    /// The running total.
    pub closed spec fn spec_total(self) -> Amount {
        self.total
    }

    /// What was deposited.
    pub closed spec fn spec_deposited(self) -> Amount {
        self.deposited
    }

    /// What was withdrawn.
    pub closed spec fn spec_withdrawn(self) -> Amount {
        self.withdrawn
    }

    /// The exchange rates that amounts are read with.
    pub closed spec fn rates(self) -> ExchangeRates {
        self.exchange_rates
    }

    /// The three figures, in hundredths: total, deposited, withdrawn.
    pub open spec fn state(self) -> (int, int, int) {
        (self.spec_total().cents(), self.spec_deposited().cents(), self.spec_withdrawn().cents())
    }

    /// The scales of the three figures: total, deposited, withdrawn.
    pub open spec fn scales(self) -> (u32, u32, u32) {
        (self.spec_total().spec_figure().scale, self.spec_deposited().spec_figure().scale, self.spec_withdrawn().spec_figure().scale)
    }

    /// The currency of the three amounts: the yen of the exchange rates.
    pub open spec fn currency(self) -> Currency {
        self.spec_total().spec_currency()
    }

    /// Empty totals, in yen.
    pub fn new(exchange_rates: &ExchangeRates) -> (r: Result<AggregatedAmounts, String>)
        requires
            exchange_rates.wf(),
        ensures
            match yen_of(*exchange_rates) {
                Some(c) => r matches Ok(a) && a.state() == (0int, 0int, 0int) && a.scales() == (0u32, 0u32, 0u32)
                    && a.currency() == c && a.rates() == *exchange_rates,
                None => r matches Err(e) && e@ == "Could not find currency ident: JPY"@,
            },
    {
        proof {
            reveal_strlit("JPY");
            reveal_strlit("Could not find currency ident: ");
            reveal_strlit("Could not find currency ident: JPY");
            assert("Could not find currency ident: "@ + "JPY"@ =~= "Could not find currency ident: JPY"@);
        }
        let zero_yen = exchange_rates.zero("JPY")?;
        Ok(AggregatedAmounts { total: zero_yen, deposited: zero_yen, withdrawn: zero_yen, exchange_rates: *exchange_rates })
    }

    /// Applies a line: deposits and withdrawals add up, their cancellations
    /// take back, and no cancellation may take back more than there was. A
    /// target changes nothing. On an error nothing changes.
    pub fn apply(&mut self, action: &Action) -> (r: Result<(), String>)
        requires
            action.wf(),
        ensures
            final(self).rates() == old(self).rates(),
            final(self).currency() == old(self).currency(),
            match step(old(self).rates(), old(self).currency(), old(self).state(), *action) {
                Ok(s) => r is Ok && final(self).state() == s
                    && final(self).scales() == step_scales(old(self).rates(), old(self).currency(), old(self).state(), old(self).scales(), *action),
                Err(m) => r matches Err(e) && e@ == m && *final(self) == *old(self),
            },
    {
        proof {
            use_type_invariant(&*self);
        }
        let raw = match action {
            Action::Deposit(a) => a,
            Action::DepositCancellation(a) => a,
            Action::Withdrawal(a) => a,
            Action::WithdrawalCancellation(a) => a,
            Action::SetTarget { .. } => {
                return Ok(());
            },
        };
        let amount = self.exchange_rates.new_amount_from_raw_amount(raw)?;
        match action {
            Action::Deposit(_) => {
                let deposited = self.deposited.add(&amount)?;
                let total = self.total.add(&amount)?;
                self.deposited = deposited;
                self.total = total;
            },
            Action::DepositCancellation(_) => {
                let deposited = self.deposited.sub(&amount)?;
                if deposited.is_negative() {
                    return Err(text("attempt to remove more than was deposited"));
                }
                let total = self.total.sub(&amount)?;
                self.deposited = deposited;
                self.total = total;
            },
            Action::Withdrawal(_) => {
                let withdrawn = self.withdrawn.add(&amount)?;
                let total = self.total.sub(&amount)?;
                self.withdrawn = withdrawn;
                self.total = total;
            },
            Action::WithdrawalCancellation(_) => {
                let withdrawn = self.withdrawn.sub(&amount)?;
                if withdrawn.is_negative() {
                    return Err(text("attempt to put back money that was not withdrawn"));
                }
                let total = self.total.add(&amount)?;
                self.withdrawn = withdrawn;
                self.total = total;
            },
            Action::SetTarget { .. } => {},
        }
        Ok(())
    }

    /// The running total.
    pub fn total(&self) -> (r: Amount)
        ensures
            r == self.spec_total(),
    {
        self.total
    }

    /// What was deposited.
    pub fn deposited(&self) -> (r: Amount)
        ensures
            r == self.spec_deposited(),
            r.spec_currency() == self.currency(),
            yen_of(self.rates()) == Some(self.currency()),
            self.rates().wf(),
    {
        proof {
            use_type_invariant(self);
        }
        self.deposited
    }

    /// What was withdrawn.
    pub fn withdrawn(&self) -> (r: Amount)
        ensures
            r == self.spec_withdrawn(),
            r.spec_currency() == self.currency(),
    {
        proof {
            use_type_invariant(self);
        }
        self.withdrawn
    }

    /// The totals of `self` minus those of `other`, figure by figure.
    pub fn sub(&self, other: &AggregatedAmounts) -> (r: Result<AggregatedAmounts, String>)
        requires
            other.currency() == self.currency(),
        ensures
            match (in_decimal_range(self.state().0 - other.state().0) && in_decimal_range(self.state().1 - other.state().1)
                && in_decimal_range(self.state().2 - other.state().2)) {
                true => r matches Ok(a) && a.state() == (self.state().0 - other.state().0, self.state().1 - other.state().1,
                    self.state().2 - other.state().2) && a.currency() == self.currency() && a.rates() == self.rates()
                    && a.scales() == (scale_after(self.state().0, self.scales().0, other.state().0, other.scales().0),
                        scale_after(self.state().1, self.scales().1, other.state().1, other.scales().1),
                        scale_after(self.state().2, self.scales().2, other.state().2, other.scales().2)),
                false => r matches Err(e) && e@ == "Amount overflow"@,
            },
    {
        proof {
            use_type_invariant(self);
            use_type_invariant(other);
        }
        let total = self.total.sub(&other.total)?;
        let deposited = self.deposited.sub(&other.deposited)?;
        let withdrawn = self.withdrawn.sub(&other.withdrawn)?;
        Ok(AggregatedAmounts { total, deposited, withdrawn, exchange_rates: self.exchange_rates })
    }
}

/// The dated actions of lines.
pub open spec fn line_items(lines: Seq<Line>) -> Seq<(Date, Action)> {
    lines.map_values(|l: Line| l.0)
}

/// The last target set among `actions`, with its date.
pub open spec fn last_target(actions: Seq<Action>) -> Option<(RawAmount, Date)>
    decreases actions.len(),
{
    if actions.len() == 0 {
        None
    } else {
        match actions.last() {
            Action::SetTarget { amount, target_date } => Some((amount, target_date)),
            _ => last_target(actions.drop_last()),
        }
    }
}

/// The error of the first target among `actions` whose currency the
/// exchange rates do not know.
pub open spec fn target_error(ex: ExchangeRates, actions: Seq<Action>) -> Option<Seq<char>>
    decreases actions.len(),
{
    if actions.len() == 0 {
        None
    } else {
        match target_error(ex, actions.drop_last()) {
            Some(m) => Some(m),
            None => match actions.last() {
                Action::SetTarget { amount, .. } => if ex.spec_currency(amount.currency@) is None {
                    Some("Could not find currency ident: "@ + amount.currency@)
                } else {
                    None
                },
                _ => None,
            },
        }
    }
}

/// Some action of `actions` is a deposit or the cancellation of one.
pub open spec fn has_deposit(actions: Seq<Action>) -> bool {
    exists|i: int| 0 <= i < actions.len() && (#[trigger] actions[i]).is_deposit_kind()
}

/// Some action of `actions` is a withdrawal or the cancellation of one.
pub open spec fn has_withdrawal(actions: Seq<Action>) -> bool {
    exists|i: int| 0 <= i < actions.len() && (#[trigger] actions[i]).is_withdrawal_kind()
}

/// The action can be read at `date`: its amounts are valid figures, and a
/// target is not so far ahead that its number of months overflows a `u16`.
pub open spec fn action_ok(a: Action, date: Date) -> bool {
    &&& a.wf()
    &&& (a matches Action::SetTarget { target_date, .. } ==> (date.spec_le(target_date)
        ==> (target_date.year - date.year + 1) * 12 <= u16::MAX))
}

/// Number of calendar months from that of `date` to that of `target`, both
/// included, or 1 where the target is past.
pub open spec fn months_until(date: Date, target: Date) -> int {
    if target.spec_lt(date) { 1 } else { month_index(target) - month_index(date) + 1 }
}

/// What the lines of a bucket give at `date`, up to the recommended
/// deposit: the totals `(total, deposited, withdrawn)` before the month of
/// `date` and until `date`, whether the month saw deposits or withdrawals,
/// and the target (currency, figure in hundredths, date) set last before
/// `date` with the scale of its figure; the scales of the three figures
/// before the month and until `date`; or the error that stops the
/// computation.
pub struct BucketFigures {
    pub yen: Currency,
    pub before: (int, int, int),
    pub until: (int, int, int),
    pub seen_deposit: bool,
    pub seen_withdrawal: bool,
    pub target: Option<(Currency, int, Date)>,
    pub target_scale: u32,
    pub before_scales: (u32, u32, u32),
    pub until_scales: (u32, u32, u32),
}

/// See `BucketFigures`.
pub open spec fn bucket_outcome(lines: Seq<Line>, date: Date, ex: ExchangeRates) -> Result<BucketFigures, Seq<char>> {
    let items = line_items(lines);
    match chronology_error(items) {
        Some(m) => Err(m),
        None => match month_period_result(date.year as int, date.month as int) {
            Err(m) => Err(m),
            Ok(p) => match yen_of(ex) {
                None => Err("Could not find currency ident: JPY"@),
                Some(yen) => {
                    let before = dated_before(items, p.start_date);
                    let during = dated_within(items, p.start_date, date);
                    let after = dated_after(items, date);
                    match aggregate(ex, yen, (0, 0, 0), before) {
                        Err(m) => Err(m),
                        Ok(sb) => match aggregate(ex, yen, sb, during) {
                            Err(m) => Err(m),
                            Ok(su) => match aggregate(ex, yen, su, after) {
                                Err(m) => Err(m),
                                Ok(_) => {
                                    let seen_d = has_deposit(during);
                                    let seen_w = has_withdrawal(during);
                                    if !in_decimal_range(su.0 - sb.0) || !in_decimal_range(su.1 - sb.1) || !in_decimal_range(su.2 - sb.2) {
                                        Err("Amount overflow"@)
                                    } else if !seen_d && su.1 - sb.1 != 0 {
                                        Err("No deposit in this period, but deposit is not zero"@)
                                    } else if !seen_w && su.2 - sb.2 != 0 {
                                        Err("No withdrawal in this period, but withdrawl is not zero"@)
                                    } else if !seen_d && !seen_w && su.0 - sb.0 != 0 {
                                        Err("No withdrawal or deposit in this period, but total is not zero"@)
                                    } else {
                                        match target_error(ex, before + during) {
                                            Some(m) => Err(m),
                                            None => Ok(BucketFigures {
                                                yen,
                                                before: sb,
                                                until: su,
                                                seen_deposit: seen_d,
                                                seen_withdrawal: seen_w,
                                                target: match last_target(before + during) {
                                                    None => None,
                                                    Some((raw, d)) => Some((ex.spec_currency(raw.currency@)->Some_0,
                                                        cents_of(spec_round_dp2(raw.figure).0, spec_round_dp2(raw.figure).1), d)),
                                                },
                                                target_scale: match last_target(before + during) {
                                                    None => 0,
                                                    Some((raw, d)) => spec_round_dp2(raw.figure).1,
                                                },
                                                before_scales: aggregate_scales(ex, yen, (0, 0, 0), (0, 0, 0), before),
                                                until_scales: aggregate_scales(ex, yen, sb, aggregate_scales(ex, yen, (0, 0, 0), (0, 0, 0), before), during),
                                            }),
                                        }
                                    }
                                },
                            },
                        },
                    }
                },
            },
        },
    }
}

/// Lines dated after `date`, appended to a bucket whose lines stay in
/// chronological order, change nothing of what the bucket gives at `date`
/// wherever the longer bucket gives a result; and they never turn an error
/// into a result.
pub proof fn law_later_lines_change_nothing(lines: Seq<Line>, extra: Seq<Line>, date: Date, ex: ExchangeRates)
    requires
        date.wf(),
        forall|i: int| 0 <= i < extra.len() ==> date.spec_lt((#[trigger] extra[i]).0.0),
        chronology_error(line_items(lines + extra)) is None,
    ensures
        bucket_outcome(lines + extra, date, ex) is Ok ==> bucket_outcome(lines + extra, date, ex) == bucket_outcome(lines, date, ex),
        bucket_outcome(lines, date, ex) is Err ==> bucket_outcome(lines + extra, date, ex) is Err,
{
    let items = line_items(lines);
    let more = line_items(extra);
    let all = line_items(lines + extra);
    assert(all =~= items + more);
    crate::chrono_stack::lemma_chronology_prefix(items, more, 0);
    if let Ok(p) = month_period_result(date.year as int, date.month as int) {
        assert(p.start_date.spec_le(date));
        assert forall|j: int| 0 <= j < more.len() implies date.spec_lt(#[trigger] more[j].0) by {
            assert(more[j] == extra[j].0);
        }
        crate::chrono_stack::lemma_dated_append_later(items, more, p.start_date, date);
        if let Some(yen) = yen_of(ex) {
            let before = dated_before(items, p.start_date);
            let during = dated_within(items, p.start_date, date);
            let after = dated_after(items, date);
            let after2 = dated_after(all, date);
            assert(after2 == after + crate::chrono_stack::elements(more));
            if let Ok(sb) = aggregate(ex, yen, (0, 0, 0), before) {
                if let Ok(su) = aggregate(ex, yen, sb, during) {
                    if aggregate(ex, yen, su, after) is Err {
                        assert(after2.subrange(0, after.len() as int) =~= after);
                        lemma_aggregate_error_sticks(ex, yen, su, after2, after.len() as int);
                    }
                }
            }
        }
    }
}

/// A bucket: a name, its dated lines, and the date from which it is
/// archived, if any.
#[derive(Debug)]
pub struct Bucket {
    pub name: String,
    pub lines: Vec<Line>,
    pub archived_since: Option<Date>,
}

/// What a bucket gives at a date: the change to count this period (the
/// actual one where money moved, else the recommended deposit), the
/// recommended deposit, the actual deposit and withdrawal of the period,
/// and the totals until the date.
#[derive(Debug)]
pub struct BucketAtDate {
    pub recommended_or_actual_change: Amount,
    pub current_recommended_deposit: Option<Amount>,
    pub current_actual_deposit: Option<Amount>,
    pub current_withdrawal: Option<Amount>,
    pub total_deposit: Amount,
    pub total_withdrawal: Amount,
    pub total: Amount,
}

impl BucketAtDate {
    /// The totals and the period's actual movements are those of `f`, each
    /// in yen with its value in hundredths and its scale.
    pub open spec fn shows_totals(self, f: BucketFigures) -> bool {
        &&& amount_is(self.total, f.yen, f.until.0, f.until_scales.0)
        &&& amount_is(self.total_deposit, f.yen, f.until.1, f.until_scales.1)
        &&& amount_is(self.total_withdrawal, f.yen, f.until.2, f.until_scales.2)
        &&& if f.seen_deposit {
            self.current_actual_deposit matches Some(a)
                && amount_is(a, f.yen, f.until.1 - f.before.1, scale_after(f.until.1, f.until_scales.1, f.before.1, f.before_scales.1))
        } else {
            self.current_actual_deposit is None
        }
        &&& if f.seen_withdrawal {
            self.current_withdrawal matches Some(a)
                && amount_is(a, f.yen, f.until.2 - f.before.2, scale_after(f.until.2, f.until_scales.2, f.before.2, f.before_scales.2))
        } else {
            self.current_withdrawal is None
        }
        &&& (f.seen_deposit || f.seen_withdrawal) ==> amount_is(self.recommended_or_actual_change, f.yen,
            f.until.0 - f.before.0, scale_after(f.until.0, f.until_scales.0, f.before.0, f.before_scales.0))
    }
}

/// The amount is in currency `c`, worth `cents` hundredths, with scale
/// `scale`.
pub open spec fn amount_is(a: Amount, c: Currency, cents: int, scale: u32) -> bool {
    a.spec_currency() == c && a.cents() == cents && a.spec_figure().scale == scale
}

/// The result of `Bucket::for_period` once the figures `f` are known: the
/// recommended deposit is what the last target still lacks (counted from
/// the deposits made before the period, and never below zero) spread over
/// the months left until the target's date, rounded to hundredths. For a
/// target in another currency than the yen, those deposits are converted to
/// the target's currency first (from their exact figure), and the
/// recommendation is in the target's currency, or in yen where nothing is
/// lacking.
pub open spec fn bucket_result_holds(r: Result<BucketAtDate, String>, f: BucketFigures, date: Date) -> bool {
    match f.target {
        None => r matches Ok(b) && b.shows_totals(f) && b.current_recommended_deposit is None
            && (!(f.seen_deposit || f.seen_withdrawal) ==> amount_is(b.recommended_or_actual_change, f.yen, 0, 0)),
        Some((tc, tcents, tdate)) => {
            let n = months_until(date, tdate);
            let bs = f.before_scales.1;
            match converted_figure(mantissa_of(f.before.1, bs), bs, f.yen, tc) {
                None => r matches Err(e) && e@ == "Amount conversion overflowed"@,
                Some((cm, cs)) => {
                    let c = cents_of(cm, cs);
                    let diff = tcents - c;
                    let base = if diff > 0 { diff } else { 0 };
                    let floor_scale = if diff > 0 { scale_after(tcents, f.target_scale, c, cs) } else { 0 };
                    let q = decimal_divided_rounded(mantissa_of(base, floor_scale), floor_scale as int, n);
                    if !in_decimal_range(diff) {
                        r matches Err(e) && e@ == "Amount overflow"@
                    } else {
                        r matches Ok(b) && b.shows_totals(f) && (b.current_recommended_deposit matches Some(a)
                            && a.spec_currency() == (if diff > 0 { tc } else { f.yen })
                            && a.spec_figure().mantissa == q.0 && a.spec_figure().scale == q.1
                            && (-100_000_000_000_000_000_000 < base < 100_000_000_000_000_000_000 ==> a.cents() == round_half_even_div(base, n))
                            && (!(f.seen_deposit || f.seen_withdrawal) ==> b.recommended_or_actual_change == a))
                    }
                },
            }
        },
    }
}

/// What `Bucket::for_period` gives for the lines `lines` at `date`: the
/// error of the bucket's figures, or a result that shows them.
pub open spec fn for_period_gives(lines: Seq<Line>, date: Date, ex: ExchangeRates, r: Result<BucketAtDate, String>) -> bool {
    match bucket_outcome(lines, date, ex) {
        Err(m) => r matches Err(e) && e@ == m,
        Ok(f) => bucket_result_holds(r, f, date),
    }
}

/// Two results of `for_period` are the same: the same buckets, or errors
/// with the same text.
pub open spec fn same_bucket_result(r1: Result<BucketAtDate, String>, r2: Result<BucketAtDate, String>) -> bool {
    match (r1, r2) {
        (Ok(b1), Ok(b2)) => b1 == b2,
        (Err(e1), Err(e2)) => e1@ == e2@,
        _ => false,
    }
}

/// An amount in a currency is told by its value in hundredths and its
/// scale.
proof fn lemma_amount_is_unique(a: Amount, b: Amount, c: Currency, cents: int, scale: u32)
    requires
        amount_is(a, c, cents, scale),
        amount_is(b, c, cents, scale),
    ensures
        a == b,
{
    let fa = a.spec_figure();
    let fb = b.spec_figure();
    assert(fa.mantissa == fb.mantissa);
    assert(fa == fb);
    Amount::lemma_amount_ext(a, b);
}

/// The figures of a bucket fix what `for_period` gives.
proof fn lemma_bucket_result_unique(r1: Result<BucketAtDate, String>, r2: Result<BucketAtDate, String>, f: BucketFigures, date: Date)
    requires
        bucket_result_holds(r1, f, date),
        bucket_result_holds(r2, f, date),
    ensures
        same_bucket_result(r1, r2),
{
    if let (Ok(b1), Ok(b2)) = (r1, r2) {
        lemma_amount_is_unique(b1.total, b2.total, f.yen, f.until.0, f.until_scales.0);
        lemma_amount_is_unique(b1.total_deposit, b2.total_deposit, f.yen, f.until.1, f.until_scales.1);
        lemma_amount_is_unique(b1.total_withdrawal, b2.total_withdrawal, f.yen, f.until.2, f.until_scales.2);
        if f.seen_deposit {
            lemma_amount_is_unique(b1.current_actual_deposit->Some_0, b2.current_actual_deposit->Some_0, f.yen,
                f.until.1 - f.before.1, scale_after(f.until.1, f.until_scales.1, f.before.1, f.before_scales.1));
        }
        if f.seen_withdrawal {
            lemma_amount_is_unique(b1.current_withdrawal->Some_0, b2.current_withdrawal->Some_0, f.yen,
                f.until.2 - f.before.2, scale_after(f.until.2, f.until_scales.2, f.before.2, f.before_scales.2));
        }
        if let Some(_) = b1.current_recommended_deposit {
            let a1 = b1.current_recommended_deposit->Some_0;
            let a2 = b2.current_recommended_deposit->Some_0;
            assert(a1.spec_figure() == a2.spec_figure());
            Amount::lemma_amount_ext(a1, a2);
        }
        if f.seen_deposit || f.seen_withdrawal {
            lemma_amount_is_unique(b1.recommended_or_actual_change, b2.recommended_or_actual_change, f.yen,
                f.until.0 - f.before.0, scale_after(f.until.0, f.until_scales.0, f.before.0, f.before_scales.0));
        } else if f.target is None {
            lemma_amount_is_unique(b1.recommended_or_actual_change, b2.recommended_or_actual_change, f.yen, 0, 0);
        }
    }
}

/// Lines dated after `date`, appended to a bucket whose lines stay in
/// chronological order, leave what `for_period` gives at `date` unchanged
/// wherever the longer bucket gives a result.
pub proof fn law_later_lines_leave_for_period(lines: Seq<Line>, extra: Seq<Line>, date: Date, ex: ExchangeRates,
    r1: Result<BucketAtDate, String>, r2: Result<BucketAtDate, String>)
    requires
        date.wf(),
        forall|i: int| 0 <= i < extra.len() ==> date.spec_lt((#[trigger] extra[i]).0.0),
        chronology_error(line_items(lines + extra)) is None,
        bucket_outcome(lines + extra, date, ex) is Ok,
        for_period_gives(lines, date, ex, r1),
        for_period_gives(lines + extra, date, ex, r2),
    ensures
        same_bucket_result(r1, r2),
{
    law_later_lines_change_nothing(lines, extra, date, ex);
    lemma_bucket_result_unique(r1, r2, bucket_outcome(lines, date, ex)->Ok_0, date);
}

/// The mantissa of a figure of at most two decimals is told by its value in
/// hundredths and its scale.
proof fn lemma_mantissa_of(m: int, scale: u32)
    requires
        scale <= 2,
    ensures
        mantissa_of(cents_of(m, scale), scale) == m,
{
}

/// The mantissa of a figure of `scale` (at most 2) worth `cents` hundredths.
pub open spec fn mantissa_of(cents: int, scale: u32) -> int {
    if scale == 0 { cents / 100 } else if scale == 1 { cents / 10 } else { cents }
}

impl Bucket {
    /// Every line can be read at `date` (see `action_ok`).
    pub open spec fn readable_at(self, date: Date) -> bool {
        forall|i: int| 0 <= i < self.lines@.len() ==> action_ok((#[trigger] self.lines@[i]).0.1, date)
    }

    /// What the bucket gives at `date`, in the month that holds it: the
    /// lines before the month, those of the month until `date` and those
    /// after `date` are applied in turn (all must apply); the month's
    /// deposits and withdrawals, the totals until `date`, and the deposit
    /// recommended by the last target set until `date`.
    pub fn for_period(&self, period_config: &PeriodConfigurationVaultValue, date: &Date, ex: &ExchangeRates) -> (r: Result<BucketAtDate, String>)
        requires
            date.wf(),
            ex.wf(),
            self.readable_at(*date),
        ensures
            for_period_gives(self.lines@, *date, *ex, r),
    {
        let ghost all_items = line_items(self.lines@);
        let items = dated_actions(&self.lines);
        let stack = ChronoStack::new(items)?;
        let period = period_config.period_for_date(date)?;
        let (before, during, after) = stack.into_split_for_period_and_date(&period, date);
        proof {
            let ok = |a: Action| action_ok(a, *date);
            assert forall|j: int| 0 <= j < all_items.len() implies ok(#[trigger] all_items[j].1) by {
                assert(all_items[j] == self.lines@[j].0);
            }
            lemma_filtered_elements(all_items, |x: (Date, Action)| x.0.spec_lt(period.start_date), ok);
            lemma_filtered_elements(all_items, |x: (Date, Action)| period.start_date.spec_le(x.0) && x.0.spec_le(*date), ok);
            lemma_filtered_elements(all_items, |x: (Date, Action)| date.spec_lt(x.0), ok);
        }
        let mut agg = AggregatedAmounts::new(ex)?;
        apply_all(&mut agg, &before, Ghost(*date))?;
        let agg_before = agg;
        apply_all(&mut agg, &during, Ghost(*date))?;
        let agg_until = agg;
        apply_all(&mut agg, &after, Ghost(*date))?;
        let seen_deposit = any_deposit(&during);
        let seen_withdrawal = any_withdrawal(&during);
        let this_period = agg_until.sub(&agg_before)?;
        let zero_yen = ex.zero("JPY")?;
        let deposit = this_period.deposited();
        let withdrawal = this_period.withdrawn();
        let deposit_this_period = if seen_deposit {
            Some(deposit)
        } else {
            if !deposit.equals(&zero_yen) {
                return Err(text("No deposit in this period, but deposit is not zero"));
            }
            None
        };
        let withdrawal_this_period = if seen_withdrawal {
            Some(withdrawal)
        } else {
            if !withdrawal.equals(&zero_yen) {
                return Err(text("No withdrawal in this period, but withdrawl is not zero"));
            }
            None
        };
        let total_this_period = if seen_withdrawal || seen_deposit {
            Some(this_period.total())
        } else {
            if !this_period.total().equals(&zero_yen) {
                return Err(text("No withdrawal or deposit in this period, but total is not zero"));
            }
            None
        };
        let target = find_target(ex, &before, &during, Ghost(*date))?;
        let recommended = match target {
            Some((target_amount, target_date)) => {
                let n: u16 = match period_config.periods_between_nb(date, &target_date) {
                    Ok(nb) => nb,
                    Err(ErrorPeriodsBetween::EndBeforeStart) => 1,
                    Err(ErrorPeriodsBetween::Miscelaneous(m)) => {
                        return Err(m);
                    },
                };
                proof {
                    if date.spec_le(target_date) {
                        assert(month_index(*date) <= month_index(target_date));
                    }
                }
                let deposited_before = agg_before.deposited();
                let deposited_figure = deposited_before.figure();
                let missing = target_amount.sub(&deposited_before)?;
                let missing_figure = missing.figure();
                let floor = missing.maximum(&zero_yen);
                proof {
                    lemma_mantissa_of(deposited_figure.mantissa as int, deposited_figure.scale);
                    lemma_mantissa_of(missing_figure.mantissa as int, missing_figure.scale);
                }
                Some(floor.div_int(n))
            },
            None => None,
        };
        let change = match total_this_period {
            Some(t) => t,
            None => match recommended {
                Some(a) => a,
                None => zero_yen,
            },
        };
        Ok(BucketAtDate {
            recommended_or_actual_change: change,
            current_recommended_deposit: recommended,
            current_actual_deposit: deposit_this_period,
            current_withdrawal: withdrawal_this_period,
            total_deposit: agg_until.deposited(),
            total_withdrawal: agg_until.withdrawn(),
            total: agg_until.total(),
        })
    }
}

/// The illustration value of an optional amount.
pub open spec fn option_value(o: Option<Amount>) -> IllustrationValue {
    match o {
        Some(a) => IllustrationValue::Amount(a),
        None => IllustrationValue::NullAmount,
    }
}

/// The operand shows the bucket's figures `b`: its amount is the change
/// with the opposite sign, and its illustration the six named figures.
pub open spec fn operand_shows(op: Operand, b: BucketAtDate, name: Seq<char>, archived_since: Option<Date>) -> bool {
    &&& op.name@ == name
    &&& op.amount.cents() == -b.recommended_or_actual_change.cents()
    &&& op.amount.spec_currency() == b.recommended_or_actual_change.spec_currency()
    &&& op.archived_from == archived_since
    &&& illustration_names(op.illustration@) == seq!["This period - recommended deposit"@, "This period - actual deposit"@,
        "This period - actual withdrawal"@, "Deposited"@, "Withdrawn"@, "Total"@]
    &&& op.illustration@[0].1 == option_value(b.current_recommended_deposit)
    &&& op.illustration@[1].1 == option_value(b.current_actual_deposit)
    &&& op.illustration@[2].1 == option_value(b.current_withdrawal)
    &&& op.illustration@[3].1 == IllustrationValue::Amount(b.total_deposit)
    &&& op.illustration@[4].1 == IllustrationValue::Amount(b.total_withdrawal)
    &&& op.illustration@[5].1 == IllustrationValue::Amount(b.total)
}

/// The bucket as the one operand of its group: what it gives at `today`
/// (see `for_period`), the change counted against the remaining amount.
impl OperandBuilder for Bucket {
    open spec fn buildable(&self, today: Date, ex: ExchangeRates) -> bool {
        self.readable_at(today)
    }

    open spec fn builds(&self, pc: PeriodConfigurationVaultValue, today: Date, ex: ExchangeRates, r: Result<Vec<Operand>, String>) -> bool {
        match bucket_outcome(self.lines@, today, ex) {
            Err(m) => r matches Err(e) && e@ == m,
            Ok(f) => (r matches Err(e) ==> bucket_result_holds(Err(e), f, today))
                && (r matches Ok(v) ==> v@.len() == 1 && exists|b: BucketAtDate| bucket_result_holds(Ok(b), f, today)
                    && #[trigger] operand_shows(v@[0], b, self.name@, self.archived_since)),
        }
    }

    fn build(self, period_configuration: &PeriodConfigurationVaultValue, today: &Date, exchange_rates: &ExchangeRates) -> (r: Result<Vec<Operand>, String>)
    {
        let found = self.for_period(period_configuration, today, exchange_rates);
        let period = match found {
            Ok(b) => b,
            Err(e) => {
                return Err(e);
            },
        };
        let mut illustration: Vec<(String, IllustrationValue)> = Vec::new();
        illustration.push((text("This period - recommended deposit"), IllustrationValue::from_option(period.current_recommended_deposit)));
        illustration.push((text("This period - actual deposit"), IllustrationValue::from_option(period.current_actual_deposit)));
        illustration.push((text("This period - actual withdrawal"), IllustrationValue::from_option(period.current_withdrawal)));
        illustration.push((text("Deposited"), IllustrationValue::Amount(period.total_deposit)));
        illustration.push((text("Withdrawn"), IllustrationValue::Amount(period.total_withdrawal)));
        illustration.push((text("Total"), IllustrationValue::Amount(period.total)));
        let operand = Operand {
            name: self.name,
            amount: period.recommended_or_actual_change.flip_sign(),
            illustration,
            archived_from: self.archived_since,
        };
        proof {
            assert(illustration_names(operand.illustration@) =~= seq!["This period - recommended deposit"@, "This period - actual deposit"@,
                "This period - actual withdrawal"@, "Deposited"@, "Withdrawn"@, "Total"@]);
            assert(operand_shows(operand, period, self.name@, self.archived_since));
        }
        let ghost shown = operand;
        let mut v: Vec<Operand> = Vec::new();
        v.push(operand);
        proof {
            assert(v@[0] == shown);
            if let Ok(f) = bucket_outcome(self.lines@, *today, *exchange_rates) {
                assert(bucket_result_holds(Ok(period), f, *today));
                assert(operand_shows(v@[0], period, self.name@, self.archived_since));
            }
        }
        Ok(v)
    }
}

/// The dated actions of the lines, in order.
fn dated_actions(lines: &Vec<Line>) -> (r: Vec<(Date, Action)>)
    ensures
        r@ == line_items(lines@),
{
    let mut r: Vec<(Date, Action)> = Vec::new();
    let mut i: usize = 0;
    while i < lines.len()
        invariant
            i <= lines@.len(),
            r@ == line_items(lines@).subrange(0, i as int),
        decreases lines.len() - i,
    {
        let line = &lines[i];
        r.push((line.0.0, line.0.1.duplicate()));
        i = i + 1;
        assert(r@ =~= line_items(lines@).subrange(0, i as int));
    }
    assert(line_items(lines@).subrange(0, i as int) =~= line_items(lines@));
    r
}

/// Applies the actions in turn to the totals; the first error stops it.
fn apply_all(agg: &mut AggregatedAmounts, actions: &Vec<Action>, Ghost(date): Ghost<Date>) -> (r: Result<(), String>)
    requires
        forall|i: int| 0 <= i < actions@.len() ==> action_ok(#[trigger] actions@[i], date),
    ensures
        final(agg).rates() == old(agg).rates(),
        final(agg).currency() == old(agg).currency(),
        match aggregate(old(agg).rates(), old(agg).currency(), old(agg).state(), actions@) {
            Ok(s) => r is Ok && final(agg).state() == s
                && final(agg).scales() == aggregate_scales(old(agg).rates(), old(agg).currency(), old(agg).state(), old(agg).scales(), actions@),
            Err(m) => r matches Err(e) && e@ == m,
        },
{
    let ghost ex = agg.rates();
    let ghost to = agg.currency();
    let ghost s0 = agg.state();
    let ghost sc0 = agg.scales();
    let mut i: usize = 0;
    while i < actions.len()
        invariant
            i <= actions@.len(),
            forall|k: int| 0 <= k < actions@.len() ==> action_ok(#[trigger] actions@[k], date),
            agg.rates() == ex,
            agg.currency() == to,
            old(agg).rates() == ex,
            old(agg).currency() == to,
            old(agg).state() == s0,
            old(agg).scales() == sc0,
            aggregate(ex, to, s0, actions@.subrange(0, i as int)) == Ok::<(int, int, int), Seq<char>>(agg.state()),
            aggregate_scales(ex, to, s0, sc0, actions@.subrange(0, i as int)) == agg.scales(),
        decreases actions.len() - i,
    {
        let ghost prefix = actions@.subrange(0, i + 1);
        assert(prefix.drop_last() =~= actions@.subrange(0, i as int));
        assert(prefix.last() == actions@[i as int]);
        let applied = agg.apply(&actions[i]);
        if applied.is_err() {
            proof {
                lemma_aggregate_error_sticks(ex, to, s0, actions@, i + 1);
            }
            return applied;
        }
        i = i + 1;
    }
    assert(actions@.subrange(0, i as int) =~= actions@);
    Ok(())
}

/// Whether some action is a deposit or the cancellation of one.
fn any_deposit(actions: &Vec<Action>) -> (r: bool)
    ensures
        r == has_deposit(actions@),
{
    let mut i: usize = 0;
    while i < actions.len()
        invariant
            i <= actions@.len(),
            forall|k: int| 0 <= k < i ==> !(#[trigger] actions@[k]).is_deposit_kind(),
        decreases actions.len() - i,
    {
        match &actions[i] {
            Action::Deposit(_) | Action::DepositCancellation(_) => {
                return true;
            },
            _ => {},
        }
        i = i + 1;
    }
    false
}

/// Whether some action is a withdrawal or the cancellation of one.
fn any_withdrawal(actions: &Vec<Action>) -> (r: bool)
    ensures
        r == has_withdrawal(actions@),
{
    let mut i: usize = 0;
    while i < actions.len()
        invariant
            i <= actions@.len(),
            forall|k: int| 0 <= k < i ==> !(#[trigger] actions@[k]).is_withdrawal_kind(),
        decreases actions.len() - i,
    {
        match &actions[i] {
            Action::Withdrawal(_) | Action::WithdrawalCancellation(_) => {
                return true;
            },
            _ => {},
        }
        i = i + 1;
    }
    false
}

/// What `find_target` tells of the targets of `actions`.
pub open spec fn target_found(ex: ExchangeRates, actions: Seq<Action>, found: Option<(Amount, Date)>, date: Date) -> bool {
    match last_target(actions) {
        None => found is None,
        Some((raw, d)) => found matches Some((a, d2)) && d2 == d && d.wf()
            && ex.spec_currency(raw.currency@) == Some(a.spec_currency())
            && cents_of(spec_round_dp2(raw.figure).0, spec_round_dp2(raw.figure).1) == a.cents()
            && a.spec_figure().scale == spec_round_dp2(raw.figure).1
            && (date.spec_le(d) ==> (d.year - date.year + 1) * 12 <= u16::MAX),
    }
}

/// The last target set among `first` then `second`, read as an amount,
/// with its date; every target's currency must be known.
fn find_target(ex: &ExchangeRates, first: &Vec<Action>, second: &Vec<Action>, Ghost(date): Ghost<Date>) -> (r: Result<Option<(Amount, Date)>, String>)
    requires
        ex.wf(),
        forall|i: int| 0 <= i < first@.len() ==> action_ok(#[trigger] first@[i], date),
        forall|i: int| 0 <= i < second@.len() ==> action_ok(#[trigger] second@[i], date),
    ensures
        match target_error(*ex, first@ + second@) {
            Some(m) => r matches Err(e) && e@ == m,
            None => r matches Ok(t) && target_found(*ex, first@ + second@, t, date),
        },
{
    assert(Seq::<Action>::empty() + first@ =~= first@);
    let found = scan_targets(ex, first, None, Ghost(Seq::empty()), Ghost(date));
    match found {
        Err(e) => {
            proof {
                assert((first@ + second@).subrange(0, first@.len() as int) =~= first@);
                lemma_target_error_sticks(*ex, first@, first@ + second@);
            }
            Err(e)
        },
        Ok(f) => scan_targets(ex, second, f, Ghost(first@), Ghost(date)),
    }
}

/// Continues `find_target` over `actions`, after the actions `prev`.
fn scan_targets(ex: &ExchangeRates, actions: &Vec<Action>, found: Option<(Amount, Date)>, Ghost(prev): Ghost<Seq<Action>>, Ghost(date): Ghost<Date>) -> (r: Result<Option<(Amount, Date)>, String>)
    requires
        ex.wf(),
        forall|i: int| 0 <= i < actions@.len() ==> action_ok(#[trigger] actions@[i], date),
        target_error(*ex, prev) is None,
        target_found(*ex, prev, found, date),
    ensures
        match target_error(*ex, prev + actions@) {
            Some(m) => r matches Err(e) && e@ == m,
            None => r matches Ok(t) && target_found(*ex, prev + actions@, t, date),
        },
{
    let ghost all = prev + actions@;
    let ghost k = prev.len();
    let mut found = found;
    let mut i: usize = 0;
    assert(all.subrange(0, k as int) =~= prev);
    while i < actions.len()
        invariant
            all == prev + actions@,
            k == prev.len(),
            i <= actions@.len(),
            ex.wf(),
            forall|j: int| 0 <= j < actions@.len() ==> action_ok(#[trigger] actions@[j], date),
            target_error(*ex, all.subrange(0, k + i)) is None,
            target_found(*ex, all.subrange(0, k + i), found, date),
        decreases actions.len() - i,
    {
        let action = &actions[i];
        let ghost prefix = all.subrange(0, k + i + 1);
        assert(prefix.drop_last() =~= all.subrange(0, k + i));
        assert(prefix.last() == actions@[i as int]);
        match action {
            Action::SetTarget { amount, target_date } => {
                let read = ex.new_amount_from_raw_amount(amount);
                match read {
                    Err(e) => {
                        proof {
                            lemma_target_error_sticks(*ex, prefix, all);
                        }
                        return Err(e);
                    },
                    Ok(a) => {
                        found = Some((a, *target_date));
                    },
                }
            },
            _ => {},
        }
        i = i + 1;
    }
    assert(all.subrange(0, k + i) =~= all);
    Ok(found)
}

/// Once a target's currency is unknown, no later line changes the error.
proof fn lemma_target_error_sticks(ex: ExchangeRates, prefix: Seq<Action>, all: Seq<Action>)
    requires
        prefix.len() <= all.len(),
        all.subrange(0, prefix.len() as int) == prefix,
        target_error(ex, prefix) is Some,
    ensures
        target_error(ex, all) == target_error(ex, prefix),
    decreases all.len(),
{
    if all.len() > prefix.len() {
        let shorter = all.drop_last();
        assert(shorter.subrange(0, prefix.len() as int) =~= prefix);
        lemma_target_error_sticks(ex, prefix, shorter);
    } else {
        assert(all =~= prefix);
    }
}

/// Once a line is refused, no later line changes the error.
proof fn lemma_aggregate_error_sticks(ex: ExchangeRates, to: Currency, s: (int, int, int), all: Seq<Action>, k: int)
    requires
        0 <= k <= all.len(),
        aggregate(ex, to, s, all.subrange(0, k)) is Err,
    ensures
        aggregate(ex, to, s, all) == aggregate(ex, to, s, all.subrange(0, k)),
    decreases all.len(),
{
    if all.len() > k {
        let shorter = all.drop_last();
        assert(shorter.subrange(0, k) =~= all.subrange(0, k));
        lemma_aggregate_error_sticks(ex, to, s, shorter, k);
    } else {
        assert(all.subrange(0, k) =~= all);
    }
}

/// The buckets of the vault.
pub type BucketsVaultValue = Vec<Bucket>;

/// The buckets of the vault form the group "Buckets".
impl GroupBuilder<Bucket> for BucketsVaultValue {
    open spec fn buildable(&self, today: Date, ex: ExchangeRates) -> bool {
        forall|i: int| 0 <= i < self@.len() ==> (#[trigger] self@[i]).readable_at(today)
    }

    open spec fn gives(&self, r: Result<(String, Vec<Bucket>), String>) -> bool {
        r matches Ok(p) && p.0@ == "Buckets"@ && p.1@ == self@
    }

    fn build(self) -> (r: Result<(String, Vec<Bucket>), String>) {
        Ok((text("Buckets"), self))
    }
}

} // verus!
