//! The "remaining this period" operation: named groups of operands
//! (accounts, buckets, ignored transactions, predicted income...), the
//! total of each group, and what remains for the period.
use vstd::prelude::*;
use crate::amounts::{Amount, Currency, ExchangeRates, Figure};
use crate::buckets::in_decimal_range;
use crate::date::Date;
use crate::operand::{Operand, IllustrationValue, illustration_names};
use crate::period::{Period, PeriodConfigurationVaultValue, month_period_result};
use crate::text::{text, join2, join3, texts, lemma_texts_push, debug_text, debug_list, debug_string, debug_strings, same_text};

verus! {

/// The names of the illustration fields of an operand.
pub open spec fn operand_fields(o: Operand) -> Seq<Seq<char>> {
    illustration_names(o.illustration@)
}

/// The error for an operand whose fields differ from those of its group.
pub open spec fn mismatch_message(name: Seq<char>, fields: Seq<Seq<char>>, expected: Seq<Seq<char>>) -> Seq<char> {
    "Adding an operand ("@ + debug_text(name) + ") whose fields ("@ + debug_list(fields)
        + ") does not match that of the rest of the operand in this group ("@ + debug_list(expected) + ")"@
}

/// The first operand from index `k` on whose fields differ from those of
/// the first operand.
pub open spec fn first_mismatch_from(ops: Seq<Operand>, k: int) -> Option<int>
    decreases ops.len() - k,
{
    if k < 0 || k >= ops.len() {
        None
    } else if operand_fields(ops[k]) != operand_fields(ops[0]) {
        Some(k)
    } else {
        first_mismatch_from(ops, k + 1)
    }
}

/// The sum of the amounts of `ops`, each converted to `to`, in hundredths
/// of `to`; or the first conversion or overflow error.
pub open spec fn sum_amounts(to: Currency, ops: Seq<Operand>) -> Result<int, Seq<char>>
    decreases ops.len(),
{
    if ops.len() == 0 {
        Ok(0)
    } else {
        match sum_amounts(to, ops.drop_last()) {
            Err(m) => Err(m),
            Ok(acc) => match ops.last().amount.spec_converted_cents(to) {
                None => Err("Amount conversion overflowed"@),
                Some(c) => if in_decimal_range(acc + c) {
                    Ok(acc + c)
                } else {
                    Err("Amount overflow"@)
                },
            },
        }
    }
}

/// The operand is archived on `today`: its archive date is not after it.
pub open spec fn is_archived(o: Operand, today: Date) -> bool {
    o.archived_from matches Some(d) && d.spec_le(today)
}

/// The operands of a group that are shown on `today`: those not archived.
pub open spec fn shown_operands(ops: Seq<Operand>, today: Date) -> Seq<Operand> {
    ops.filter(|o: Operand| !is_archived(o, today))
}

/// The archived operands whose amount is not zero: they still count.
pub open spec fn archived_with_amount(ops: Seq<Operand>, today: Date) -> Seq<Operand> {
    ops.filter(|o: Operand| is_archived(o, today) && o.amount.cents() != 0)
}

/// The names of operands.
pub open spec fn operand_names(ops: Seq<Operand>) -> Seq<Seq<char>> {
    ops.map_values(|o: Operand| o.name@)
}

/// A group of operands that all have the same illustration fields.
#[derive(Debug)]
pub struct Group {
    name: String,
    operands: Vec<Operand>,
    illustration_fields: Option<Vec<String>>,
}

impl Group {
    #[verifier::type_invariant]
    spec fn same_fields(self) -> bool {
        match self.illustration_fields {
            None => self.operands@.len() == 0,
            Some(f) => forall|i: int| 0 <= i < self.operands@.len() ==> operand_fields(#[trigger] self.operands@[i]) == texts(f@),
        }
    }

    /// The group's name.
    pub closed spec fn spec_name(self) -> Seq<char> {
        self.name@
    }

    /// The group's operands, in the order they were added.
    pub closed spec fn spec_operands(self) -> Seq<Operand> {
        self.operands@
    }

    /// The illustration fields of every operand; `None` before the first
    /// operand is added.
    pub closed spec fn spec_fields(self) -> Option<Seq<Seq<char>>> {
        match self.illustration_fields {
            None => None,
            Some(f) => Some(texts(f@)),
        }
    }

    /// The group has no operand before it has fields, and every operand
    /// has the group's fields.
    pub open spec fn fields_consistent(self) -> bool {
        &&& self.spec_fields() is None ==> self.spec_operands().len() == 0
        &&& self.spec_fields() matches Some(f) ==> forall|i: int| 0 <= i < self.spec_operands().len()
            ==> operand_fields(#[trigger] self.spec_operands()[i]) == f
    }

    /// Every operand of the group has the group's illustration fields.
    pub fn fields_agree(&self) -> (r: bool)
        ensures
            r,
            self.spec_fields() is None ==> self.spec_operands().len() == 0,
            self.spec_fields() matches Some(f) ==> forall|i: int| 0 <= i < self.spec_operands().len()
                ==> operand_fields(#[trigger] self.spec_operands()[i]) == f,
    {
        proof {
            use_type_invariant(self);
        }
        true
    }

    /// A group of the given operands, added in turn: all must have the
    /// illustration fields of the first one.
    pub fn new(name: &str, operands: Vec<Operand>) -> (r: Result<Group, String>)
        ensures
            group_of(name@, operands@, r),
    {
        let ghost all = operands@;
        let mut group = Group { name: text(name), operands: Vec::new(), illustration_fields: None };
        let mut rest = operands;
        // Reverse, so that popping gives the operands in order.
        let mut pending: Vec<Operand> = Vec::new();
        while rest.len() > 0
            invariant
                rest@.len() + pending@.len() == all.len(),
                rest@ == all.subrange(0, rest@.len() as int),
                forall|k: int| 0 <= k < pending@.len() ==> pending@[k] == all[all.len() - 1 - k],
            decreases rest@.len(),
        {
            let o = rest.pop().unwrap();
            pending.push(o);
            assert(rest@ =~= all.subrange(0, rest@.len() as int));
        }
        let n = pending.len();
        let mut i: usize = 0;
        assert(all.subrange(0, 0) =~= Seq::<Operand>::empty());
        while i < n
            invariant
                n == all.len(),
                all == operands@,
                i <= n,
                pending@.len() == n - i,
                forall|k: int| 0 <= k < pending@.len() ==> pending@[k] == all[n - 1 - k],
                group.spec_name() == name@,
                group.spec_operands() == all.subrange(0, i as int),
                i == 0 ==> group.spec_fields() is None,
                i > 0 ==> group.spec_fields() == Some(operand_fields(all[0])),
                first_mismatch_from(all, 0) == first_mismatch_from(all, i as int),
            decreases n - i,
        {
            let o = pending.pop().unwrap();
            assert(o == all[i as int]);
            let added = group.add_operands(o);
            if let Err(e) = added {
                proof {
                    assert(i > 0);
                    assert(operand_fields(all[i as int]) != operand_fields(all[0]));
                    assert(first_mismatch_from(all, i as int) == Some(i as int));
                    assert(e@ == mismatch_message(all[i as int].name@, operand_fields(all[i as int]), operand_fields(all[0])));
                }
                return Err(e);
            }
            proof {
                if i == 0 {
                    assert(operand_fields(all[0]) == operand_fields(all[0]));
                }
            }
            i = i + 1;
            assert(group.spec_operands() =~= all.subrange(0, i as int));
        }
        assert(all.subrange(0, n as int) =~= all);
        Ok(group)
    }

    /// Adds an operand, which must have the illustration fields of those
    /// already in the group; on an error the group is unchanged.
    pub fn add_operands(&mut self, o: Operand) -> (r: Result<(), String>)
        ensures
            old(self).fields_consistent() && final(self).fields_consistent(),
            final(self).spec_name() == old(self).spec_name(),
            match old(self).spec_fields() {
                None => r is Ok && final(self).spec_fields() == Some(operand_fields(o))
                    && final(self).spec_operands() == old(self).spec_operands().push(o),
                Some(f) => if operand_fields(o) == f {
                    r is Ok && final(self).spec_fields() == Some(f) && final(self).spec_operands() == old(self).spec_operands().push(o)
                } else {
                    r matches Err(e) && e@ == mismatch_message(o.name@, operand_fields(o), f) && *final(self) == *old(self)
                },
            },
    {
        proof {
            use_type_invariant(&*self);
        }
        let field_names = field_names_of(&o);
        let r = self.add_checked(o, field_names);
        proof {
            use_type_invariant(&*self);
        }
        r
    }

    fn add_checked(&mut self, o: Operand, field_names: Vec<String>) -> (r: Result<(), String>)
        requires
            texts(field_names@) == operand_fields(o),
        ensures
            final(self).spec_name() == old(self).spec_name(),
            match old(self).spec_fields() {
                None => r is Ok && final(self).spec_fields() == Some(operand_fields(o))
                    && final(self).spec_operands() == old(self).spec_operands().push(o),
                Some(f) => if operand_fields(o) == f {
                    r is Ok && final(self).spec_fields() == Some(f) && final(self).spec_operands() == old(self).spec_operands().push(o)
                } else {
                    r matches Err(e) && e@ == mismatch_message(o.name@, operand_fields(o), f) && *final(self) == *old(self)
                },
            },
    {
        proof {
            use_type_invariant(&*self);
        }
        match &self.illustration_fields {
            None => {
                let mut operands = Vec::new();
                std::mem::swap(&mut operands, &mut self.operands);
                operands.push(o);
                self.illustration_fields = Some(field_names);
                self.operands = operands;
                Ok(())
            },
            Some(fields) => {
                if !same_texts(&field_names, fields) {
                    let message = join3("Adding an operand (", debug_string(o.name.as_str()).as_str(), ") whose fields (");
                    let message = join3(message.as_str(), debug_strings(&field_names).as_str(),
                        ") does not match that of the rest of the operand in this group (");
                    let message = join3(message.as_str(), debug_strings(fields).as_str(), ")");
                    return Err(message);
                }
                let ghost before = self.operands@;
                let mut operands = Vec::new();
                std::mem::swap(&mut operands, &mut self.operands);
                operands.push(o);
                proof {
                    assert forall|i: int| 0 <= i < operands@.len() implies operand_fields(#[trigger] operands@[i]) == texts(fields@) by {
                        if i < before.len() {
                            assert(operands@[i] == before[i]);
                        }
                    }
                }
                self.operands = operands;
                Ok(())
            },
        }
    }

    /// The group's name.
    pub fn name(&self) -> (r: &String)
        ensures
            r@ == self.spec_name(),
    {
        &self.name
    }

    /// The group's operands.
    pub fn operands(&self) -> (r: &Vec<Operand>)
        ensures
            r@ == self.spec_operands(),
    {
        &self.operands
    }

    /// The group as shown on the screen on `today`: the operands that are
    /// not archived, the names of the archived ones whose amount is not
    /// zero, and the total of all operands in the target currency.
    pub fn into_remaining_operation_screen_group(self, exchange_rates: &ExchangeRates, target_currency: &str, today: &Date) -> (r: Result<RemainingOperationScreenGroup, String>)
        requires
            exchange_rates.wf(),
        ensures
            match exchange_rates.spec_currency(target_currency@) {
                None => r matches Err(e) && e@ == "Could not find currency ident: "@ + target_currency@,
                Some(c) => match sum_amounts(c, self.spec_operands()) {
                    Err(m) => r matches Err(e) && e@ == m,
                    Ok(t) => r matches Ok(g) && g.shows(self, c, t, *today),
                },
            },
    {
        self.screen_group(exchange_rates, target_currency, today)
    }

    /// See `into_remaining_operation_screen_group`.
    pub fn screen_group(&self, exchange_rates: &ExchangeRates, target_currency: &str, today: &Date) -> (r: Result<RemainingOperationScreenGroup, String>)
        requires
            exchange_rates.wf(),
        ensures
            match exchange_rates.spec_currency(target_currency@) {
                None => r matches Err(e) && e@ == "Could not find currency ident: "@ + target_currency@,
                Some(c) => match sum_amounts(c, self.spec_operands()) {
                    Err(m) => r matches Err(e) && e@ == m,
                    Ok(t) => r matches Ok(g) && g.shows(*self, c, t, *today),
                },
            },
    {
        proof {
            use_type_invariant(self);
        }
        let ghost ops = self.operands@;
        let total = sum_operands(exchange_rates, target_currency, &self.operands)?;
        let fields: Vec<String> = match &self.illustration_fields {
            Some(f) => copy_strings(f),
            None => Vec::new(),
        };
        let mut shown: Vec<RemainingOperationScreenOperand> = Vec::new();
        let mut archived: Vec<String> = Vec::new();
        let n = self.operands.len();
        let mut i: usize = 0;
        proof {
            reveal(Seq::filter);
            assert(ops.subrange(0, 0) =~= Seq::<Operand>::empty());
        }
        while i < n
            invariant
                n == ops.len(),
                ops == self.operands@,
                i <= n,
                screen_operands_show(shown@, shown_operands(ops.subrange(0, i as int), *today)),
                texts(archived@) == operand_names(archived_with_amount(ops.subrange(0, i as int), *today)),
            decreases n - i,
        {
            let o = &self.operands[i];
            let ghost prefix = ops.subrange(0, i as int);
            assert(ops.subrange(0, i + 1) =~= prefix.push(*o));
            proof {
                prefix.lemma_filter_push(*o, |x: Operand| !is_archived(x, *today));
                prefix.lemma_filter_push(*o, |x: Operand| is_archived(x, *today) && x.amount.cents() != 0);
            }
            let is_old = match o.archived_from {
                Some(d) => d.is_before_or_on(today),
                None => false,
            };
            if is_old {
                if o.amount.in_cents() != 0 {
                    let ghost before = archived@;
                    archived.push(o.name.clone());
                    proof {
                        let f = archived_with_amount(prefix, *today);
                        assert(texts(archived@) =~= texts(before).push(o.name@));
                        assert(operand_names(f.push(*o)) =~= operand_names(f).push(o.name@));
                    }
                }
            } else {
                let ghost before = shown@;
                let copy = o.duplicate();
                shown.push(RemainingOperationScreenOperand { name: copy.name, amount: copy.amount, illustration: copy.illustration });
                proof {
                    let f = shown_operands(prefix, *today);
                    assert(shown_operands(ops.subrange(0, i + 1), *today) == f.push(*o));
                    assert forall|k: int| 0 <= k < shown@.len() implies #[trigger] screen_operand_shows(shown@[k], f.push(*o)[k]) by {
                        if k < before.len() {
                            assert(shown@[k] == before[k]);
                        }
                    }
                }
            }
            i = i + 1;
        }
        assert(ops.subrange(0, n as int) =~= ops);
        let g = RemainingOperationScreenGroup {
            name: self.name.clone(),
            operands: shown,
            illustration_fields: fields,
            total,
            archived_operand_with_non_zero_amounts: archived,
        };
        proof {
            let c = exchange_rates.spec_currency(target_currency@)->Some_0;
            assert(g.name@ == self.spec_name());
            assert(screen_operands_show(g.operands@, shown_operands(ops, *today)));
            assert(texts(g.archived_operand_with_non_zero_amounts@) == operand_names(archived_with_amount(ops, *today)));
            assert(texts(g.illustration_fields@) == (match self.spec_fields() { Some(f) => f, None => Seq::empty() }));
            assert(g.total.spec_currency() == c);
        }
        Ok(g)
    }
}

/// A copy of the strings.
fn copy_strings(v: &Vec<String>) -> (r: Vec<String>)
    ensures
        texts(r@) == texts(v@),
{
    let mut r: Vec<String> = Vec::new();
    let mut i: usize = 0;
    while i < v.len()
        invariant
            i <= v@.len(),
            texts(r@) == texts(v@.subrange(0, i as int)),
        decreases v.len() - i,
    {
        let ghost before = r@;
        r.push(v[i].clone());
        proof {
            lemma_texts_push(before, v@[i as int]);
            assert(v@.subrange(0, i + 1) =~= v@.subrange(0, i as int).push(v@[i as int]));
            lemma_texts_push(v@.subrange(0, i as int), v@[i as int]);
        }
        i = i + 1;
    }
    assert(v@.subrange(0, i as int) =~= v@);
    r
}

/// The names of an operand's illustration fields.
fn field_names_of(o: &Operand) -> (r: Vec<String>)
    ensures
        texts(r@) == operand_fields(*o),
{
    let mut r: Vec<String> = Vec::new();
    let mut i: usize = 0;
    while i < o.illustration.len()
        invariant
            i <= o.illustration@.len(),
            texts(r@) == illustration_names(o.illustration@.subrange(0, i as int)),
        decreases o.illustration.len() - i,
    {
        let ghost before = r@;
        r.push(o.illustration[i].0.clone());
        proof {
            assert(texts(r@) =~= texts(before).push(o.illustration@[i as int].0@));
            assert(illustration_names(o.illustration@.subrange(0, i + 1)) =~= illustration_names(o.illustration@.subrange(0, i as int)).push(o.illustration@[i as int].0@));
        }
        i = i + 1;
    }
    assert(o.illustration@.subrange(0, i as int) =~= o.illustration@);
    r
}

/// Whether two lists of strings hold the same texts, in the same order.
fn same_texts(a: &Vec<String>, b: &Vec<String>) -> (r: bool)
    ensures
        r == (texts(a@) == texts(b@)),
{
    if a.len() != b.len() {
        assert(texts(a@).len() != texts(b@).len());
        return false;
    }
    let mut i: usize = 0;
    while i < a.len()
        invariant
            a@.len() == b@.len(),
            i <= a@.len(),
            forall|k: int| 0 <= k < i ==> a@[k]@ == b@[k]@,
        decreases a.len() - i,
    {
        if !same_text(a[i].as_str(), b[i].as_str()) {
            assert(texts(a@)[i as int] != texts(b@)[i as int]);
            return false;
        }
        i = i + 1;
    }
    assert(texts(a@) =~= texts(b@));
    true
}

/// The sum of the operands' amounts, in the target currency, from zero.
fn sum_operands(exchange_rates: &ExchangeRates, target_currency: &str, operands: &Vec<Operand>) -> (r: Result<Amount, String>)
    requires
        exchange_rates.wf(),
    ensures
        match exchange_rates.spec_currency(target_currency@) {
            None => r matches Err(e) && e@ == "Could not find currency ident: "@ + target_currency@,
            Some(c) => match sum_amounts(c, operands@) {
                Err(m) => r matches Err(e) && e@ == m,
                Ok(t) => r matches Ok(a) && a.cents() == t && a.spec_currency() == c,
            },
        },
{
    let mut total = exchange_rates.new_amount(target_currency, Figure::from_int(0))?;
    let ghost c = total.spec_currency();
    let mut i: usize = 0;
    while i < operands.len()
        invariant
            i <= operands@.len(),
            exchange_rates.spec_currency(target_currency@) == Some(c),
            total.spec_currency() == c,
            sum_amounts(c, operands@.subrange(0, i as int)) == Ok::<int, Seq<char>>(total.cents()),
        decreases operands.len() - i,
    {
        let ghost prefix = operands@.subrange(0, i + 1);
        assert(prefix.drop_last() =~= operands@.subrange(0, i as int));
        assert(prefix.last() == operands@[i as int]);
        let added = total.add(&operands[i].amount);
        match added {
            Ok(t) => {
                total = t;
            },
            Err(e) => {
                proof {
                    lemma_sum_error_sticks(c, operands@, i + 1);
                }
                return Err(e);
            },
        }
        i = i + 1;
    }
    assert(operands@.subrange(0, i as int) =~= operands@);
    Ok(total)
}

/// Once the sum fails, adding more operands does not change the error.
proof fn lemma_sum_error_sticks(to: Currency, all: Seq<Operand>, k: int)
    requires
        0 <= k <= all.len(),
        sum_amounts(to, all.subrange(0, k)) is Err,
    ensures
        sum_amounts(to, all) == sum_amounts(to, all.subrange(0, k)),
    decreases all.len(),
{
    if all.len() > k {
        let shorter = all.drop_last();
        assert(shorter.subrange(0, k) =~= all.subrange(0, k));
        lemma_sum_error_sticks(to, shorter, k);
    } else {
        assert(all.subrange(0, k) =~= all);
    }
}

/// An operand as the screen shows it.
#[derive(Debug)]
pub struct RemainingOperationScreenOperand {
    pub name: String,
    pub amount: Amount,
    pub illustration: Vec<(String, IllustrationValue)>,
}

/// The screen operand shows operand `o`.
pub open spec fn screen_operand_shows(s: RemainingOperationScreenOperand, o: Operand) -> bool {
    s.name@ == o.name@ && s.amount == o.amount && s.illustration@ == o.illustration@
}

/// The screen operands show the operands `ops`, in order.
pub open spec fn screen_operands_show(s: Seq<RemainingOperationScreenOperand>, ops: Seq<Operand>) -> bool {
    s.len() == ops.len() && forall|k: int| 0 <= k < s.len() ==> #[trigger] screen_operand_shows(s[k], ops[k])
}

/// A group as the screen shows it.
#[derive(Debug)]
pub struct RemainingOperationScreenGroup {
    pub name: String,
    pub operands: Vec<RemainingOperationScreenOperand>,
    pub illustration_fields: Vec<String>,
    pub total: Amount,
    pub archived_operand_with_non_zero_amounts: Vec<String>,
}

impl RemainingOperationScreenGroup {
    /// The screen group shows group `g` on `today`, its total being `t`
    /// hundredths of `c`.
    pub open spec fn shows(self, g: Group, c: Currency, t: int, today: Date) -> bool {
        &&& self.name@ == g.spec_name()
        &&& screen_operands_show(self.operands@, shown_operands(g.spec_operands(), today))
        &&& texts(self.archived_operand_with_non_zero_amounts@) == operand_names(archived_with_amount(g.spec_operands(), today))
        &&& texts(self.illustration_fields@) == (match g.spec_fields() {
            Some(f) => f,
            None => Seq::empty(),
        })
        &&& self.total.cents() == t
        &&& self.total.spec_currency() == c
    }

    /// The group shows no operand.
    pub fn empty(&self) -> (r: bool)
        ensures
            r == (self.operands@.len() == 0),
    {
        self.operands.len() == 0
    }
}

/// The screen of the remaining operation: the period, each group, and
/// what remains.
#[derive(Debug)]
pub struct RemainingOperationScreen {
    pub groups: Vec<RemainingOperationScreenGroup>,
    pub remaining: Amount,
    pub period: Period,
}

/// The screen group shows group `g` on `today`, with its total in `c`.
pub open spec fn group_shown(sg: RemainingOperationScreenGroup, g: Group, c: Currency, today: Date) -> bool {
    sum_amounts(c, g.spec_operands()) matches Ok(t) && sg.shows(g, c, t, today)
}

/// The first group whose total cannot be computed in `c`, and why.
pub open spec fn first_group_error(c: Currency, groups: Seq<Group>) -> Option<Seq<char>>
    decreases groups.len(),
{
    if groups.len() == 0 {
        None
    } else {
        match first_group_error(c, groups.drop_last()) {
            Some(m) => Some(m),
            None => match sum_amounts(c, groups.last().spec_operands()) {
                Err(m) => Some(m),
                Ok(_) => None,
            },
        }
    }
}

/// The sum of the groups' totals in `c`, in hundredths (each total being
/// known), or the overflow that stops it.
pub open spec fn sum_totals(c: Currency, groups: Seq<Group>) -> Result<int, Seq<char>>
    decreases groups.len(),
{
    if groups.len() == 0 {
        Ok(0)
    } else {
        match sum_totals(c, groups.drop_last()) {
            Err(m) => Err(m),
            Ok(acc) => match sum_amounts(c, groups.last().spec_operands()) {
                Err(m) => Err(m),
                Ok(t) => if in_decimal_range(acc + t) {
                    Ok(acc + t)
                } else {
                    Err("Amount overflow"@)
                },
            },
        }
    }
}

/// The remaining operation: groups of operands at a date, with the periods
/// configuration and the exchange rates.
#[derive(Debug)]
pub struct RemainingOperation {
    groups: Vec<Group>,
    periods_configuration: PeriodConfigurationVaultValue,
    date: Date,
    exchange_rates: ExchangeRates,
}

impl RemainingOperation {
    /// The groups, in the order they were added.
    pub closed spec fn spec_groups(self) -> Seq<Group> {
        self.groups@
    }

    /// The date of the operation.
    pub closed spec fn spec_date(self) -> Date {
        self.date
    }

    /// The exchange rates of the operation.
    pub closed spec fn spec_rates(self) -> ExchangeRates {
        self.exchange_rates
    }

    /// An operation with no group yet.
    pub fn new(periods_configuration: PeriodConfigurationVaultValue, date: Date, exchange_rates: ExchangeRates) -> (r: RemainingOperation)
        ensures
            r.spec_groups().len() == 0,
            r.spec_date() == date,
            r.spec_rates() == exchange_rates,
    {
        RemainingOperation { groups: Vec::new(), periods_configuration, date, exchange_rates }
    }

    /// The periods configuration of the operation.
    pub closed spec fn spec_periods_configuration(self) -> PeriodConfigurationVaultValue {
        self.periods_configuration
    }

    /// Adds, after the others, the group that `builder` gives at the date
    /// of the operation (see `Group::from_group_builder`); on an error the
    /// operation is unchanged.
    pub fn add_group<O: OperandBuilder, B: GroupBuilder<O>>(&mut self, builder: B) -> (r: Result<(), String>)
        requires
            old(self).spec_date().wf(),
            old(self).spec_rates().wf(),
            builder.buildable(old(self).spec_date(), old(self).spec_rates()),
        ensures
            final(self).spec_date() == old(self).spec_date(),
            final(self).spec_rates() == old(self).spec_rates(),
            final(self).spec_periods_configuration() == old(self).spec_periods_configuration(),
            match r {
                Ok(()) => final(self).spec_groups().len() == old(self).spec_groups().len() + 1
                    && final(self).spec_groups().drop_last() == old(self).spec_groups()
                    && group_outcome(builder, old(self).spec_periods_configuration(), old(self).spec_date(), old(self).spec_rates(),
                        Ok(final(self).spec_groups().last())),
                Err(e) => final(self).spec_groups() == old(self).spec_groups()
                    && group_outcome(builder, old(self).spec_periods_configuration(), old(self).spec_date(), old(self).spec_rates(), Err(e)),
            },
    {
        let group = Group::from_group_builder(builder, &self.exchange_rates, &self.periods_configuration, &self.date)?;
        let ghost g = group;
        self.groups.push(group);
        assert(self.groups@.drop_last() =~= old(self).groups@);
        assert(self.groups@.last() == g);
        Ok(())
    }

    /// The screen in the target currency: the calendar month of the date,
    /// each group as shown on the date, and what remains: the sum of the
    /// groups' totals.
    pub fn execute(&self, target_currency: &str) -> (r: Result<RemainingOperationScreen, String>)
        requires
            self.spec_date().wf(),
            self.spec_rates().wf(),
        ensures
            match month_period_result(self.spec_date().year as int, self.spec_date().month as int) {
                Err(m) => r matches Err(e) && e@ == "Failed to fetch Periods Configuration: "@ + m,
                Ok(p) => match self.spec_rates().spec_currency(target_currency@) {
                    None => r matches Err(e) && e@ == "Could not find currency ident: "@ + target_currency@,
                    Some(c) => match first_group_error(c, self.spec_groups()) {
                        Some(m) => r matches Err(e) && e@ == m,
                        None => match sum_totals(c, self.spec_groups()) {
                            Err(m) => r matches Err(e) && e@ == m,
                            Ok(t) => r matches Ok(s) && s.period == p && s.remaining.cents() == t
                                && s.remaining.spec_currency() == c && s.groups@.len() == self.spec_groups().len()
                                && forall|i: int| 0 <= i < s.groups@.len() ==> #[trigger] group_shown(s.groups@[i], self.spec_groups()[i], c, self.spec_date()),
                        },
                    },
                },
            },
    {
        let current_period = match self.periods_configuration.period_for_date(&self.date) {
            Ok(p) => p,
            Err(e) => {
                return Err(join2("Failed to fetch Periods Configuration: ", e.as_str()));
            },
        };
        let ghost groups = self.groups@;
        let mut screens: Vec<RemainingOperationScreenGroup> = Vec::new();
        let ghost c = self.exchange_rates.spec_currency(target_currency@)->Some_0;
        let mut i: usize = 0;
        while i < self.groups.len()
            invariant
                groups == self.groups@,
                i <= groups.len(),
                self.exchange_rates.wf(),
                c == self.exchange_rates.spec_currency(target_currency@)->Some_0,
                month_period_result(self.date.year as int, self.date.month as int) is Ok,
                i > 0 ==> self.exchange_rates.spec_currency(target_currency@) == Some(c),
                first_group_error(c, groups.subrange(0, i as int)) is None,
                screens@.len() == i,
                forall|k: int| 0 <= k < i ==> #[trigger] group_shown(screens@[k], groups[k], c, self.date),
            decreases groups.len() - i,
        {
            let ghost prefix = groups.subrange(0, i + 1);
            assert(prefix.drop_last() =~= groups.subrange(0, i as int));
            assert(prefix.last() == groups[i as int]);
            let screen = self.groups[i].screen_group(&self.exchange_rates, target_currency, &self.date);
            match screen {
                Ok(g) => {
                    screens.push(g);
                },
                Err(e) => {
                    proof {
                        if self.exchange_rates.spec_currency(target_currency@) is Some {
                            lemma_group_error_sticks(c, groups, i + 1);
                        }
                    }
                    return Err(e);
                },
            }
            i = i + 1;
        }
        assert(groups.subrange(0, i as int) =~= groups);
        let mut remaining = self.exchange_rates.new_amount(target_currency, Figure::from_int(0))?;
        let mut k: usize = 0;
        while k < screens.len()
            invariant
                groups == self.groups@,
                screens@.len() == groups.len(),
                k <= screens@.len(),
                first_group_error(c, groups) is None,
                month_period_result(self.date.year as int, self.date.month as int) is Ok,
                self.exchange_rates.spec_currency(target_currency@) == Some(c),
                remaining.spec_currency() == c,
                forall|j: int| 0 <= j < screens@.len() ==> #[trigger] group_shown(screens@[j], groups[j], c, self.date),
                sum_totals(c, groups.subrange(0, k as int)) == Ok::<int, Seq<char>>(remaining.cents()),
            decreases screens.len() - k,
        {
            let ghost prefix = groups.subrange(0, k + 1);
            assert(prefix.drop_last() =~= groups.subrange(0, k as int));
            assert(prefix.last() == groups[k as int]);
            assert(group_shown(screens@[k as int], groups[k as int], c, self.date));
            let added = remaining.add(&screens[k].total);
            match added {
                Ok(a) => {
                    remaining = a;
                },
                Err(e) => {
                    proof {
                        lemma_totals_error_sticks(c, groups, k + 1);
                    }
                    return Err(e);
                },
            }
            k = k + 1;
        }
        assert(groups.subrange(0, k as int) =~= groups);
        Ok(RemainingOperationScreen { groups: screens, remaining, period: current_period })
    }
}

proof fn lemma_group_error_sticks(c: Currency, all: Seq<Group>, k: int)
    requires
        0 <= k <= all.len(),
        first_group_error(c, all.subrange(0, k)) is Some,
    ensures
        first_group_error(c, all) == first_group_error(c, all.subrange(0, k)),
    decreases all.len(),
{
    if all.len() > k {
        let shorter = all.drop_last();
        assert(shorter.subrange(0, k) =~= all.subrange(0, k));
        lemma_group_error_sticks(c, shorter, k);
    } else {
        assert(all.subrange(0, k) =~= all);
    }
}

proof fn lemma_totals_error_sticks(c: Currency, all: Seq<Group>, k: int)
    requires
        0 <= k <= all.len(),
        sum_totals(c, all.subrange(0, k)) is Err,
    ensures
        sum_totals(c, all) == sum_totals(c, all.subrange(0, k)),
    decreases all.len(),
{
    if all.len() > k {
        let shorter = all.drop_last();
        assert(shorter.subrange(0, k) =~= all.subrange(0, k));
        lemma_totals_error_sticks(c, shorter, k);
    } else {
        assert(all.subrange(0, k) =~= all);
    }
}

/// Something that gives the operands of one item of a group (an account, a
/// bucket, a transaction...): none, one or more.
pub trait OperandBuilder: Sized {
    /// What the builder needs to build at `today` with the rates `ex`.
    spec fn buildable(&self, today: Date, ex: ExchangeRates) -> bool;

    /// `r` is what the builder gives.
    spec fn builds(&self, pc: PeriodConfigurationVaultValue, today: Date, ex: ExchangeRates, r: Result<Vec<Operand>, String>) -> bool;

    /// The operands of the item at `today`.
    fn build(self, period_configuration: &PeriodConfigurationVaultValue, today: &Date, exchange_rates: &ExchangeRates) -> (r: Result<Vec<Operand>, String>)
        requires
            today.wf(),
            exchange_rates.wf(),
            self.buildable(*today, *exchange_rates),
        ensures
            self.builds(*period_configuration, *today, *exchange_rates, r),
    ;
}

/// What gives a group its name and the builders of its operands.
pub trait GroupBuilder<B: OperandBuilder>: Sized {
    /// Every builder that the group gives can build at `today` with `ex`.
    spec fn buildable(&self, today: Date, ex: ExchangeRates) -> bool;

    /// `r` is what the group builder gives.
    spec fn gives(&self, r: Result<(String, Vec<B>), String>) -> bool;

    /// The name of the group and the builders of its operands.
    fn build(self) -> (r: Result<(String, Vec<B>), String>)
        ensures
            self.gives(r),
            forall|t: Date, e: ExchangeRates| #[trigger] self.buildable(t, e) ==> (r matches Ok(p)
                ==> forall|i: int| 0 <= i < p.1@.len() ==> (#[trigger] p.1@[i]).buildable(t, e)),
    ;
}

/// The operands of the sequences, in order.
pub open spec fn built_operands(outs: Seq<Vec<Operand>>) -> Seq<Operand>
    decreases outs.len(),
{
    if outs.len() == 0 {
        Seq::empty()
    } else {
        built_operands(outs.drop_last()) + outs.last()@
    }
}

/// Each builder of `bs` gives the operands at the same position of `outs`.
pub open spec fn all_build<O: OperandBuilder>(bs: Seq<O>, pc: PeriodConfigurationVaultValue, today: Date, ex: ExchangeRates, outs: Seq<Vec<Operand>>) -> bool {
    &&& outs.len() == bs.len()
    &&& forall|i: int| 0 <= i < bs.len() ==> #[trigger] bs[i].builds(pc, today, ex, Ok(outs[i]))
}

/// What a group builder makes of its builders: the group builder's error;
/// or, its builders taken in order, the error of the first that fails; or
/// the group of the given name holding the operands of all (see
/// `group_of`).
pub open spec fn group_outcome<O: OperandBuilder, B: GroupBuilder<O>>(b: B, pc: PeriodConfigurationVaultValue, today: Date, ex: ExchangeRates, r: Result<Group, String>) -> bool {
    ||| (r matches Err(e) && b.gives(Err(e)))
    ||| exists|name: String, bs: Vec<O>, outs: Seq<Vec<Operand>>|
        #![trigger b.gives(Ok((name, bs))), all_build(bs@.take(outs.len() as int), pc, today, ex, outs)]
        b.gives(Ok((name, bs))) && all_build(bs@.take(outs.len() as int), pc, today, ex, outs)
        && if outs.len() == bs@.len() {
            group_of(name@, built_operands(outs), r)
        } else {
            outs.len() < bs@.len() && (r matches Err(e) && bs@[outs.len() as int].builds(pc, today, ex, Err(e)))
        }
}

/// What `Group::new` gives for a name and operands.
pub open spec fn group_of(name: Seq<char>, operands: Seq<Operand>, r: Result<Group, String>) -> bool {
    match first_mismatch_from(operands, 0) {
        None => r matches Ok(g) && g.spec_name() == name && g.spec_operands() == operands
            && g.spec_fields() == (if operands.len() == 0 { None } else { Some(operand_fields(operands[0])) }),
        Some(i) => r matches Err(e) && e@ == mismatch_message(operands[i].name@, operand_fields(operands[i]),
            operand_fields(operands[0])),
    }
}

impl Group {
    /// The group that a group builder gives: its name, and the operands
    /// of its builders built in turn at `today` (see `group_outcome`).
    pub fn from_group_builder<O: OperandBuilder, B: GroupBuilder<O>>(group_builder: B, exchange_rates: &ExchangeRates, period_configuration: &PeriodConfigurationVaultValue, today: &Date) -> (r: Result<Group, String>)
        requires
            today.wf(),
            exchange_rates.wf(),
            group_builder.buildable(*today, *exchange_rates),
        ensures
            group_outcome(group_builder, *period_configuration, *today, *exchange_rates, r),
    {
        let ghost gb = group_builder;
        let built = group_builder.build();
        let (name, builders) = match built {
            Ok(p) => p,
            Err(e) => {
                return Err(e);
            },
        };
        let ghost bs = builders;
        let ghost all = builders@;
        assert(gb.gives(Ok((name, bs))));
        let mut rest = builders;
        let mut pending: Vec<O> = Vec::new();
        while rest.len() > 0
            invariant
                rest@.len() + pending@.len() == all.len(),
                rest@ == all.subrange(0, rest@.len() as int),
                forall|k: int| 0 <= k < pending@.len() ==> pending@[k] == all[all.len() - 1 - k],
            decreases rest@.len(),
        {
            let o = rest.pop().unwrap();
            pending.push(o);
            assert(rest@ =~= all.subrange(0, rest@.len() as int));
        }
        let n = pending.len();
        let mut operands: Vec<Operand> = Vec::new();
        let ghost mut outs: Seq<Vec<Operand>> = Seq::empty();
        let mut i: usize = 0;
        assert(all.take(0) =~= Seq::<O>::empty());
        while i < n
            invariant
                n == all.len(),
                all == bs@,
                i <= n,
                pending@.len() == n - i,
                forall|k: int| 0 <= k < pending@.len() ==> pending@[k] == all[n - 1 - k],
                forall|k: int| 0 <= k < all.len() ==> (#[trigger] all[k]).buildable(*today, *exchange_rates),
                today.wf(),
                exchange_rates.wf(),
                outs.len() == i,
                gb == group_builder,
                gb.gives(Ok((name, bs))),
                all_build(all.take(i as int), *period_configuration, *today, *exchange_rates, outs),
                operands@ == built_operands(outs),
            decreases n - i,
        {
            let builder = pending.pop().unwrap();
            assert(builder == all[i as int]);
            let result = builder.build(period_configuration, today, exchange_rates);
            match result {
                Ok(v) => {
                    let ghost before = outs;
                    let mut v = v;
                    proof {
                        outs = outs.push(v);
                        assert(outs.drop_last() =~= before);
                        assert(all.take(i + 1).drop_last() =~= all.take(i as int));
                        assert forall|k: int| 0 <= k < i + 1 implies #[trigger] all.take(i + 1)[k].builds(*period_configuration, *today, *exchange_rates, Ok(outs[k])) by {
                            if k < i {
                                assert(all.take(i + 1)[k] == all.take(i as int)[k]);
                                assert(outs[k] == before[k]);
                            } else {
                                assert(all.take(i + 1)[k] == all[i as int]);
                            }
                        }
                    }
                    operands.append(&mut v);
                    assert(operands@ =~= built_operands(outs));
                },
                Err(e) => {
                    proof {
                        assert(all_build(bs@.take(outs.len() as int), *period_configuration, *today, *exchange_rates, outs));
                        assert(bs@[outs.len() as int].builds(*period_configuration, *today, *exchange_rates, Err(e)));
                        assert(group_outcome(gb, *period_configuration, *today, *exchange_rates, Err(e)));
                    }
                    return Err(e);
                },
            }
            i = i + 1;
        }
        assert(all.take(n as int) =~= all);
        let r = Group::new(name.as_str(), operands);
        assert(all_build(bs@.take(outs.len() as int), *period_configuration, *today, *exchange_rates, outs));
        r
    }
}

/// How the totals of groups combine.
#[derive(Clone, Copy, Debug, PartialEq, Eq, Structural)]
pub enum GroupCombinations {
    ADD,
    SUBTRACT,
}

} // verus!
