//! A list of dated elements guaranteed to be in chronological order.
use vstd::prelude::*;
use crate::date::Date;
use crate::period::Period;
use crate::text::{join2, join3};
use crate::date::spec_date_text;

verus! {

/// The dates of `items` never decrease.
pub open spec fn chronological<E>(items: Seq<(Date, E)>) -> bool {
    forall|i: int, j: int| 0 <= i < j < items.len() ==> (#[trigger] items[i]).0.spec_le((#[trigger] items[j]).0)
}

/// No item is dated before the one that precedes it.
pub open spec fn no_step_back<E>(items: Seq<(Date, E)>) -> bool {
    forall|i: int| 0 <= i < items.len() - 1 ==> !(#[trigger] items[i + 1]).0.spec_lt(items[i].0)
}

/// The elements of dated items, without their dates.
pub open spec fn elements<E>(items: Seq<(Date, E)>) -> Seq<E> {
    items.map_values(|x: (Date, E)| x.1)
}

/// The message that reports the first item dated before the one preceding
/// it, looking from index `k` on; `None` where there is none.
pub open spec fn chronology_error_from<E>(items: Seq<(Date, E)>, k: int) -> Option<Seq<char>>
    decreases items.len() - k,
{
    if k < 0 || k + 1 >= items.len() {
        None
    } else if items[k + 1].0.spec_lt(items[k].0) {
        Some("items are not in chronological order: "@ + spec_date_text(items[k + 1].0) + " comes after "@
            + spec_date_text(items[k].0))
    } else {
        chronology_error_from(items, k + 1)
    }
}

/// The message that reports the first item dated before the one preceding
/// it; `None` where the items are in chronological order.
pub open spec fn chronology_error<E>(items: Seq<(Date, E)>) -> Option<Seq<char>> {
    chronology_error_from(items, 0)
}

proof fn lemma_no_step_back_broken<E>(items: Seq<(Date, E)>, i: int)
    requires
        0 <= i,
        i + 1 < items.len(),
        items[i + 1].0.spec_lt(items[i].0),
    ensures
        !no_step_back(items),
{
    assert(!(!items[i + 1].0.spec_lt(items[i].0)));
}

/// Dated elements in chronological order.
pub struct ChronoStack<E> {
    items: Vec<(Date, E)>,
}

proof fn lemma_no_step_back_chronological<E>(items: Seq<(Date, E)>)
    requires
        no_step_back(items),
    ensures
        chronological(items),
{
    assert forall|i: int, j: int| 0 <= i < j < items.len() implies (#[trigger] items[i]).0.spec_le((#[trigger] items[j]).0) by {
        lemma_no_step_back_range(items, i, j);
    }
}

proof fn lemma_no_step_back_range<E>(items: Seq<(Date, E)>, i: int, j: int)
    requires
        no_step_back(items),
        0 <= i <= j < items.len(),
    ensures
        items[i].0.spec_le(items[j].0),
    decreases j - i,
{
    if i < j {
        lemma_no_step_back_range(items, i, j - 1);
        assert(!items[(j - 1) + 1].0.spec_lt(items[j - 1].0));
    }
}

impl<E> View for ChronoStack<E> {
    type V = Seq<(Date, E)>;

    /// The dated elements, in order.
    closed spec fn view(&self) -> Seq<(Date, E)> {
        self.items@
    }
}

impl<E> ChronoStack<E> {
    #[verifier::type_invariant]
    spec fn in_order(self) -> bool {
        chronological(self.items@)
    }

    /// A stack of the dated elements, or an error naming the first item that
    /// is dated before the one preceding it.
    pub fn new(items: Vec<(Date, E)>) -> (r: Result<ChronoStack<E>, String>)
        ensures
            r is Ok <==> no_step_back(items@),
            r matches Ok(s) ==> s.view() == items@,
            match chronology_error(items@) {
                None => r is Ok,
                Some(m) => r matches Err(e) && e@ == m,
            },
    {
        match Self::check_items_in_chronological_order(&items) {
            Ok(()) => {
                proof {
                    lemma_no_step_back_chronological(items@);
                }
                Ok(ChronoStack { items })
            },
            Err(e) => Err(e),
        }
    }

    /// Checks that no item is dated before the one preceding it.
    fn check_items_in_chronological_order(items: &Vec<(Date, E)>) -> (r: Result<(), String>)
        ensures
            r is Ok <==> no_step_back(items@),
            match chronology_error(items@) {
                None => r is Ok,
                Some(m) => r matches Err(e) && e@ == m,
            },
    {
        let n = items.len();
        let mut i: usize = 0;
        while i + 1 < n
            invariant
                n == items@.len(),
                i + 1 <= n || n == 0,
                i <= n,
                forall|k: int| 0 <= k < i ==> !(#[trigger] items@[k + 1]).0.spec_lt(items@[k].0),
                chronology_error_from(items@, 0) == chronology_error_from(items@, i as int),
            decreases n - i,
        {
            let prev_date = &items[i].0;
            let next_date = &items[i + 1].0;
            if next_date.is_before(prev_date) {
                let head = join3(
                    "items are not in chronological order: ",
                    &crate::date::date_text(next_date),
                    " comes after ",
                );
                let message = join2(&head, &crate::date::date_text(prev_date));
                proof {
                    lemma_no_step_back_broken(items@, i as int);
                }
                return Err(message);
            }
            i = i + 1;
        }
        proof {
            if n >= 2 {
                assert(chronology_error_from(items@, i as int) is None);
            }
        }
        Ok(())
    }

    /// Splits the elements into those dated before the period starts, those
    /// dated from the period's start until `date` included, and those dated
    /// after `date`. A `date` before the period's start is taken where no
    /// element is dated after it and before the period's start.
    pub fn into_split_for_period_and_date(self, period: &Period, date: &Date) -> (r: (Vec<E>, Vec<E>, Vec<E>))
        requires
            period.start_date.spec_le(*date) || forall|i: int| 0 <= i < self.view().len()
                ==> !(date.spec_lt(#[trigger] self.view()[i].0) && self.view()[i].0.spec_lt(period.start_date)),
        ensures
            r.0@ + r.1@ + r.2@ == elements(self.view()),
            r.0@ == dated_before(self.view(), period.start_date),
            r.1@ == dated_within(self.view(), period.start_date, *date),
            r.2@ == dated_after(self.view(), *date),
    {
        proof {
            use_type_invariant(&self);
        }
        let ghost all = self.items@;
        let ghost start = period.start_date;
        let items = self.items;
        let n = items.len();
        let mut before: Vec<E> = Vec::new();
        let mut during: Vec<E> = Vec::new();
        let mut after: Vec<E> = Vec::new();
        let mut items = items;
        // Reverse the items, so that popping gives them in order.
        let mut rest: Vec<(Date, E)> = Vec::new();
        while items.len() > 0
            invariant
                n == all.len(),
                items@.len() + rest@.len() == n,
                items@ == all.subrange(0, items@.len() as int),
                forall|k: int| 0 <= k < rest@.len() ==> rest@[k] == all[n - 1 - k],
            decreases items@.len(),
        {
            let x = items.pop().unwrap();
            rest.push(x);
            assert(items@ =~= all.subrange(0, items@.len() as int));
        }
        proof {
            assert(all.take(0) =~= Seq::<(Date, E)>::empty());
            reveal(Seq::filter);
            if !start.spec_le(*date) {
                assert forall|i: int| 0 <= i < all.len() implies !(date.spec_lt(#[trigger] all[i].0) && all[i].0.spec_lt(start)) by {
                    assert(all[i] == self.view()[i]);
                }
            }
        }
        let mut taken: usize = 0;
        while taken < n
            invariant
                n == all.len(),
                taken <= n,
                rest@.len() == n - taken,
                forall|k: int| 0 <= k < rest@.len() ==> rest@[k] == all[n - 1 - k],
                chronological(all),
                start == period.start_date,
                start.spec_le(*date) || forall|i: int| 0 <= i < all.len()
                    ==> !(date.spec_lt(#[trigger] all[i].0) && all[i].0.spec_lt(start)),
                before@ + during@ + after@ == elements(all.take(taken as int)),
                before@ == dated_before(all.take(taken as int), start),
                during@ == dated_within(all.take(taken as int), start, *date),
                after@ == dated_after(all.take(taken as int), *date),
                forall|i: int| 0 <= i < before@.len() ==> (#[trigger] all[i]).0.spec_lt(start),
                forall|i: int| before@.len() <= i < before@.len() + during@.len() ==> start.spec_le((#[trigger] all[i]).0)
                    && all[i].0.spec_le(*date),
                forall|i: int| before@.len() + during@.len() <= i < taken ==> date.spec_lt((#[trigger] all[i]).0),
                before@.len() + during@.len() + after@.len() == taken,
            decreases n - taken,
        {
            let (d, e) = rest.pop().unwrap();
            assert((d, e) == all[taken as int]);
            let ghost prefix = all.take(taken as int);
            assert(all.take(taken + 1) =~= prefix.push((d, e)));
            proof {
                prefix.lemma_filter_push((d, e), |x: (Date, E)| x.0.spec_lt(start));
                prefix.lemma_filter_push((d, e), |x: (Date, E)| start.spec_le(x.0) && x.0.spec_le(*date));
                prefix.lemma_filter_push((d, e), |x: (Date, E)| date.spec_lt(x.0));
                lemma_elements_push(prefix, (d, e));
                lemma_elements_push(prefix.filter(|x: (Date, E)| x.0.spec_lt(start)), (d, e));
                lemma_elements_push(prefix.filter(|x: (Date, E)| start.spec_le(x.0) && x.0.spec_le(*date)), (d, e));
                lemma_elements_push(prefix.filter(|x: (Date, E)| date.spec_lt(x.0)), (d, e));
            }
            if d.is_before(&period.start_date) {
                proof {
                    if during@.len() > 0 {
                        let k = before@.len() as int;
                        assert(all[k].0.spec_le(all[taken as int].0));
                    } else if after@.len() > 0 {
                        let k = before@.len() as int;
                        assert(all[k].0.spec_le(all[taken as int].0));
                    }
                    assert(!date.spec_lt(d));
                }
                before.push(e);
            } else if !date.is_before(&d) {
                proof {
                    if after@.len() > 0 {
                        let k = (before@.len() + during@.len()) as int;
                        assert(all[k].0.spec_le(all[taken as int].0));
                    }
                }
                during.push(e);
            } else {
                after.push(e);
            }
            taken = taken + 1;
            assert(before@ + during@ + after@ =~= elements(all.take(taken as int)));
        }
        assert(all.take(n as int) =~= all);
        (before, during, after)
    }
}

/// The elements of `items` dated before `start`, in order.
pub open spec fn dated_before<E>(items: Seq<(Date, E)>, start: Date) -> Seq<E> {
    elements(items.filter(|x: (Date, E)| x.0.spec_lt(start)))
}

/// The elements of `items` dated from `start` to `end`, both included, in order.
pub open spec fn dated_within<E>(items: Seq<(Date, E)>, start: Date, end: Date) -> Seq<E> {
    elements(items.filter(|x: (Date, E)| start.spec_le(x.0) && x.0.spec_le(end)))
}

/// The elements of `items` dated after `date`, in order.
pub open spec fn dated_after<E>(items: Seq<(Date, E)>, date: Date) -> Seq<E> {
    elements(items.filter(|x: (Date, E)| date.spec_lt(x.0)))
}

/// What holds of every element of dated items holds of every element that
/// a filter of them keeps.
pub proof fn lemma_filtered_elements<E>(items: Seq<(Date, E)>, pred: spec_fn((Date, E)) -> bool, inv: spec_fn(E) -> bool)
    requires
        forall|j: int| 0 <= j < items.len() ==> inv(#[trigger] items[j].1),
    ensures
        forall|i: int| 0 <= i < elements(items.filter(pred)).len() ==> inv(#[trigger] elements(items.filter(pred))[i]),
    decreases items.len(),
{
    reveal(Seq::filter);
    if items.len() > 0 {
        let rest = items.drop_last();
        assert forall|j: int| 0 <= j < rest.len() implies inv(#[trigger] rest[j].1) by {
            assert(rest[j] == items[j]);
        }
        lemma_filtered_elements(rest, pred, inv);
        let sub = rest.filter(pred);
        assert(items.last() == items[items.len() - 1]);
        if pred(items.last()) {
            assert(items.filter(pred) == sub.push(items.last()));
            assert(elements(items.filter(pred)) =~= elements(sub).push(items.last().1));
        } else {
            assert(items.filter(pred) == sub);
        }
    }
}

/// A filter that keeps every item keeps them all; one that keeps none
/// gives nothing.
pub proof fn lemma_filter_all_or_none<A>(items: Seq<A>, pred: spec_fn(A) -> bool)
    ensures
        (forall|j: int| 0 <= j < items.len() ==> pred(#[trigger] items[j])) ==> items.filter(pred) == items,
        (forall|j: int| 0 <= j < items.len() ==> !pred(#[trigger] items[j])) ==> items.filter(pred) == Seq::<A>::empty(),
    decreases items.len(),
{
    reveal(Seq::filter);
    if items.len() > 0 {
        let rest = items.drop_last();
        lemma_filter_all_or_none(rest, pred);
        if forall|j: int| 0 <= j < items.len() ==> pred(#[trigger] items[j]) {
            assert forall|j: int| 0 <= j < rest.len() implies pred(#[trigger] rest[j]) by {
                assert(rest[j] == items[j]);
            }
            assert(pred(items[items.len() - 1]));
            assert(items.filter(pred) =~= items);
        }
        if forall|j: int| 0 <= j < items.len() ==> !pred(#[trigger] items[j]) {
            assert forall|j: int| 0 <= j < rest.len() implies !pred(#[trigger] rest[j]) by {
                assert(rest[j] == items[j]);
            }
            assert(!pred(items[items.len() - 1]));
        }
    }
}

/// The elements of two runs of items are those of each, in turn.
pub proof fn lemma_elements_add<E>(a: Seq<(Date, E)>, b: Seq<(Date, E)>)
    ensures
        elements(a + b) == elements(a) + elements(b),
{
    assert(elements(a + b) =~= elements(a) + elements(b));
}

/// Where a run of items has no step back in time, neither has a run that
/// starts it.
pub proof fn lemma_chronology_prefix<E>(a: Seq<(Date, E)>, b: Seq<(Date, E)>, k: int)
    requires
        0 <= k,
        chronology_error_from(a + b, k) is None,
    ensures
        chronology_error_from(a, k) is None,
    decreases a.len() - k,
{
    if k + 1 < a.len() {
        assert((a + b)[k + 1] == a[k + 1]);
        assert((a + b)[k] == a[k]);
        lemma_chronology_prefix(a, b, k + 1);
    }
}

/// Items appended after `date`, itself not before `start`, are neither
/// before `start` nor within `start..=date`: they only add to what comes
/// after `date`.
pub proof fn lemma_dated_append_later<E>(a: Seq<(Date, E)>, b: Seq<(Date, E)>, start: Date, date: Date)
    requires
        start.spec_le(date),
        forall|j: int| 0 <= j < b.len() ==> date.spec_lt(#[trigger] b[j].0),
    ensures
        dated_before(a + b, start) == dated_before(a, start),
        dated_within(a + b, start, date) == dated_within(a, start, date),
        dated_after(a + b, date) == dated_after(a, date) + elements(b),
{
    let before = |x: (Date, E)| x.0.spec_lt(start);
    let within = |x: (Date, E)| start.spec_le(x.0) && x.0.spec_le(date);
    let after = |x: (Date, E)| date.spec_lt(x.0);
    assert forall|j: int| 0 <= j < b.len() implies !before(#[trigger] b[j]) && !within(b[j]) && after(b[j]) by {
        let d = b[j].0;
        assert(date.spec_lt(d));
    }
    lemma_filter_all_or_none(b, before);
    lemma_filter_all_or_none(b, within);
    lemma_filter_all_or_none(b, after);
    Seq::filter_distributes_over_add(a, b, before);
    Seq::filter_distributes_over_add(a, b, within);
    Seq::filter_distributes_over_add(a, b, after);
    assert(a.filter(before) + Seq::<(Date, E)>::empty() =~= a.filter(before));
    assert(a.filter(within) + Seq::<(Date, E)>::empty() =~= a.filter(within));
    lemma_elements_add(a.filter(after), b);
}

proof fn lemma_elements_push<E>(items: Seq<(Date, E)>, x: (Date, E))
    ensures
        elements(items.push(x)) == elements(items).push(x.1),
{
    assert(elements(items.push(x)) =~= elements(items).push(x.1));
}

} // verus!
