//! Saving goals: a target figure to reach by a date, and what was committed
//! toward it so far.
use vstd::prelude::*;
use crate::chrono_stack::no_step_back;
use crate::date::Date;
use crate::period::{AnyPeriodsConfiguration, Period};
use crate::text::{text, join3};

verus! {

/// A goal: a target figure in a currency to reach by `target_date`, and the
/// dated figures committed toward it.
#[derive(Debug)]
pub struct GoalImplementation {
    pub name: String,
    pub currency: String,
    pub target: u32,
    pub commited: Vec<(Date, u32)>,
    pub target_date: Date,
}

/// The sum of the committed figures.
pub open spec fn committed_total(commits: Seq<(Date, u32)>) -> int
    decreases commits.len(),
{
    if commits.len() == 0 {
        0
    } else {
        committed_total(commits.drop_last()) + commits.last().1
    }
}

proof fn lemma_committed_total_prefix(commits: Seq<(Date, u32)>, i: int)
    requires
        0 <= i <= commits.len(),
    ensures
        0 <= committed_total(commits.subrange(0, i)) <= committed_total(commits),
    decreases commits.len() - i,
{
    if i < commits.len() {
        lemma_committed_total_prefix(commits, i + 1);
        let longer = commits.subrange(0, i + 1);
        assert(longer.drop_last() =~= commits.subrange(0, i));
        lemma_committed_total_nonneg(commits.subrange(0, i));
    } else {
        assert(commits.subrange(0, i) =~= commits);
        lemma_committed_total_nonneg(commits);
    }
}

proof fn lemma_committed_total_nonneg(commits: Seq<(Date, u32)>)
    ensures
        committed_total(commits) >= 0,
    decreases commits.len(),
{
    if commits.len() > 0 {
        lemma_committed_total_nonneg(commits.drop_last());
    }
}

impl GoalImplementation {
    /// What `remaining` gives: the target minus what was committed, or an
    /// error where more than the target was committed.
    pub open spec fn spec_remaining(self) -> Result<int, Seq<char>> {
        let total = committed_total(self.commited@);
        if total > self.target {
            Err("Commited above Goal's target"@)
        } else {
            Ok(self.target - total)
        }
    }

    /// What `to_pay_at` gives. Past the target date, all that remains is
    /// due. Otherwise the commits must be in chronological order and none
    /// after `date`; where the last one falls in the period of `date`,
    /// nothing more is due this period; else what remains is spread evenly
    /// (rounded down) over the periods left until the target date.
    pub open spec fn spec_to_pay_at(self, config: AnyPeriodsConfiguration, date: Date) -> Result<int, Seq<char>> {
        let commits = self.commited@;
        if self.target_date.spec_lt(date) {
            self.spec_remaining()
        } else {
            match config.spec_period_for_date(date) {
                Err(m) => Err(m),
                Ok(p) => if commits.len() > 0 && !no_step_back(commits) {
                    Err("Goal '"@ + self.name@ + "': Commits should be in chronological order"@)
                } else if commits.len() > 0 && date.spec_lt(commits.last().0) {
                    Err("Goal '"@ + self.name@ + "': Computing what was to be paid in the past is not supported."@)
                } else if commits.len() > 0 && p.spec_contains(commits.last().0) {
                    Ok(0)
                } else {
                    match self.spec_remaining() {
                        Err(m) => Err(m),
                        Ok(rem) => match config.spec_number_of_periods_between(date, self.target_date) {
                            Err(m) => Err(m),
                            Ok(n) => Ok(rem / n),
                        },
                    }
                },
            }
        }
    }

    /// What remains to commit to reach the target.
    pub fn remaining(&self) -> (r: Result<u32, String>)
        requires
            committed_total(self.commited@) <= u32::MAX,
        ensures
            match self.spec_remaining() {
                Ok(n) => r == Ok::<u32, String>(n as u32) && 0 <= n <= self.target,
                Err(m) => r matches Err(e) && e@ == m,
            },
    {
        proof {
            lemma_committed_total_nonneg(self.commited@);
        }
        let mut total: u32 = 0;
        let mut i: usize = 0;
        while i < self.commited.len()
            invariant
                i <= self.commited@.len(),
                committed_total(self.commited@) <= u32::MAX,
                total == committed_total(self.commited@.subrange(0, i as int)),
            decreases self.commited.len() - i,
        {
            proof {
                lemma_committed_total_prefix(self.commited@, i + 1);
                assert(self.commited@.subrange(0, i + 1).drop_last() =~= self.commited@.subrange(0, i as int));
            }
            total = total + self.commited[i].1;
            i = i + 1;
        }
        assert(self.commited@.subrange(0, i as int) =~= self.commited@);
        if total > self.target {
            return Err(text("Commited above Goal's target"));
        }
        Ok(self.target - total)
    }

    /// `to_pay_at` spreads what remains over the periods left: the date is
    /// not past the target date, its period is known, and unless there are
    /// no commits, they are in order, none is after the date and the last
    /// one is not in the date's period.
    pub open spec fn spreads(self, config: AnyPeriodsConfiguration, date: Date) -> bool {
        let commits = self.commited@;
        &&& !self.target_date.spec_lt(date)
        &&& match config.spec_period_for_date(date) {
            Err(_) => false,
            Ok(p) => commits.len() == 0 || (no_step_back(commits) && !date.spec_lt(commits.last().0)
                && !p.spec_contains(commits.last().0)),
        }
    }

    /// `to_pay_at` adds up the commits: past the target date, or where it
    /// spreads what remains.
    pub open spec fn sums_commits(self, config: AnyPeriodsConfiguration, date: Date) -> bool {
        self.target_date.spec_lt(date) || self.spreads(config, date)
    }

    /// What is to be paid toward the goal in the period of `date` (see
    /// `spec_to_pay_at`).
    pub fn to_pay_at(&self, period_config: &AnyPeriodsConfiguration, date: &Date) -> (r: Result<u32, String>)
        requires
            period_config.handles(*date),
            self.sums_commits(*period_config, *date) ==> committed_total(self.commited@) <= u32::MAX,
            self.spreads(*period_config, *date) && self.spec_remaining() is Ok
                ==> period_config.handles_span(*date, self.target_date) && period_config.counts_forward(*date, self.target_date),
        ensures
            match self.spec_to_pay_at(*period_config, *date) {
                Ok(n) => r == Ok::<u32, String>(n as u32) && 0 <= n <= u32::MAX,
                Err(m) => r matches Err(e) && e@ == m,
            },
    {
        if self.target_date.is_before(date) {
            return self.remaining();
        }
        let current_period = period_config.period_for_date(date)?;
        let n = self.commited.len();
        if n > 0 {
            if !dates_in_order(&self.commited) {
                return Err(join3("Goal '", self.name.as_str(), "': Commits should be in chronological order"));
            }
            let last_commit_date = self.commited[n - 1].0;
            if date.is_before(&last_commit_date) {
                return Err(join3("Goal '", self.name.as_str(), "': Computing what was to be paid in the past is not supported."));
            }
            if current_period.contains(&last_commit_date) {
                return Ok(0);
            }
        }
        self.spread_remaining(period_config, date)
    }

    /// What remains, spread evenly (rounded down) over the periods from
    /// that of `date` to that of the target date.
    fn spread_remaining(&self, period_config: &AnyPeriodsConfiguration, date: &Date) -> (r: Result<u32, String>)
        requires
            date.spec_le(self.target_date),
            committed_total(self.commited@) <= u32::MAX,
            self.spec_remaining() is Ok
                ==> period_config.handles_span(*date, self.target_date) && period_config.counts_forward(*date, self.target_date),
        ensures
            match self.spec_remaining() {
                Err(m) => r matches Err(e) && e@ == m,
                Ok(rem) => match period_config.spec_number_of_periods_between(*date, self.target_date) {
                    Err(m) => r matches Err(e) && e@ == m,
                    Ok(n) => r == Ok::<u32, String>((rem / n) as u32) && 0 <= rem / n <= u32::MAX,
                },
            },
    {
        let remaining = self.remaining()?;
        let periods = period_config.number_of_periods_between(date, &self.target_date)?;
        let divisor = periods as u32;
        let due = remaining / divisor;
        proof {
            let rem = remaining as int;
            let n = divisor as int;
            assert(self.spec_remaining() == Ok::<int, Seq<char>>(rem));
            assert(period_config.spec_number_of_periods_between(*date, self.target_date) == Ok::<int, Seq<char>>(n));
            assert(0 <= rem / n <= rem) by (nonlinear_arith)
                requires 0 <= rem, n >= 1;
            assert(due as int == rem / n);
        }
        Ok(due)
    }
}

/// Whether no commit is dated before the one preceding it.
fn dates_in_order(commits: &Vec<(Date, u32)>) -> (r: bool)
    ensures
        r == no_step_back(commits@),
{
    let n = commits.len();
    if n == 0 {
        return true;
    }
    let mut i: usize = 0;
    while i + 1 < n
        invariant
            n == commits@.len(),
            n > 0,
            i + 1 <= n,
            forall|k: int| 0 <= k < i ==> !(#[trigger] commits@[k + 1]).0.spec_lt(commits@[k].0),
        decreases n - i,
    {
        if commits[i + 1].0.is_before(&commits[i].0) {
            assert(commits@[i as int + 1].0.spec_lt(commits@[i as int].0));
            return false;
        }
        i = i + 1;
    }
    true
}

/// Between two dates in order, a configuration whose periods do not go
/// backwards counts at least one period.
proof fn lemma_periods_between_positive(config: AnyPeriodsConfiguration, start: Date, end: Date)
    requires
        start.wf(),
        end.wf(),
        config.counts_forward(start, end),
    ensures
        config.spec_number_of_periods_between(start, end) matches Ok(n) ==> n >= 1,
{
    if let AnyPeriodsConfiguration::FixedLength(c) = config {
        if !end.spec_lt(start) && !start.spec_lt(c.start_date) {
            let a = c.spec_period_number(start);
            let b = c.spec_period_number(end);
            assert(a <= b);
            assert(c.spec_number_of_periods_between(start, end) == Ok::<int, Seq<char>>(b + 1 - a));
        }
    }
}

/// What a goal asks for in a period never exceeds what remains to commit
/// to it, and is never negative.
pub proof fn law_due_within_remaining(goal: GoalImplementation, config: AnyPeriodsConfiguration, date: Date)
    requires
        date.wf(),
        goal.target_date.wf(),
        config matches AnyPeriodsConfiguration::FixedLength(c) ==> c.wf(),
        config.counts_forward(date, goal.target_date),
    ensures
        match (goal.spec_to_pay_at(config, date), goal.spec_remaining()) {
            (Ok(due), Ok(rem)) => 0 <= due <= rem,
            _ => true,
        },
{
    lemma_committed_total_nonneg(goal.commited@);
    lemma_periods_between_positive(config, date, goal.target_date);
    if let Ok(rem) = goal.spec_remaining() {
        if let Ok(n) = config.spec_number_of_periods_between(date, goal.target_date) {
            assert(0 <= rem / n <= rem) by (nonlinear_arith)
                requires 0 <= rem, n >= 1;
        }
    }
}

/// What remains of a goal and what was committed to it make its target.
pub proof fn law_remaining_and_committed_make_target(goal: GoalImplementation)
    ensures
        goal.spec_remaining() matches Ok(rem) ==> rem + committed_total(goal.commited@) == goal.target,
        goal.spec_remaining() is Err <==> committed_total(goal.commited@) > goal.target,
{
}

} // verus!
