//! The text of the legacy "remaining money" screen.
use vstd::prelude::*;
use crate::amounts::{Figure, decimal_display, figure_text};
use crate::date::{date_text, spec_date_text};
use crate::formatting::{title_text, table_text, row_texts, render_table};
use crate::legacy::{RemainingMoneyScreen, DisplayAccount, DisplayGoal};
use crate::text::{text, join2, join3, texts, joined, join_texts, push_text, same_text};

verus! {

/// The sign shown before figures of a currency: `€` for `EUR`, `¥` for
/// `JPY`, the currency's name otherwise.
pub open spec fn currency_sign(currency: Seq<char>) -> Seq<char> {
    if currency == "EUR"@ { "€"@ } else if currency == "JPY"@ { "¥"@ } else { currency }
}

/// A figure of a currency as shown: the sign, then the figure.
pub open spec fn legacy_amount_text(currency: Seq<char>, f: Figure) -> Seq<char> {
    currency_sign(currency) + decimal_display(f.mantissa as int, f.scale as int)
}

/// An amount of euros is shown with the sign `€` and one of yen with the
/// sign `¥`, before the figure as `rust_decimal` displays it; these are the
/// signs that the exchange rates give the two currencies; any other
/// currency is shown with its name.
pub proof fn law_currency_signs(f: Figure, other: Seq<char>)
    ensures
        legacy_amount_text("EUR"@, f) == "€"@ + decimal_display(f.mantissa as int, f.scale as int),
        legacy_amount_text("JPY"@, f) == "¥"@ + decimal_display(f.mantissa as int, f.scale as int),
        legacy_amount_text(crate::amounts::CurrencyCode::Eur.spec_ident(), f)
            == crate::amounts::CurrencyCode::Eur.spec_sign() + decimal_display(f.mantissa as int, f.scale as int),
        legacy_amount_text(crate::amounts::CurrencyCode::Jpy.spec_ident(), f)
            == crate::amounts::CurrencyCode::Jpy.spec_sign() + decimal_display(f.mantissa as int, f.scale as int),
        other != "EUR"@ && other != "JPY"@ ==> legacy_amount_text(other, f) == other + decimal_display(f.mantissa as int, f.scale as int),
{
    reveal_strlit("EUR");
    reveal_strlit("JPY");
    reveal_strlit("€");
    reveal_strlit("¥");
    assert("JPY"@ != "EUR"@) by {
        assert("JPY"@[0] != "EUR"@[0]);
    }
    assert(crate::amounts::CurrencyCode::Eur.spec_ident() == "EUR"@);
    assert(crate::amounts::CurrencyCode::Jpy.spec_ident() == "JPY"@);
    assert(crate::amounts::CurrencyCode::Eur.spec_sign() == "€"@);
    assert(crate::amounts::CurrencyCode::Jpy.spec_sign() == "¥"@);
}

fn amount_text(currency: &String, f: &Figure) -> (r: String)
    requires
        f.wf(),
    ensures
        r@ == legacy_amount_text(currency@, *f),
{
    let sign = if same_text(currency.as_str(), "EUR") {
        text("€")
    } else if same_text(currency.as_str(), "JPY") {
        text("¥")
    } else {
        currency.clone()
    };
    join2(sign.as_str(), figure_text(f).as_str())
}

/// The legacy screen, ready to be shown with the release it was made by.
#[derive(Debug)]
pub struct DisplayRemainingMoneyScreen {
    pub screen: RemainingMoneyScreen,
    pub release: String,
}

/// The figures of the screen are valid, with at most two decimals where
/// they are not whole numbers of a converted currency.
pub open spec fn screen_wf(s: RemainingMoneyScreen) -> bool {
    &&& s.overall_balance.wf()
    &&& forall|i: int| 0 <= i < s.individual_balances@.len() ==> (#[trigger] s.individual_balances@[i]).wf()
    &&& s.overall_goal.wf()
    &&& forall|i: int| 0 <= i < s.goals@.len() ==> (#[trigger] s.goals@[i]).wf()
    &&& s.predicted_income matches Some(a) ==> a.figure.wf()
    &&& s.uncommitted.figure.wf()
    &&& s.remaining.figure.wf()
}

/// The accounts shown: the overall balance first.
pub open spec fn shown_accounts(s: RemainingMoneyScreen) -> Seq<DisplayAccount> {
    seq![s.overall_balance] + s.individual_balances@
}

/// The goals shown: the overall goal first.
pub open spec fn shown_goals(s: RemainingMoneyScreen) -> Seq<DisplayGoal> {
    seq![s.overall_goal] + s.goals@
}

/// The text of the table of accounts.
pub open spec fn account_table_text(s: RemainingMoneyScreen) -> Seq<char> {
    let accounts = shown_accounts(s);
    table_text(seq![Seq::<char>::empty()] + accounts.map_values(|a: DisplayAccount| a.name@), seq![
        seq!["Period start"@] + accounts.map_values(|a: DisplayAccount| legacy_amount_text(a.currency@, a.period_start_balance)),
        seq!["Current"@] + accounts.map_values(|a: DisplayAccount| legacy_amount_text(a.currency@, a.current_balance) + " ("@
            + legacy_amount_text(a.currency@, a.difference) + ")"@),
    ])
}

/// The row of a goal in the table of goals.
pub open spec fn goal_row(g: DisplayGoal) -> Seq<Seq<char>> {
    seq![g.name@, legacy_amount_text(g.currency@, g.committed), legacy_amount_text(g.currency@, g.committed_this_period),
        match g.to_commit_this_period {
            Some(f) => legacy_amount_text(g.currency@, f),
            None => "✅"@,
        },
        legacy_amount_text(g.currency@, g.target)]
}

/// The sentence under the goals: what is not committed, and a warning
/// where that is below zero.
pub open spec fn uncommitted_text(s: RemainingMoneyScreen) -> Seq<char> {
    "(Uncommitted: "@ + legacy_amount_text(s.uncommitted.currency@, s.uncommitted.figure)
        + (if s.overcommitted { " More money is committed to goals than is available in your accounts. Consider taking money out of one or more goals."@ } else { Seq::empty() })
        + ")"@
}

/// The text of the goals section.
pub open spec fn goal_section_text(s: RemainingMoneyScreen) -> Seq<char> {
    title_text("(-) Goals"@) + seq!['\n']
        + table_text(seq![Seq::<char>::empty(), "Committed"@, "Committed this period"@, "To commit this period"@, "Target"@],
            shown_goals(s).map_values(|g: DisplayGoal| goal_row(g)))
        + seq!['\n'] + uncommitted_text(s)
}

impl DisplayRemainingMoneyScreen {
    /// The screen, with the release it is shown with.
    pub fn from(screen: RemainingMoneyScreen, release: String) -> (r: DisplayRemainingMoneyScreen)
        ensures
            r.screen == screen,
            r.release == release,
    {
        DisplayRemainingMoneyScreen { screen, release }
    }

    /// The text underlined with `=`.
    pub fn title(string: &str) -> (r: String)
        ensures
            r@ == title_text(string@),
    {
        crate::formatting::title(string)
    }

    /// The title naming the period.
    pub fn formatted_period_start(&self) -> (r: String)
        ensures
            r@ == title_text("Current period : "@ + spec_date_text(self.screen.current_period.start_date) + " to "@
                + spec_date_text(self.screen.current_period.end_date)),
    {
        let line = join3(join2("Current period : ", date_text(&self.screen.current_period.start_date).as_str()).as_str(), " to ",
            date_text(&self.screen.current_period.end_date).as_str());
        Self::title(line.as_str())
    }

    /// The section of the accounts: a title, then the table of balances.
    pub fn formatted_account_table(&self) -> (r: String)
        requires
            screen_wf(self.screen),
        ensures
            r@ == title_text("Accounts"@) + seq!['\n'] + account_table_text(self.screen),
    {
        let ghost accounts = shown_accounts(self.screen);
        let mut header: Vec<String> = Vec::new();
        push_text(&mut header, String::new());
        let mut starts: Vec<String> = Vec::new();
        push_text(&mut starts, text("Period start"));
        let mut currents: Vec<String> = Vec::new();
        push_text(&mut currents, text("Current"));
        let ov = &self.screen.overall_balance;
        push_text(&mut header, ov.name.clone());
        push_text(&mut starts, amount_text(&ov.currency, &ov.period_start_balance));
        let cur0 = amount_text(&ov.currency, &ov.current_balance);
        let diff0 = amount_text(&ov.currency, &ov.difference);
        push_text(&mut currents, join2(join3(cur0.as_str(), " (", diff0.as_str()).as_str(), ")"));
        proof {
            assert(accounts[0] == *ov);
            assert(accounts.subrange(0, 1) =~= seq![accounts[0]]);
            assert(texts(header@) =~= seq![Seq::<char>::empty()] + accounts.subrange(0, 1).map_values(|a: DisplayAccount| a.name@));
            assert(texts(starts@) =~= seq!["Period start"@] + accounts.subrange(0, 1).map_values(|a: DisplayAccount| legacy_amount_text(a.currency@, a.period_start_balance)));
            assert(texts(currents@) =~= seq!["Current"@] + accounts.subrange(0, 1).map_values(|a: DisplayAccount| legacy_amount_text(a.currency@, a.current_balance) + " ("@
                + legacy_amount_text(a.currency@, a.difference) + ")"@));
        }
        let m = self.screen.individual_balances.len();
        let mut i: usize = 0;
        while i < m
            invariant
                m == self.screen.individual_balances@.len(),
                accounts.len() == m + 1,
                accounts == shown_accounts(self.screen),
                screen_wf(self.screen),
                i <= m,
                texts(header@) == seq![Seq::<char>::empty()] + accounts.subrange(0, i + 1).map_values(|a: DisplayAccount| a.name@),
                texts(starts@) == seq!["Period start"@] + accounts.subrange(0, i + 1).map_values(|a: DisplayAccount| legacy_amount_text(a.currency@, a.period_start_balance)),
                texts(currents@) == seq!["Current"@] + accounts.subrange(0, i + 1).map_values(|a: DisplayAccount| legacy_amount_text(a.currency@, a.current_balance) + " ("@
                    + legacy_amount_text(a.currency@, a.difference) + ")"@),
            decreases m - i,
        {
            let a = &self.screen.individual_balances[i];
            assert(*a == accounts[i + 1]);
            assert(a.wf());
            push_text(&mut header, a.name.clone());
            push_text(&mut starts, amount_text(&a.currency, &a.period_start_balance));
            let cur = amount_text(&a.currency, &a.current_balance);
            let diff = amount_text(&a.currency, &a.difference);
            push_text(&mut currents, join2(join3(cur.as_str(), " (", diff.as_str()).as_str(), ")"));
            proof {
                assert(accounts.subrange(0, i + 2) =~= accounts.subrange(0, i + 1).push(accounts[i + 1]));
            }
            i = i + 1;
            assert(texts(header@) =~= seq![Seq::<char>::empty()] + accounts.subrange(0, i + 1).map_values(|a: DisplayAccount| a.name@));
            assert(texts(starts@) =~= seq!["Period start"@] + accounts.subrange(0, i + 1).map_values(|a: DisplayAccount| legacy_amount_text(a.currency@, a.period_start_balance)));
            assert(texts(currents@) =~= seq!["Current"@] + accounts.subrange(0, i + 1).map_values(|a: DisplayAccount| legacy_amount_text(a.currency@, a.current_balance) + " ("@
                + legacy_amount_text(a.currency@, a.difference) + ")"@));
        }
        assert(accounts.subrange(0, m + 1) =~= accounts);
        let mut rows: Vec<Vec<String>> = Vec::new();
        rows.push(starts);
        rows.push(currents);
        assert(row_texts(rows@) =~= seq![texts(rows@[0]@), texts(rows@[1]@)]);
        let table = render_table(&header, &rows);
        let mut r = Self::title("Accounts");
        r.append("\n");
        r.append(table.as_str());
        proof {
            reveal_strlit("\n");
            assert(r@ =~= title_text("Accounts"@) + seq!['\n'] + account_table_text(self.screen));
        }
        r
    }

    /// The title giving the predicted income, or saying it is not included.
    pub fn formatted_predicted_income(&self) -> (r: String)
        requires
            screen_wf(self.screen),
        ensures
            r@ == title_text("(+) Predicted income: "@ + match self.screen.predicted_income {
                Some(a) => legacy_amount_text(a.currency@, a.figure),
                None => "Not included"@,
            }),
    {
        let income = match &self.screen.predicted_income {
            Some(a) => amount_text(&a.currency, &a.figure),
            None => text("Not included"),
        };
        Self::title(join2("(+) Predicted income: ", income.as_str()).as_str())
    }

    /// The section of the goals: a title, the table of goals, and what is
    /// not committed.
    pub fn formatted_goal_table(&self) -> (r: String)
        requires
            screen_wf(self.screen),
        ensures
            r@ == goal_section_text(self.screen),
    {
        let ghost goals = shown_goals(self.screen);
        let mut header: Vec<String> = Vec::new();
        push_text(&mut header, String::new());
        push_text(&mut header, text("Committed"));
        push_text(&mut header, text("Committed this period"));
        push_text(&mut header, text("To commit this period"));
        push_text(&mut header, text("Target"));
        let mut rows: Vec<Vec<String>> = Vec::new();
        let m = self.screen.goals.len();
        let mut i: usize = 0;
        assert(goals.subrange(0, 0) =~= Seq::<DisplayGoal>::empty());
        push_goal_row(&mut rows, &self.screen.overall_goal);
        proof {
            assert(goals[0] == self.screen.overall_goal);
            assert(goals.subrange(0, 1) =~= seq![goals[0]]);
            assert(row_texts(rows@) =~= goals.subrange(0, 1).map_values(|g: DisplayGoal| goal_row(g)));
        }
        while i < m
            invariant
                m == self.screen.goals@.len(),
                goals.len() == m + 1,
                goals == shown_goals(self.screen),
                screen_wf(self.screen),
                i <= m,
                row_texts(rows@) == goals.subrange(0, i + 1).map_values(|g: DisplayGoal| goal_row(g)),
            decreases m - i,
        {
            let g = &self.screen.goals[i];
            assert(*g == goals[i + 1]);
            let ghost before = rows@;
            push_goal_row(&mut rows, g);
            proof {
                assert(goals.subrange(0, i + 2) =~= goals.subrange(0, i + 1).push(goals[i + 1]));
            }
            i = i + 1;
            assert(row_texts(rows@) =~= goals.subrange(0, i + 1).map_values(|g: DisplayGoal| goal_row(g)));
        }
        assert(goals.subrange(0, m + 1) =~= goals);
        let table = render_table(&header, &rows);
        let mut sentence = join2("(Uncommitted: ", amount_text(&self.screen.uncommitted.currency, &self.screen.uncommitted.figure).as_str());
        if self.screen.overcommitted {
            sentence.append(" More money is committed to goals than is available in your accounts. Consider taking money out of one or more goals.");
        }
        sentence.append(")");
        let mut r = Self::title("(-) Goals");
        r.append("\n");
        r.append(table.as_str());
        r.append("\n");
        r.append(sentence.as_str());
        proof {
            reveal_strlit("\n");
            assert(texts(header@) =~= seq![Seq::<char>::empty(), "Committed"@, "Committed this period"@, "To commit this period"@, "Target"@]);
            assert(sentence@ =~= uncommitted_text(self.screen));
            assert(r@ =~= goal_section_text(self.screen));
        }
        r
    }

    /// The title giving what remains.
    pub fn formatted_remaining(&self) -> (r: String)
        requires
            screen_wf(self.screen),
        ensures
            r@ == title_text("(=) Remaining this period: "@ + legacy_amount_text(self.screen.remaining.currency@, self.screen.remaining.figure)),
    {
        let amount = amount_text(&self.screen.remaining.currency, &self.screen.remaining.figure);
        Self::title(join2("(=) Remaining this period: ", amount.as_str()).as_str())
    }

    /// The release line.
    pub fn format_release(&self) -> (r: String)
        ensures
            r@ == "Release: "@ + self.release@,
    {
        join2("Release: ", self.release.as_str())
    }

    /// The whole screen: its six parts separated by blank lines, with a
    /// final line break.
    pub fn to_text(&self) -> (r: String)
        requires
            screen_wf(self.screen),
        ensures
            r@ == joined(seq![
                title_text("Current period : "@ + spec_date_text(self.screen.current_period.start_date) + " to "@
                    + spec_date_text(self.screen.current_period.end_date)),
                title_text("Accounts"@) + seq!['\n'] + account_table_text(self.screen),
                goal_section_text(self.screen),
                title_text("(+) Predicted income: "@ + match self.screen.predicted_income {
                    Some(a) => legacy_amount_text(a.currency@, a.figure),
                    None => "Not included"@,
                }),
                title_text("(=) Remaining this period: "@ + legacy_amount_text(self.screen.remaining.currency@, self.screen.remaining.figure)),
                "Release: "@ + self.release@,
            ], seq!['\n', '\n']) + seq!['\n'],
    {
        let mut parts: Vec<String> = Vec::new();
        push_text(&mut parts, self.formatted_period_start());
        push_text(&mut parts, self.formatted_account_table());
        push_text(&mut parts, self.formatted_goal_table());
        push_text(&mut parts, self.formatted_predicted_income());
        push_text(&mut parts, self.formatted_remaining());
        push_text(&mut parts, self.format_release());
        let mut r = join_texts(&parts, "\n\n");
        r.append("\n");
        proof {
            assert(texts(parts@) =~= seq![
                title_text("Current period : "@ + spec_date_text(self.screen.current_period.start_date) + " to "@
                    + spec_date_text(self.screen.current_period.end_date)),
                title_text("Accounts"@) + seq!['\n'] + account_table_text(self.screen),
                goal_section_text(self.screen),
                title_text("(+) Predicted income: "@ + match self.screen.predicted_income {
                    Some(a) => legacy_amount_text(a.currency@, a.figure),
                    None => "Not included"@,
                }),
                title_text("(=) Remaining this period: "@ + legacy_amount_text(self.screen.remaining.currency@, self.screen.remaining.figure)),
                "Release: "@ + self.release@,
            ]);
            reveal_strlit("\n\n");
            reveal_strlit("\n");
            assert("\n\n"@ =~= seq!['\n', '\n']);
            assert(r@ =~= joined(texts(parts@), seq!['\n', '\n']) + seq!['\n']);
        }
        r
    }
}

/// Adds the row of a goal.
fn push_goal_row(rows: &mut Vec<Vec<String>>, g: &DisplayGoal)
    requires
        g.wf(),
    ensures
        row_texts(final(rows)@) == row_texts(old(rows)@).push(goal_row(*g)),
{
    let mut row: Vec<String> = Vec::new();
    push_text(&mut row, g.name.clone());
    push_text(&mut row, amount_text(&g.currency, &g.committed));
    push_text(&mut row, amount_text(&g.currency, &g.committed_this_period));
    match &g.to_commit_this_period {
        Some(f) => push_text(&mut row, amount_text(&g.currency, f)),
        None => push_text(&mut row, text("✅")),
    }
    push_text(&mut row, amount_text(&g.currency, &g.target));
    let ghost before = rows@;
    rows.push(row);
    proof {
        assert(texts(row@) =~= goal_row(*g));
        assert(row_texts(rows@) =~= row_texts(before).push(texts(row@)));
    }
}

} // verus!
