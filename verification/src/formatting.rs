//! The text of the "remaining this period" screen: titles, the table of
//! each group, the warning about archived operands, and the whole screen.
use vstd::prelude::*;
use vstd::string::StringSliceAdditionalSpecFns;
use vstd::utf8::encode_utf8;
use crate::amounts::{Amount, decimal_display};
use crate::date::{date_text, spec_date_text};
use crate::operand::IllustrationValue;
use crate::remaining_operation::{RemainingOperationScreen, RemainingOperationScreenGroup, RemainingOperationScreenOperand};
use crate::text::{text, join2, join3, texts, joined, join_texts, repeat_char, push_text, lemma_texts_prefix_push};

verus! {

/// A title: the text, a line break, and as many `=` as the text has bytes
/// in UTF-8.
pub open spec fn title_text(s: Seq<char>) -> Seq<char> {
    s + seq!['\n'] + Seq::new((encode_utf8(s).len() as usize) as nat, |_i: int| '=')
}

/// The text underlined with `=`.
pub fn title(string: &str) -> (r: String)
    ensures
        r@ == title_text(string@),
{
    let n = string.len();
    let line = repeat_char('=', n);
    let mut r = String::from_str(string);
    r.append("\n");
    r.append(line.as_str());
    proof {
        reveal_strlit("\n");
        assert(r@ =~= title_text(string@));
    }
    r
}

/// What `comfy_table` renders for a table of the given header and rows,
/// with its default style.
pub uninterp spec fn table_text(header: Seq<Seq<char>>, rows: Seq<Seq<Seq<char>>>) -> Seq<char>;

/// The texts of rows of strings.
pub open spec fn row_texts(rows: Seq<Vec<String>>) -> Seq<Seq<Seq<char>>> {
    rows.map_values(|row: Vec<String>| texts(row@))
}

/// `comfy_table::Table` with the given header and rows, as text.
#[verifier::external_body]
pub(crate) fn render_table(header: &Vec<String>, rows: &Vec<Vec<String>>) -> (r: String)
    ensures
        r@ == table_text(texts(header@), row_texts(rows@)),
{
    let mut table = comfy_table::Table::new();
    table.set_header(header.clone());
    for row in rows.iter() {
        table.add_row(row.clone());
    }
    table.to_string()
}

/// How a value of an illustration is shown.
pub open spec fn illustration_text(v: IllustrationValue) -> Seq<char> {
    match v {
        IllustrationValue::Amount(a) => a.spec_currency().code.spec_sign() + decimal_display(a.spec_figure().mantissa as int, a.spec_figure().scale as int),
        IllustrationValue::NullAmount => "-"@,
        IllustrationValue::Bool(b) => if b { "✅"@ } else { Seq::empty() },
        IllustrationValue::Date(d) => spec_date_text(d),
    }
}

/// How an amount is shown.
pub open spec fn amount_text(a: Amount) -> Seq<char> {
    a.spec_currency().code.spec_sign() + decimal_display(a.spec_figure().mantissa as int, a.spec_figure().scale as int)
}

fn value_text(v: &IllustrationValue) -> (r: String)
    ensures
        r@ == illustration_text(*v),
{
    match v {
        IllustrationValue::Amount(a) => a.to_text(),
        IllustrationValue::NullAmount => text("-"),
        IllustrationValue::Bool(b) => if *b {
            text("✅")
        } else {
            let r = String::new();
            r
        },
        IllustrationValue::Date(d) => date_text(d),
    }
}

/// The header of a group's table: name, amount, then the illustration
/// fields.
pub open spec fn group_header(g: RemainingOperationScreenGroup) -> Seq<Seq<char>> {
    seq!["Name"@, "Amount"@] + texts(g.illustration_fields@)
}

/// The row of an operand: its name, its amount, then its illustration values.
pub open spec fn operand_row(o: RemainingOperationScreenOperand) -> Seq<Seq<char>> {
    seq![o.name@, amount_text(o.amount)] + o.illustration@.map_values(|x: (String, IllustrationValue)| illustration_text(x.1))
}

/// The rows of a group's table: one per operand, then the total.
pub open spec fn group_rows(g: RemainingOperationScreenGroup) -> Seq<Seq<Seq<char>>> {
    g.operands@.map_values(|o: RemainingOperationScreenOperand| operand_row(o))
        .push(seq!["Total"@, amount_text(g.total)] + Seq::new(g.illustration_fields@.len(), |_i: int| Seq::<char>::empty()))
}

/// The table of a group.
pub fn render_group_table(group: &RemainingOperationScreenGroup) -> (r: String)
    ensures
        r@ == table_text(group_header(*group), group_rows(*group)),
{
    let mut header: Vec<String> = Vec::new();
    push_text(&mut header, text("Name"));
    push_text(&mut header, text("Amount"));
    assert(texts(group.illustration_fields@.subrange(0, 0)) =~= Seq::<Seq<char>>::empty());
    let mut i: usize = 0;
    while i < group.illustration_fields.len()
        invariant
            i <= group.illustration_fields@.len(),
            texts(header@) == seq!["Name"@, "Amount"@] + texts(group.illustration_fields@.subrange(0, i as int)),
        decreases group.illustration_fields.len() - i,
    {
        push_text(&mut header, group.illustration_fields[i].clone());
        proof {
            lemma_texts_prefix_push(group.illustration_fields@, i as int);
        }
        i = i + 1;
        assert(texts(header@) =~= seq!["Name"@, "Amount"@] + texts(group.illustration_fields@.subrange(0, i as int)));
    }
    assert(group.illustration_fields@.subrange(0, i as int) =~= group.illustration_fields@);
    let mut rows: Vec<Vec<String>> = Vec::new();
    let mut k: usize = 0;
    while k < group.operands.len()
        invariant
            k <= group.operands@.len(),
            row_texts(rows@) == group.operands@.subrange(0, k as int).map_values(|o: RemainingOperationScreenOperand| operand_row(o)),
        decreases group.operands.len() - k,
    {
        let o = &group.operands[k];
        let mut row: Vec<String> = Vec::new();
        push_text(&mut row, o.name.clone());
        push_text(&mut row, o.amount.to_text());
        let mut j: usize = 0;
        while j < o.illustration.len()
            invariant
                j <= o.illustration@.len(),
                texts(row@) == seq![o.name@, amount_text(o.amount)]
                    + o.illustration@.subrange(0, j as int).map_values(|x: (String, IllustrationValue)| illustration_text(x.1)),
            decreases o.illustration.len() - j,
        {
            push_text(&mut row, value_text(&o.illustration[j].1));
            proof {
                assert(o.illustration@.subrange(0, j + 1) =~= o.illustration@.subrange(0, j as int).push(o.illustration@[j as int]));
            }
            j = j + 1;
            assert(texts(row@) =~= seq![o.name@, amount_text(o.amount)]
                + o.illustration@.subrange(0, j as int).map_values(|x: (String, IllustrationValue)| illustration_text(x.1)));
        }
        assert(o.illustration@.subrange(0, j as int) =~= o.illustration@);
        let ghost before = rows@;
        rows.push(row);
        proof {
            assert(group.operands@.subrange(0, k + 1) =~= group.operands@.subrange(0, k as int).push(group.operands@[k as int]));
            assert(row_texts(rows@) =~= row_texts(before).push(texts(row@)));
        }
        k = k + 1;
        assert(row_texts(rows@) =~= group.operands@.subrange(0, k as int).map_values(|o: RemainingOperationScreenOperand| operand_row(o)));
    }
    assert(group.operands@.subrange(0, k as int) =~= group.operands@);
    let mut total_row: Vec<String> = Vec::new();
    push_text(&mut total_row, text("Total"));
    push_text(&mut total_row, group.total.to_text());
    let mut m: usize = 0;
    while m < group.illustration_fields.len()
        invariant
            m <= group.illustration_fields@.len(),
            texts(total_row@) == seq!["Total"@, amount_text(group.total)] + Seq::new(m as nat, |_i: int| Seq::<char>::empty()),
        decreases group.illustration_fields.len() - m,
    {
        push_text(&mut total_row, String::new());
        m = m + 1;
        assert(texts(total_row@) =~= seq!["Total"@, amount_text(group.total)] + Seq::new(m as nat, |_i: int| Seq::<char>::empty()));
    }
    let ghost before_total = rows@;
    rows.push(total_row);
    proof {
        assert(row_texts(rows@) =~= row_texts(before_total).push(texts(total_row@)));
    }
    assert(row_texts(rows@) =~= group_rows(*group));
    render_table(&header, &rows)
}

/// The warning about archived operands whose amount is not zero: all but
/// the last name joined with commas, then "and" and the last name; where
/// the others join to nothing, the sentence speaks of the last one alone.
pub open spec fn archive_warning(names: Seq<Seq<char>>) -> Seq<char> {
    let sentence = if names.len() == 0 {
        Seq::empty()
    } else {
        let others = joined(names.drop_last(), ", "@);
        if others != Seq::<char>::empty() {
            others + " and "@ + names.last() + " have been archived, but their current amount is not zero and still impact the group's total."@
        } else {
            names.last() + " has been archived, but its current amount is not zero and still impact the group's total."@
        }
    };
    "⚠ "@ + sentence
}

/// See `archive_warning`.
pub fn render_archive_operand_with_non_zero_amounts_warning(operand_names: &Vec<String>) -> (r: String)
    ensures
        r@ == archive_warning(texts(operand_names@)),
{
    let n = operand_names.len();
    let sentence = if n == 0 {
        let empty = String::new();
        assert(empty@ =~= Seq::<char>::empty());
        empty
    } else {
        let mut others: Vec<String> = Vec::new();
        let mut i: usize = 0;
        assert(texts(operand_names@.subrange(0, 0)) =~= Seq::<Seq<char>>::empty());
        while i + 1 < n
            invariant
                n == operand_names@.len(),
                n > 0,
                i + 1 <= n,
                texts(others@) == texts(operand_names@.subrange(0, i as int)),
            decreases n - i,
        {
            push_text(&mut others, operand_names[i].clone());
            proof {
                lemma_texts_prefix_push(operand_names@, i as int);
            }
            i = i + 1;
        }
        assert(texts(operand_names@).drop_last() =~= texts(operand_names@.subrange(0, n - 1)));
        let joined_others = join_texts(&others, ", ");
        let last = &operand_names[n - 1];
        if !joined_others.as_str().is_empty() {
            assert(joined_others@.len() != 0);
            assert(joined_others@ != Seq::<char>::empty());
            let head = join3(joined_others.as_str(), " and ", last.as_str());
            join2(head.as_str(), " have been archived, but their current amount is not zero and still impact the group's total.")
        } else {
            assert(joined_others@ =~= Seq::<char>::empty());
            join2(last.as_str(), " has been archived, but its current amount is not zero and still impact the group's total.")
        }
    };
    proof {
        if n > 0 {
            assert(texts(operand_names@).last() == operand_names@[n - 1]@);
        }
    }
    join2("⚠ ", sentence.as_str())
}

/// A group: its title, then its table where it shows operands, then the
/// warning about archived operands or, where there is no operand either,
/// a message saying so; one per line.
pub open spec fn group_text(g: RemainingOperationScreenGroup) -> Seq<char> {
    let table: Seq<Seq<char>> = if g.operands@.len() > 0 { seq![table_text(group_header(g), group_rows(g))] } else { Seq::empty() };
    let sentence: Seq<Seq<char>> = if g.archived_operand_with_non_zero_amounts@.len() > 0 {
        seq![archive_warning(texts(g.archived_operand_with_non_zero_amounts@))]
    } else if g.operands@.len() == 0 {
        seq!["No operands for this period"@]
    } else {
        Seq::empty()
    };
    title_text(g.name@) + seq!['\n'] + joined(table + sentence, seq!['\n'])
}

/// A group as text (see `group_text`).
pub fn render_group(group: &RemainingOperationScreenGroup) -> (r: String)
    ensures
        r@ == group_text(*group),
{
    let group_title = title(group.name.as_str());
    let mut parts: Vec<String> = Vec::new();
    if group.operands.len() > 0 {
        push_text(&mut parts, render_group_table(group));
    }
    if group.archived_operand_with_non_zero_amounts.len() > 0 {
        push_text(&mut parts, render_archive_operand_with_non_zero_amounts_warning(&group.archived_operand_with_non_zero_amounts));
    } else if group.operands.len() == 0 {
        push_text(&mut parts, text("No operands for this period"));
    }
    let content = join_texts(&parts, "\n");
    proof {
        reveal_strlit("\n");
        let table: Seq<Seq<char>> = if group.operands@.len() > 0 { seq![table_text(group_header(*group), group_rows(*group))] } else { Seq::empty() };
        let sentence: Seq<Seq<char>> = if group.archived_operand_with_non_zero_amounts@.len() > 0 {
            seq![archive_warning(texts(group.archived_operand_with_non_zero_amounts@))]
        } else if group.operands@.len() == 0 {
            seq!["No operands for this period"@]
        } else {
            Seq::empty()
        };
        assert(texts(parts@) =~= table + sentence);
        assert("\n"@ =~= seq!['\n']);
    }
    let mut r = group_title;
    r.append("\n");
    r.append(content.as_str());
    proof {
        assert(r@ =~= group_text(*group));
    }
    r
}

/// The screen as text: the period, each group, what remains and the
/// release, separated by blank lines, with a final line break.
pub open spec fn screen_text(screen: RemainingOperationScreen, release: Seq<char>) -> Seq<char> {
    let parts = seq![title_text("Current period : "@ + spec_date_text(screen.period.start_date) + " to "@ + spec_date_text(screen.period.end_date))]
        + screen.groups@.map_values(|g: RemainingOperationScreenGroup| group_text(g))
        + seq![title_text("Remaining this period: "@ + amount_text(screen.remaining)), "Release: "@ + release];
    joined(parts, seq!['\n', '\n']) + seq!['\n']
}

/// See `screen_text`.
pub fn format_remaining_operation_screen(screen: &RemainingOperationScreen, release: &str) -> (r: String)
    ensures
        r@ == screen_text(*screen, release@),
{
    let mut components: Vec<String> = Vec::new();
    let period_line = join3(join2("Current period : ", date_text(&screen.period.start_date).as_str()).as_str(), " to ",
        date_text(&screen.period.end_date).as_str());
    push_text(&mut components, title(period_line.as_str()));
    let mut i: usize = 0;
    while i < screen.groups.len()
        invariant
            i <= screen.groups@.len(),
            texts(components@) == seq![title_text(period_line@)] + screen.groups@.subrange(0, i as int).map_values(|g: RemainingOperationScreenGroup| group_text(g)),
        decreases screen.groups.len() - i,
    {
        push_text(&mut components, render_group(&screen.groups[i]));
        proof {
            assert(screen.groups@.subrange(0, i + 1) =~= screen.groups@.subrange(0, i as int).push(screen.groups@[i as int]));
        }
        i = i + 1;
        assert(texts(components@) =~= seq![title_text(period_line@)] + screen.groups@.subrange(0, i as int).map_values(|g: RemainingOperationScreenGroup| group_text(g)));
    }
    assert(screen.groups@.subrange(0, i as int) =~= screen.groups@);
    let remaining_line = join2("Remaining this period: ", screen.remaining.to_text().as_str());
    push_text(&mut components, title(remaining_line.as_str()));
    push_text(&mut components, join2("Release: ", release));
    let body = join_texts(&components, "\n\n");
    let mut r = body;
    r.append("\n");
    proof {
        reveal_strlit("\n\n");
        reveal_strlit("\n");
        assert("\n"@ =~= seq!['\n']);
        assert("\n\n"@ =~= seq!['\n', '\n']);
        assert(texts(components@) =~= seq![title_text("Current period : "@ + spec_date_text(screen.period.start_date) + " to "@ + spec_date_text(screen.period.end_date))]
            + screen.groups@.map_values(|g: RemainingOperationScreenGroup| group_text(g))
            + seq![title_text("Remaining this period: "@ + amount_text(screen.remaining)), "Release: "@ + release@]);
        assert(r@ =~= screen_text(*screen, release@));
    }
    r
}

} // verus!
