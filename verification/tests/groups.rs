use remaining::amounts::ExchangeRates;
use remaining::date::Date;
use remaining::operand::{IllustrationValue, Operand};
use remaining::remaining_operation::Group;

fn operand(ex: &ExchangeRates, name: &str, fields: Vec<&str>) -> Operand {
    Operand {
        name: name.to_string(),
        amount: ex.yen("10"),
        illustration: fields.into_iter().map(|f| (f.to_string(), IllustrationValue::Bool(true))).collect(),
        archived_from: None,
    }
}

#[test]
fn group_fields_must_match() {
    let ex = ExchangeRates::for_tests();
    let ok = Group::new("Things", vec![operand(&ex, "a", vec!["X", "Y"]), operand(&ex, "b", vec!["X", "Y"])]).unwrap();
    assert_eq!(ok.name(), "Things");
    assert_eq!(ok.operands().len(), 2);

    let err = Group::new("Things", vec![operand(&ex, "a", vec!["X", "Y"]), operand(&ex, "b \"quoted\"", vec!["X"])]).unwrap_err();
    assert_eq!(
        err,
        "Adding an operand (\"b \\\"quoted\\\"\") whose fields ([\"X\"]) does not match that of the rest of the operand in this group ([\"X\", \"Y\"])"
    );
}

#[test]
fn group_screen_hides_archived_operands() {
    let ex = ExchangeRates::for_tests();
    let today = Date::from_ymd(2025, 3, 10).unwrap();
    let mut archived = operand(&ex, "old account", vec!["X"]);
    archived.archived_from = Some(Date::from_ymd(2025, 3, 1).unwrap());
    let mut archived_empty = operand(&ex, "closed account", vec!["X"]);
    archived_empty.archived_from = Some(Date::from_ymd(2025, 2, 1).unwrap());
    archived_empty.amount = ex.yen("0");
    let mut not_yet = operand(&ex, "closing later", vec!["X"]);
    not_yet.archived_from = Some(Date::from_ymd(2025, 4, 1).unwrap());
    let group = Group::new("Accounts", vec![operand(&ex, "main", vec!["X"]), archived, archived_empty, not_yet]).unwrap();
    let screen = group.into_remaining_operation_screen_group(&ex, "JPY", &today).unwrap();
    let shown: Vec<String> = screen.operands.iter().map(|o| o.name.clone()).collect();
    assert_eq!(shown, vec!["main".to_string(), "closing later".to_string()]);
    assert_eq!(screen.archived_operand_with_non_zero_amounts, vec!["old account".to_string()]);
    // The total counts every operand.
    assert_eq!(screen.total.in_cents(), 3000);
    assert_eq!(screen.illustration_fields, vec!["X".to_string()]);
}
