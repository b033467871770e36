use core1_etb::core2::structure_types::{LogicalCell, LogicalCellKind};
use core1_etb::entry::estimate_entry_pipeline::{cells_in_scope, is_in_experience_range, split_cell_address};
use core1_etb::plan::{resolve, PlanPolicy};

fn cell(addr: &str) -> LogicalCell {
    LogicalCell {
        is_merged: false,
        is_merge_anchor: false,
        merge_anchor_address: None,
        writeback_allowed: true,
        logical_cell_id: format!("S!{addr}"),
        sheet_name: "S".to_string(),
        anchor_address: addr.to_string(),
        cell_kind: LogicalCellKind::Text,
        source_text: "東京".to_string(),
    }
}

#[test]
fn the_experience_course_keeps_only_a1_to_d5() {
    let plan = resolve(" Trial ").expect("free plan");
    let cells = vec![cell("A1"), cell("D5"), cell("E5"), cell("B6"), cell("AA1"), cell("c3")];
    let kept: Vec<String> = cells_in_scope(cells, plan.cell_scope()).into_iter().map(|c| c.anchor_address).collect();
    assert_eq!(kept, vec!["A1".to_string(), "D5".to_string(), "c3".to_string()]);
}

#[test]
fn the_paid_course_keeps_every_cell() {
    let plan = resolve("paid").expect("paid plan");
    let kept = cells_in_scope(vec![cell("A1"), cell("ZZ99")], plan.cell_scope());
    assert_eq!(kept.len(), 2);
    assert!(resolve("gold").is_err());
}

#[test]
fn addresses_split_into_column_and_row() {
    assert_eq!(split_cell_address("AB12"), Some((28, 12)));
    assert_eq!(split_cell_address("12"), None);
    assert_eq!(split_cell_address("A"), None);
    assert!(is_in_experience_range("D5"));
    assert!(!is_in_experience_range("D6"));
}
