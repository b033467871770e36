use core1_etb::entry::estimate_entry_pipeline::add_sheet_usage;
use core1_etb::adapters::types::ProviderKind;
use core1_etb::pricing::estimate::{
    billing_prices, floor_to_10_yen, provider_estimates, EstimateInput, MINIMUM_PRICE_YEN,
};

fn input() -> EstimateInput {
    EstimateInput {
        mode: "paid".to_string(),
        selected_sheets: vec!["Main".to_string()],
        logical_cells: 10,
        translatable_cells: 8,
        candidate_units: 24,
        candidate1_provider: Some(ProviderKind::Google),
        candidate1_requests: 2,
        candidate1_chars: 100,
        candidate2_provider: Some(ProviderKind::Amazon),
        candidate2_requests: 3,
        candidate2_chars: 120,
        candidate3_provider: None,
        candidate3_requests: 0,
        candidate3_chars: 0,
    }
}

#[test]
fn prices_round_down_to_ten_yen() {
    assert_eq!(floor_to_10_yen(0), 0);
    assert_eq!(floor_to_10_yen(9), 0);
    assert_eq!(floor_to_10_yen(1239), 1230);
}

#[test]
fn the_minimum_price_applies_to_small_jobs() {
    let p = billing_prices(&input(), 125, 88);
    assert_eq!(p.planned_requests, 5);
    assert_eq!(p.planned_sent_chars, 220);
    assert_eq!(p.cell_based_price_yen, 120);
    assert_eq!(p.char_based_price_yen, 80);
    assert_eq!(p.metered_price_yen, 120);
    assert!(p.minimum_applied);
    assert_eq!(p.billing_price_yen, MINIMUM_PRICE_YEN);
    assert!(p.message.contains("最低料金は300円"));
}

#[test]
fn the_higher_metered_price_is_billed_above_the_minimum() {
    let p = billing_prices(&input(), 451, 1009);
    assert_eq!(p.metered_price_yen, 1000);
    assert!(!p.minimum_applied);
    assert_eq!(p.billing_price_yen, 1000);
    assert!(p.message.contains("今回の請求確定額は1000円"));
}

#[test]
fn each_provider_gets_its_planned_load() {
    let e = provider_estimates(&input());
    assert_eq!(e.len(), 2);
    assert_eq!(e[0].provider, "GOOGLE");
    assert_eq!(e[0].candidate_no, 1);
    assert_eq!(e[0].request_count, 2);
    assert_eq!(e[1].provider, "AMAZON");
    assert_eq!(e[1].sent_chars, 120);
}

fn usage(n: usize) -> core1_etb::core1::analyzer::CandidateUsageEstimate {
    core1_etb::core1::analyzer::CandidateUsageEstimate {
        translatable_cells: n,
        candidate_units: n + 1,
        candidate1_requests: n + 2,
        candidate1_chars: n + 3,
        candidate2_requests: n + 4,
        candidate2_chars: n + 5,
        candidate3_requests: n + 6,
        candidate3_chars: n + 7,
    }
}

#[test]
fn sheet_usages_add_up_field_by_field() {
    let t = add_sheet_usage(&usage(10), &usage(100)).unwrap();
    assert_eq!(t.translatable_cells, 110);
    assert_eq!(t.candidate_units, 112);
    assert_eq!(t.candidate1_requests, 114);
    assert_eq!(t.candidate3_chars, 124);
    assert!(add_sheet_usage(&usage(usize::MAX - 7), &usage(1)).is_none());
}
