use core1_etb::core1::analyzer::{decide_fallback_default_select, CandidateGenerationPlan};
use core1_etb::core1::types::DefaultSelect;

fn ok(s: &str) -> Result<String, String> {
    Ok(s.to_string())
}

fn err() -> Result<String, String> {
    Err("rate limited".to_string())
}

#[test]
fn a_failed_candidate_is_never_the_default() {
    let plan = CandidateGenerationPlan::default_plan();
    let (c1, c2, c3) = (err(), ok("b"), ok("c"));
    let d = decide_fallback_default_select(DefaultSelect::Candidate1, &plan, Some(&c1), Some(&c2), Some(&c3));
    assert_eq!(d, DefaultSelect::Candidate2);
    let (c1, c2, c3) = (err(), err(), err());
    let d = decide_fallback_default_select(DefaultSelect::Candidate1, &plan, Some(&c1), Some(&c2), Some(&c3));
    assert_eq!(d, DefaultSelect::Original);
}

#[test]
fn the_original_stays_the_original() {
    let plan = CandidateGenerationPlan::default_plan();
    let (c1, c2, c3) = (ok("a"), ok("b"), ok("c"));
    let d = decide_fallback_default_select(DefaultSelect::Original, &plan, Some(&c1), Some(&c2), Some(&c3));
    assert_eq!(d, DefaultSelect::Original);
}

#[test]
fn the_priority_order_decides_the_fallback() {
    let mut plan = CandidateGenerationPlan::default_plan();
    plan.default_candidate_priority = vec![3, 2, 1];
    let (c1, c2, c3) = (ok("a"), ok("b"), ok("c"));
    let d = decide_fallback_default_select(DefaultSelect::Candidate1, &plan, Some(&c1), Some(&c2), Some(&c3));
    assert_eq!(d, DefaultSelect::Candidate3);
    assert_eq!(plan.priority(), vec![3, 2, 1]);
    plan.enabled_candidates = vec![1, 2];
    assert_eq!(plan.priority(), vec![2, 1]);
}
