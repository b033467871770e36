use core1_etb::plan_select::{
    accept_choice, apply_course, build_candidate1_only_plan, build_candidate3_only_plan,
    build_plan_for_choice, build_standard_plan,
};

#[test]
fn standard_plan_runs_three_candidates() {
    let p = build_standard_plan();
    assert_eq!(p.mode, "paid");
    assert_eq!(p.plan_name, "STANDARD_3_CANDIDATES");
    assert_eq!(p.enabled_candidates, vec![1, 2, 3]);
    assert_eq!(p.candidate1_provider.as_deref(), Some("Google"));
    assert_eq!(p.candidate2_provider.as_deref(), Some("Amazon"));
    assert_eq!(p.candidate3_provider.as_deref(), Some("DeepL"));
    assert_eq!(p.default_candidate_priority, vec![1, 2, 3]);
    assert_eq!(p.charge_unit, "fixed_estimate_billing");
}

#[test]
fn candidate1_plan_never_offers_deepl() {
    let g = build_candidate1_only_plan("1");
    assert_eq!(g.candidate1_provider.as_deref(), Some("Google"));
    let a = build_candidate1_only_plan("2");
    assert_eq!(a.candidate1_provider.as_deref(), Some("Amazon"));
    assert_eq!(a.enabled_candidates, vec![1]);
    assert!(a.candidate2_provider.is_none() && a.candidate3_provider.is_none());
}

#[test]
fn candidate3_plan_is_deepl_whole_cell() {
    let p = build_candidate3_only_plan();
    assert_eq!(p.plan_name, "LOW_COST_CANDIDATE3_ONLY");
    assert_eq!(p.enabled_candidates, vec![3]);
    assert_eq!(p.candidate3_provider.as_deref(), Some("DeepL"));
}

#[test]
fn experience_course_fixes_the_range_and_prefixes_the_note() {
    let p = apply_course(build_candidate3_only_plan(), "1");
    assert_eq!(p.mode, "experience");
    assert_eq!(p.experience_range, "A1:D5");
    assert_eq!(
        p.note,
        "Experience course. Translation support target is fixed to A1:D5. Low-cost plan. Candidate3 whole-cell translation only. Apply is still required for final delivery."
    );
    let q = apply_course(build_standard_plan(), "2");
    assert_eq!(q.mode, "paid");
    assert_eq!(q.note, build_standard_plan().note);
}

#[test]
fn plan_answers_map_to_plans() {
    assert_eq!(build_plan_for_choice("1", "").unwrap().plan_name, "STANDARD_3_CANDIDATES");
    assert_eq!(build_plan_for_choice("2", "2").unwrap().candidate1_provider.as_deref(), Some("Amazon"));
    assert_eq!(build_plan_for_choice("3", "").unwrap().plan_name, "LOW_COST_CANDIDATE3_ONLY");
    assert!(build_plan_for_choice("4", "1").is_none());
}

#[test]
fn answers_are_trimmed_and_checked() {
    let allowed = vec!["1".to_string(), "2".to_string()];
    assert_eq!(accept_choice(" 2\n", &allowed), Some("2".to_string()));
    assert_eq!(accept_choice("3", &allowed), None);
    assert_eq!(accept_choice("", &allowed), None);
}
