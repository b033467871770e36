use core1_etb::adapters::types::ProviderKind;
use core1_etb::entry::job_plan_settings::{
    parse_method, parse_mode, parse_provider, validate_and_repair_plan, JobCourseMode, JobPlanSettings, Method,
};
use core1_etb::entry::sheet_select_cli::{
    confirm_decision, parse_sheet_selection, sheet_prompt_step, ConfirmDecision, SheetPrompt,
};
use core1_etb::entry::entry_state::EntryError;
use core1_etb::entry::generate_entry_pipeline::convert_entry_error;
use core1_etb::infra::app_error::AppError;

#[test]
fn default_plan_runs_three_candidates() {
    let p = JobPlanSettings::default();
    assert_eq!(p.mode, JobCourseMode::Paid);
    assert_eq!(p.enabled_candidates, vec![1, 2, 3]);
    assert_eq!(p.candidate3_provider, Some(ProviderKind::DeepL));
    assert_eq!(p.candidate3_method, Method::Whole);
    assert_eq!(p.experience_range, "A1:D5");
}

#[test]
fn settings_words_are_read_case_insensitively() {
    assert_eq!(parse_mode(" Trial "), JobCourseMode::Experience);
    assert_eq!(parse_mode("体験"), JobCourseMode::Experience);
    assert_eq!(parse_mode("有料"), JobCourseMode::Paid);
    assert_eq!(parse_mode("other"), JobCourseMode::Paid);
    assert_eq!(parse_provider("DEEP_L"), Some(ProviderKind::DeepL));
    assert_eq!(parse_provider("bing"), None);
    assert_eq!(parse_method(" Whole_Cell "), Some(Method::Whole));
    assert_eq!(parse_method("split"), Some(Method::Split));
    assert_eq!(parse_method("x"), None);
}

#[test]
fn repair_keeps_deepl_out_of_split_candidates() {
    let mut p = JobPlanSettings::default();
    p.mode = JobCourseMode::Experience;
    p.candidate1_provider = Some(ProviderKind::DeepL);
    p.candidate2_provider = Some(ProviderKind::DeepL);
    p.candidate3_provider = None;
    p.enabled_candidates = vec![3, 1, 2];
    p.default_candidate_priority = vec![3, 9, 3, 1];
    p.experience_range = " B2:C3 ".to_string();
    validate_and_repair_plan(&mut p);
    assert_eq!(p.candidate1_provider, Some(ProviderKind::Google));
    assert_eq!(p.candidate2_provider, Some(ProviderKind::Amazon));
    assert_eq!(p.candidate3_provider, Some(ProviderKind::DeepL));
    assert_eq!(p.experience_range, "A1:D5");
    assert_eq!(p.default_candidate_priority, vec![3, 1, 2]);
}

#[test]
fn repair_leaves_disabled_candidates_alone() {
    let mut p = JobPlanSettings::default();
    p.enabled_candidates = vec![3];
    p.candidate1_provider = Some(ProviderKind::DeepL);
    p.default_candidate_priority = vec![1, 2];
    validate_and_repair_plan(&mut p);
    assert_eq!(p.candidate1_provider, Some(ProviderKind::DeepL));
    assert_eq!(p.default_candidate_priority, vec![3]);
}

fn names() -> Vec<String> {
    vec!["Main".to_string(), "Sub".to_string(), "Data".to_string()]
}

fn internal(r: Result<Vec<String>, EntryError>) -> String {
    match r {
        Err(EntryError::Internal(m)) => m,
        other => panic!("unexpected {other:?}"),
    }
}

#[test]
fn sheets_are_selected_by_number_name_or_all() {
    assert_eq!(parse_sheet_selection(" 3, Main ,1", &names(), false).unwrap(), vec!["Data".to_string(), "Main".to_string()]);
    assert_eq!(parse_sheet_selection("ALL", &names(), false).unwrap(), names());
    assert_eq!(parse_sheet_selection("2", &names(), true).unwrap(), vec!["Sub".to_string()]);
}

#[test]
fn bad_sheet_selections_are_refused() {
    assert_eq!(internal(parse_sheet_selection("  ", &names(), false)), "empty sheet selection");
    assert_eq!(internal(parse_sheet_selection("1,,2", &names(), false)), "empty sheet selection token");
    assert_eq!(internal(parse_sheet_selection("4", &names(), false)), "sheet index out of range: 4");
    assert_eq!(internal(parse_sheet_selection("Nope", &names(), false)), "unknown sheet selection token: Nope");
    assert_eq!(internal(parse_sheet_selection("all", &names(), true)), "experience course allows single sheet number only");
    assert_eq!(internal(parse_sheet_selection("1,2", &names(), true)), "experience course allows single sheet number only");
    assert_eq!(internal(parse_sheet_selection("Main", &names(), true)), "experience course requires a sheet number");
    assert_eq!(internal(parse_sheet_selection("0", &names(), true)), "sheet index out of range: 0");
}

#[test]
fn prompt_answers_lead_to_exit_choice_or_retry() {
    assert!(matches!(sheet_prompt_step(" Exit ", &names(), false), SheetPrompt::Exit));
    assert!(matches!(sheet_prompt_step("q", &names(), true), SheetPrompt::Exit));
    match sheet_prompt_step("2", &names(), false) {
        SheetPrompt::Chosen(v) => assert_eq!(v, vec!["Sub".to_string()]),
        other => panic!("unexpected {other:?}"),
    }
    assert!(matches!(sheet_prompt_step("9", &names(), false), SheetPrompt::Invalid(EntryError::Internal(_))));
}

#[test]
fn confirmation_answers() {
    assert_eq!(confirm_decision(" OK "), ConfirmDecision::Proceed);
    assert_eq!(confirm_decision("Back"), ConfirmDecision::Back);
    assert_eq!(confirm_decision("Q"), ConfirmDecision::Exit);
    assert_eq!(confirm_decision("yes"), ConfirmDecision::Retry);
}

#[test]
fn entry_errors_become_pipeline_errors() {
    match convert_entry_error(EntryError::UserExit) {
        AppError::Internal(m) => assert_eq!(m, "user exited generate pipeline"),
        other => panic!("unexpected {other:?}"),
    }
    match convert_entry_error(EntryError::Internal("boom".to_string())) {
        AppError::Internal(m) => assert_eq!(m, "boom"),
        other => panic!("unexpected {other:?}"),
    }
}

#[test]
fn cleaned_priority_has_each_enabled_candidate_once_and_is_stable() {
    let mut p = JobPlanSettings::default();
    p.enabled_candidates = vec![3, 1];
    p.default_candidate_priority = vec![2, 3, 3];
    let once = p.normalized_priority();
    assert_eq!(once, vec![3, 1]);
    p.default_candidate_priority = once.clone();
    assert_eq!(p.normalized_priority(), once);
}
