use core1_etb::adapters::types::ProviderKind;
use core1_etb::core2::generate_workbook_writer::{candidate_labels, collect_all_main_sheet_names};
use core1_etb::entry::job_plan_settings::{CandidateConfig, Method};

fn cfg(index: u8, provider: Option<ProviderKind>, method: Method) -> CandidateConfig {
    CandidateConfig { index, provider, method, enabled: true }
}

#[test]
fn labels_come_from_the_settings_only() {
    let configs = [
        cfg(1, Some(ProviderKind::Google), Method::Split),
        cfg(2, Some(ProviderKind::Amazon), Method::Split),
        cfg(3, Some(ProviderKind::DeepL), Method::Whole),
    ];
    let (p, m) = candidate_labels(&vec![1, 3], &configs);
    assert_eq!(p, vec!["GOOGLE".to_string(), "None".to_string(), "DEEPL".to_string()]);
    assert_eq!(m, vec!["split".to_string(), "none".to_string(), "whole".to_string()]);
    let (p, m) = candidate_labels(&vec![], &configs);
    assert_eq!(p[0], "GOOGLE");
    assert_eq!(m[0], "split");
    assert_eq!(p[2], "None");
}

#[test]
fn an_enabled_candidate_without_provider_is_recorded_as_none() {
    let configs = [
        cfg(1, None, Method::Split),
        cfg(2, None, Method::Split),
        cfg(3, None, Method::Whole),
    ];
    let (p, m) = candidate_labels(&vec![1, 2, 3], &configs);
    assert_eq!(p, vec!["None".to_string(), "None".to_string(), "None".to_string()]);
    assert_eq!(m[2], "whole");
}

#[test]
fn the_tools_own_sheets_are_left_out() {
    let names = vec!["Main".to_string(), "UI".to_string(), "Data".to_string(), "WARN".to_string()];
    let special = vec!["UI".to_string(), "WARN".to_string()];
    assert_eq!(collect_all_main_sheet_names(&names, &special), vec!["Main".to_string(), "Data".to_string()]);
}
