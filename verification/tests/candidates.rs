use std::cell::RefCell;

use core1_etb::adapters::amazon_mock_adapter::AmazonMockTranslator;
use core1_etb::adapters::mock2_adapter::Mock2Translator;
use core1_etb::adapters::translator_trait::TranslatorAdapter;
use core1_etb::adapters::types::{
    AdapterError, AdapterErrorKind, Lang, ProviderKind, TranslateRequest, TranslateResponse,
};
use core1_etb::core1::analyzer::build_candidate_bundle;
use core1_etb::core1::candidates::{run_batches, translate_segments_for_cells, translate_whole_for_cells};
use core1_etb::core1::translation_policy::TranslationPolicyDecision;
use core1_etb::core1::types::DefaultSelect;
use core1_etb::core2::structure_types::{LogicalCell, LogicalCellKind};
use core1_etb::direction::ja_zh::JaZhProfile;

/// Answers with the text in brackets and records every request it gets.
struct Recorder {
    seen: RefCell<Vec<TranslateRequest>>,
    fail: bool,
}

impl Recorder {
    fn new(fail: bool) -> Self {
        Recorder { seen: RefCell::new(Vec::new()), fail }
    }
}

impl TranslatorAdapter for Recorder {
    fn provider_kind(&self) -> ProviderKind {
        ProviderKind::Mock
    }

    fn translate_once(&self, request: &TranslateRequest) -> Result<TranslateResponse, AdapterError> {
        self.seen.borrow_mut().push(request.clone());
        if self.fail {
            return Err(AdapterError::new(ProviderKind::Mock, AdapterErrorKind::Network, "down".to_string()));
        }
        Ok(TranslateResponse {
            request_id: request.request_id.clone(),
            provider: ProviderKind::Mock,
            translated_text: format!("[{}]", request.text),
            detected_source_lang: None,
            raw_meta: None,
        })
    }
}

fn cell(id: &str, kind: LogicalCellKind, text: &str) -> LogicalCell {
    LogicalCell {
        is_merged: false,
        is_merge_anchor: false,
        merge_anchor_address: None,
        writeback_allowed: true,
        logical_cell_id: format!("S!{id}"),
        sheet_name: "S".into(),
        anchor_address: id.into(),
        cell_kind: kind,
        source_text: text.into(),
    }
}

fn translate() -> TranslationPolicyDecision {
    TranslationPolicyDecision { translate_candidates: true, note: String::new() }
}

#[test]
fn segment_method_sends_only_the_japanese_run() {
    let cells = vec![cell("A1", LogicalCellKind::Text, "確認 ABC")];
    let policies = vec![translate()];
    let out = translate_segments_for_cells("c1", &cells, &policies, &Mock2Translator, 50, 3000, Lang::Ja, Lang::Zh, &JaZhProfile);
    assert_eq!(out, vec![Ok("确认_G ABC".to_string())]);

    let rec = Recorder::new(false);
    let _ = translate_segments_for_cells("c1", &cells, &policies, &rec, 50, 3000, Lang::Ja, Lang::Zh, &JaZhProfile);
    let seen = rec.seen.borrow();
    assert_eq!(seen.len(), 1);
    assert_eq!(seen[0].text, "確認");
    assert_eq!(seen[0].from_lang, Lang::Ja);
    assert_eq!(seen[0].to_lang, Lang::Zh);
    assert_eq!(seen[0].request_id, "c1-1-1");
}

#[test]
fn whole_method_translates_only_formula_literals() {
    let cells = vec![cell("B1", LogicalCellKind::FormulaRaw, r#"=IF(A1,"確認","高速")"#)];
    let policies = vec![translate()];
    let out = translate_whole_for_cells("c3", &cells, &policies, &AmazonMockTranslator, 50, 3000, Lang::Ja, Lang::Zh);
    assert_eq!(out, vec![Ok(r#"=IF(A1,"确认_A","高速_A")"#.to_string())]);

    let rec = Recorder::new(false);
    let _ = translate_whole_for_cells("c3", &cells, &policies, &rec, 50, 3000, Lang::Ja, Lang::Zh);
    let texts: Vec<String> = rec.seen.borrow().iter().map(|r| r.text.clone()).collect();
    assert_eq!(texts, vec!["確認".to_string(), "高速".to_string()]);
}

#[test]
fn single_bundle_takes_each_candidate_from_its_adapter() {
    let c = cell("A1", LogicalCellKind::Text, "確認");
    let policy = TranslationPolicyDecision { translate_candidates: true, note: "n".into() };
    let b = build_candidate_bundle(
        &c,
        &policy,
        DefaultSelect::Candidate1,
        &AmazonMockTranslator,
        &Mock2Translator,
        &AmazonMockTranslator,
        &JaZhProfile,
    )
    .unwrap();
    assert_eq!(b.candidate1.as_deref(), Some("确认_A"));
    assert_eq!(b.candidate2.as_deref(), Some("确认_G"));
    assert_eq!(b.candidate3.as_deref(), Some("确认_A"));
    assert_eq!(b.default_select, DefaultSelect::Candidate1);
    assert!(b.alarms.candidate1_alarm.is_none());
    assert!(b.alarms.candidate2_alarm.is_none());
    assert!(b.alarms.candidate3_alarm.is_none());
    assert_eq!(b.original, "確認");
    assert_eq!(b.logical_cell_id, "S!A1");
    assert_eq!(b.note, "n");
}

#[test]
fn batches_keep_each_answer_with_its_text() {
    let texts: Vec<String> = ["一", "二", "三"].iter().map(|t| t.to_string()).collect();
    let rec = Recorder::new(false);
    let out = run_batches(&rec, "job", "-", "segment", &texts, 2, 3000, Lang::Ja, Lang::Zh);
    assert_eq!(out, vec![Ok("[一]".to_string()), Ok("[二]".to_string()), Ok("[三]".to_string())]);
    let ids: Vec<String> = rec.seen.borrow().iter().map(|r| r.request_id.clone()).collect();
    assert_eq!(ids, vec!["job-1-1".to_string(), "job-1-2".to_string(), "job-2-1".to_string()]);
}

#[test]
fn a_failed_batch_fails_each_of_its_texts() {
    let texts: Vec<String> = ["一", "二"].iter().map(|t| t.to_string()).collect();
    let rec = Recorder::new(true);
    let out = run_batches(&rec, "job", "-", "segment", &texts, 1, 3000, Lang::Ja, Lang::Zh);
    assert_eq!(out, vec![Err("down".to_string()), Err("down".to_string())]);
}
