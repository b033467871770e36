//! An offline stand-in provider for tests and dry runs.
use vstd::prelude::*;

use crate::adapters::translator_trait::TranslatorAdapter;
use crate::adapters::types::{AdapterError, ProviderKind, TranslateRequest, TranslateResponse};
use crate::text::{chars_of, eq_vec, push_all, string_of};

verus! {

/// The fixed answer of this stand-in: two known words, otherwise the text
/// wrapped as `A<...>`.
pub open spec fn spec_amazon_mock_adapter_text(t: Seq<char>) -> Seq<char> {
    if t == "確認"@ {
        "确认_A"@
    } else if t == "高速"@ {
        "高速_A"@
    } else {
        "A<"@ + t + ">"@
    }
}

#[derive(Debug, Clone, Copy)]
pub struct AmazonMockTranslator;

impl Default for AmazonMockTranslator {
    fn default() -> (r: Self) {
        AmazonMockTranslator
    }
}

impl TranslatorAdapter for AmazonMockTranslator {
    fn provider_kind(&self) -> (r: ProviderKind)
        ensures
            r == ProviderKind::Amazon,
    {
        ProviderKind::Amazon
    }

    fn translate_once(&self, request: &TranslateRequest) -> (r: Result<TranslateResponse, AdapterError>)
        ensures
            r matches Ok(resp) && resp.translated_text@ == spec_amazon_mock_adapter_text(request.text@)
                && resp.request_id == request.request_id && resp.provider == ProviderKind::Amazon
                && resp.detected_source_lang is None && resp.raw_meta is None,
    {
        let t = chars_of(request.text.as_str());
        let translated_text = if eq_vec(&t, &chars_of("確認")) {
            "确认_A".to_owned()
        } else if eq_vec(&t, &chars_of("高速")) {
            "高速_A".to_owned()
        } else {
            let mut v = chars_of("A<");
            push_all(&mut v, &t);
            push_all(&mut v, &chars_of(">"));
            string_of(&v)
        };
        Ok(TranslateResponse {
            request_id: request.request_id.clone(),
            provider: ProviderKind::Amazon,
            translated_text,
            detected_source_lang: None,
            raw_meta: None,
        })
    }
}

} // verus!
