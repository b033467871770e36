//! An offline stand-in provider for tests and dry runs.
use vstd::prelude::*;

use crate::adapters::translator_trait::TranslatorAdapter;
use crate::adapters::types::{AdapterError, ProviderKind, TranslateRequest, TranslateResponse};
use crate::text::{chars_of, eq_vec, push_all, string_of};

verus! {

/// The fixed answer of this stand-in: two known words, otherwise the text
/// wrapped as `G<...>`.
pub open spec fn spec_mock2_adapter_text(t: Seq<char>) -> Seq<char> {
    if t == "確認"@ {
        "确认_G"@
    } else if t == "高速"@ {
        "高速_G"@
    } else {
        "G<"@ + t + ">"@
    }
}

#[derive(Debug, Clone, Copy)]
pub struct Mock2Translator;

impl Default for Mock2Translator {
    fn default() -> (r: Self) {
        Mock2Translator
    }
}

impl TranslatorAdapter for Mock2Translator {
    fn provider_kind(&self) -> (r: ProviderKind)
        ensures
            r == ProviderKind::Mock,
    {
        ProviderKind::Mock
    }

    fn translate_once(&self, request: &TranslateRequest) -> (r: Result<TranslateResponse, AdapterError>)
        ensures
            r matches Ok(resp) && resp.translated_text@ == spec_mock2_adapter_text(request.text@)
                && resp.request_id == request.request_id && resp.provider == ProviderKind::Mock
                && resp.detected_source_lang is None && resp.raw_meta is None,
    {
        let t = chars_of(request.text.as_str());
        let translated_text = if eq_vec(&t, &chars_of("確認")) {
            "确认_G".to_owned()
        } else if eq_vec(&t, &chars_of("高速")) {
            "高速_G".to_owned()
        } else {
            let mut v = chars_of("G<");
            push_all(&mut v, &t);
            push_all(&mut v, &chars_of(">"));
            string_of(&v)
        };
        Ok(TranslateResponse {
            request_id: request.request_id.clone(),
            provider: ProviderKind::Mock,
            translated_text,
            detected_source_lang: None,
            raw_meta: None,
        })
    }
}

} // verus!
