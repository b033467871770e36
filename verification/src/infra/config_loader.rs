//! The translator configuration: providers per candidate, batch limits and
//! the DeepL settings.
use vstd::prelude::*;

use crate::adapters::types::ProviderKind;

verus! {

#[derive(Debug, Clone)]
pub struct TranslatorConfig {
    pub candidate1_provider: ProviderKind,
    pub candidate2_provider: ProviderKind,
    pub candidate3_provider: ProviderKind,
    pub batch_max_items: usize,
    pub batch_max_chars: usize,
    pub deepl_api_key: Option<String>,
    pub deepl_use_free_endpoint: Option<bool>,
}

impl Default for TranslatorConfig {
    /// Google, Amazon and DeepL; batches of 50 items and 3000 characters;
    /// no DeepL key; the free DeepL endpoint.
    fn default() -> (r: Self)
        ensures
            r.candidate1_provider == ProviderKind::Google,
            r.candidate2_provider == ProviderKind::Amazon,
            r.candidate3_provider == ProviderKind::DeepL,
            r.batch_max_items == 50,
            r.batch_max_chars == 3000,
            r.deepl_api_key is None,
            r.deepl_use_free_endpoint == Some(true),
    {
        TranslatorConfig {
            candidate1_provider: ProviderKind::Google,
            candidate2_provider: ProviderKind::Amazon,
            candidate3_provider: ProviderKind::DeepL,
            batch_max_items: 50,
            batch_max_chars: 3000,
            deepl_api_key: None,
            deepl_use_free_endpoint: Some(true),
        }
    }
}

} // verus!
