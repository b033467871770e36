//! Request / response / error types shared by every translation provider.
use vstd::prelude::*;

verus! {

/// Languages the tool translates between.
#[derive(Debug, Clone, Copy, PartialEq, Eq, Structural)]
pub enum Lang {
    Ja,
    Zh,
    En,
    De,
    Vi,
    Auto,
}

impl Lang {
    /// DeepL's language code; `Auto` has none.
    pub fn to_deepl_code(self) -> (r: Option<&'static str>)
        ensures
            match self {
                Lang::Ja => r matches Some(c) && c@ == "JA"@,
                Lang::Zh => r matches Some(c) && c@ == "ZH"@,
                Lang::En => r matches Some(c) && c@ == "EN"@,
                Lang::De => r matches Some(c) && c@ == "DE"@,
                Lang::Vi => r matches Some(c) && c@ == "VI"@,
                Lang::Auto => r is None,
            },
    {
        match self {
            Lang::Ja => Some("JA"),
            Lang::Zh => Some("ZH"),
            Lang::En => Some("EN"),
            Lang::De => Some("DE"),
            Lang::Vi => Some("VI"),
            Lang::Auto => None,
        }
    }
}

/// Translation providers.
#[derive(Debug, Clone, Copy, PartialEq, Eq, Structural)]
pub enum ProviderKind {
    Google,
    Amazon,
    DeepL,
    Mock,
}

/// The log label of a provider.
pub open spec fn spec_provider_label(p: ProviderKind) -> Seq<char> {
    match p {
        ProviderKind::DeepL => "DEEPL"@,
        ProviderKind::Google => "GOOGLE"@,
        ProviderKind::Amazon => "AMAZON"@,
        ProviderKind::Mock => "MOCK"@,
    }
}

impl ProviderKind {
    pub fn as_label(&self) -> (r: &'static str)
        ensures
            r@ == spec_provider_label(*self),
    {
        match self {
            ProviderKind::DeepL => "DEEPL",
            ProviderKind::Google => "GOOGLE",
            ProviderKind::Amazon => "AMAZON",
            ProviderKind::Mock => "MOCK",
        }
    }
}

/// One text to translate.
#[derive(Debug, Clone)]
pub struct TranslateRequest {
    pub request_id: String,
    pub provider: ProviderKind,
    pub text: String,
    pub from_lang: Lang,
    pub to_lang: Lang,
    pub timeout_ms: u64,
}

/// One translated text.
#[derive(Debug, Clone)]
pub struct TranslateResponse {
    pub request_id: String,
    pub provider: ProviderKind,
    pub translated_text: String,
    pub detected_source_lang: Option<Lang>,
    pub raw_meta: Option<String>,
}

#[derive(Debug, Clone, Copy, PartialEq, Eq, Structural)]
pub enum AdapterErrorKind {
    Timeout,
    Empty,
    Auth,
    RateLimit,
    Server,
    Network,
    InvalidConfig,
    Parse,
    Unknown,
}

/// A provider failure.
#[derive(Debug, Clone)]
pub struct AdapterError {
    pub provider: ProviderKind,
    pub error_kind: AdapterErrorKind,
    pub message: String,
}

impl AdapterError {
    pub fn new(provider: ProviderKind, error_kind: AdapterErrorKind, message: String) -> (r: Self)
        ensures
            r.provider == provider,
            r.error_kind == error_kind,
            r.message == message,
    {
        Self { provider, error_kind, message }
    }
}

} // verus!
