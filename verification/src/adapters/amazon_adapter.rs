//! The rules of the Amazon Translate provider: language codes, how an error
//! message is classified, and the response and error of one request. The
//! SDK call itself is made by the caller.
use vstd::prelude::*;

use crate::adapters::provider_rules::{has, to_upper, unicode_upper};
use crate::adapters::types::{AdapterError, AdapterErrorKind, Lang, ProviderKind, TranslateRequest, TranslateResponse};
use crate::text::{chars_of, contains_seq, push_all, string_of};

verus! {

/// The Amazon provider.
#[derive(Debug, Clone, Copy)]
pub struct AmazonAdapter;

/// Amazon's language code; `Auto` is refused.
pub open spec fn spec_amazon_lang(l: Lang) -> Option<Seq<char>> {
    match l {
        Lang::Ja => Some("ja"@),
        Lang::Zh => Some("zh"@),
        Lang::En => Some("en"@),
        Lang::De => Some("de"@),
        Lang::Vi => Some("vi"@),
        Lang::Auto => None,
    }
}

/// The kind of an Amazon failure, from its upper-cased message.
pub open spec fn spec_aws_error_kind(upper: Seq<char>) -> AdapterErrorKind {
    if contains_seq(upper, "TIMEOUT"@) {
        AdapterErrorKind::Timeout
    } else if contains_seq(upper, "SUBSCRIPTIONREQUIREDEXCEPTION"@) || contains_seq(upper, "INVALIDSIGNATUREEXCEPTION"@)
        || contains_seq(upper, "UNRECOGNIZEDCLIENTEXCEPTION"@) || contains_seq(upper, "AUTH"@) || contains_seq(
        upper,
        "ACCESS KEY"@,
    ) {
        AdapterErrorKind::Auth
    } else if contains_seq(upper, "THROTTL"@) || contains_seq(upper, "RATE"@) {
        AdapterErrorKind::RateLimit
    } else if contains_seq(upper, "NETWORK"@) || contains_seq(upper, "CONNECT"@) {
        AdapterErrorKind::Network
    } else if contains_seq(upper, "5XX"@) || contains_seq(upper, "INTERNAL"@) || contains_seq(upper, "SERVER"@) {
        AdapterErrorKind::Server
    } else {
        AdapterErrorKind::Unknown
    }
}

fn amazon_err(kind: AdapterErrorKind, m: Vec<char>) -> (e: AdapterError)
    ensures
        e.provider == ProviderKind::Amazon,
        e.error_kind == kind,
        e.message@ == m@,
{
    AdapterError::new(ProviderKind::Amazon, kind, string_of(&m))
}

impl AmazonAdapter {
    pub fn new() -> (r: Self) {
        AmazonAdapter
    }

    /// Amazon's code for a language; `Auto` is a configuration error.
    pub fn normalize_amazon_lang(lang: Lang) -> (r: Result<&'static str, AdapterError>)
        ensures
            match spec_amazon_lang(lang) {
                Some(c) => r matches Ok(s) && s@ == c,
                None => r matches Err(e) && e.provider == ProviderKind::Amazon && e.error_kind
                    == AdapterErrorKind::InvalidConfig && e.message@
                    == "Amazon source/target language cannot be Auto in this adapter"@,
            },
    {
        match lang {
            Lang::Ja => Ok("ja"),
            Lang::Zh => Ok("zh"),
            Lang::En => Ok("en"),
            Lang::De => Ok("de"),
            Lang::Vi => Ok("vi"),
            Lang::Auto => Err(
                amazon_err(
                    AdapterErrorKind::InvalidConfig,
                    chars_of("Amazon source/target language cannot be Auto in this adapter"),
                ),
            ),
        }
    }

    /// The kind of a failure, from its upper-cased message.
    pub fn error_kind_from_upper(upper: &str) -> (k: AdapterErrorKind)
        ensures
            k == spec_aws_error_kind(upper@),
    {
        let u = chars_of(upper);
        if has(&u, "TIMEOUT") {
            AdapterErrorKind::Timeout
        } else if has(&u, "SUBSCRIPTIONREQUIREDEXCEPTION") || has(&u, "INVALIDSIGNATUREEXCEPTION") || has(
            &u,
            "UNRECOGNIZEDCLIENTEXCEPTION",
        ) || has(&u, "AUTH") || has(&u, "ACCESS KEY") {
            AdapterErrorKind::Auth
        } else if has(&u, "THROTTL") || has(&u, "RATE") {
            AdapterErrorKind::RateLimit
        } else if has(&u, "NETWORK") || has(&u, "CONNECT") {
            AdapterErrorKind::Network
        } else if has(&u, "5XX") || has(&u, "INTERNAL") || has(&u, "SERVER") {
            AdapterErrorKind::Server
        } else {
            AdapterErrorKind::Unknown
        }
    }

    /// The kind of a failure, from its message.
    pub fn map_aws_error_message(msg: &str) -> (k: AdapterErrorKind)
        ensures
            k == spec_aws_error_kind(unicode_upper(msg@)),
    {
        Self::error_kind_from_upper(to_upper(msg).as_str())
    }

    /// The error of a failed request, from the failure's debug text.
    pub fn translate_failed(msg: &str) -> (e: AdapterError)
        ensures
            e.provider == ProviderKind::Amazon,
            e.error_kind == spec_aws_error_kind(unicode_upper(msg@)),
            e.message@ == "amazon translate failed: "@ + msg@,
    {
        let kind = Self::map_aws_error_message(msg);
        let mut m = chars_of("amazon translate failed: ");
        push_all(&mut m, &chars_of(msg));
        amazon_err(kind, m)
    }

    /// The error when no runtime could be made for the request.
    pub fn runtime_failed(msg: &str) -> (e: AdapterError)
        ensures
            e.provider == ProviderKind::Amazon,
            e.error_kind == AdapterErrorKind::InvalidConfig,
            e.message@ == "Failed to create tokio runtime: "@ + msg@,
    {
        let mut m = chars_of("Failed to create tokio runtime: ");
        push_all(&mut m, &chars_of(msg));
        amazon_err(AdapterErrorKind::InvalidConfig, m)
    }

    /// The response of a request Amazon translated: the source language is
    /// the requested one.
    pub fn translated(request: &TranslateRequest, translated_text: String) -> (r: TranslateResponse)
        ensures
            r.request_id@ == request.request_id@,
            r.provider == ProviderKind::Amazon,
            r.translated_text == translated_text,
            r.detected_source_lang == Some(request.from_lang),
            r.raw_meta is None,
    {
        TranslateResponse {
            request_id: request.request_id.clone(),
            provider: ProviderKind::Amazon,
            translated_text,
            detected_source_lang: Some(request.from_lang),
            raw_meta: None,
        }
    }
}

} // verus!
