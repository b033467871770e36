use core1_etb::adapters::mock2_adapter::Mock2Translator;
use core1_etb::adapters::translator_trait::TranslatorAdapter;
use core1_etb::adapters::types::TranslateRequest;
use core1_etb::adapters::amazon_adapter::AmazonAdapter;
use core1_etb::adapters::deepl_adapter;
use core1_etb::adapters::google_adapter::GoogleAdapter;
use core1_etb::adapters::provider_rules::{classify_reqwest_error, summarize_reqwest_error};
use core1_etb::adapters::types::{AdapterErrorKind, Lang, ProviderKind};

#[test]
fn request_failures_are_classified_in_any_case() {
    assert_eq!(classify_reqwest_error("operation TIMED OUT"), AdapterErrorKind::Timeout);
    assert_eq!(classify_reqwest_error("connection refused"), AdapterErrorKind::Network);
    assert_eq!(summarize_reqwest_error("TLS Handshake: Unexpected EOF"), "TLS_HANDSHAKE_UNEXPECTED_EOF");
    assert_eq!(summarize_reqwest_error("DNS error"), "DNS_OR_RESOLVE_FAILED");
    assert_eq!(summarize_reqwest_error("Connect error"), "CONNECT_FAILED");
    assert_eq!(summarize_reqwest_error("boom"), "REQUEST_SEND_FAILED");
}

#[test]
fn detected_languages_are_read_in_any_case() {
    assert_eq!(GoogleAdapter::map_detected_lang(Some("zh-cn")), Some(Lang::Zh));
    assert_eq!(GoogleAdapter::map_detected_lang(Some("ja")), Some(Lang::Ja));
    assert_eq!(GoogleAdapter::map_detected_lang(None), None);
    assert_eq!(deepl_adapter::map_detected_lang(Some("de")), Some(Lang::De));
}

#[test]
fn http_errors_map_to_kinds() {
    assert_eq!(GoogleAdapter::map_http_error(403, ""), AdapterErrorKind::Auth);
    assert_eq!(GoogleAdapter::map_http_error(429, ""), AdapterErrorKind::RateLimit);
    assert_eq!(GoogleAdapter::map_http_error(503, ""), AdapterErrorKind::Server);
    assert_eq!(GoogleAdapter::map_http_error(418, "bad api key"), AdapterErrorKind::Auth);
    assert_eq!(GoogleAdapter::map_http_error(418, "teapot"), AdapterErrorKind::Unknown);
}

#[test]
fn aws_messages_map_to_kinds() {
    assert_eq!(AmazonAdapter::map_aws_error_message("ThrottlingException"), AdapterErrorKind::RateLimit);
    assert_eq!(AmazonAdapter::map_aws_error_message("request timeout"), AdapterErrorKind::Timeout);
    assert_eq!(AmazonAdapter::map_aws_error_message("weird"), AdapterErrorKind::Unknown);
    let e = AmazonAdapter::translate_failed("UnrecognizedClientException");
    assert_eq!(e.provider, ProviderKind::Amazon);
    assert_eq!(e.error_kind, AdapterErrorKind::Auth);
    assert_eq!(e.message, "amazon translate failed: UnrecognizedClientException");
}

#[test]
fn languages_are_coded_per_provider() {
    assert_eq!(AmazonAdapter::normalize_amazon_lang(Lang::Zh).unwrap(), "zh");
    assert_eq!(AmazonAdapter::normalize_amazon_lang(Lang::Auto).unwrap_err().error_kind, AdapterErrorKind::InvalidConfig);
    assert_eq!(GoogleAdapter::normalize_google_lang(Lang::Ja).unwrap(), "ja");
}

#[test]
fn deepl_free_keys_use_the_free_endpoint() {
    assert_eq!(deepl_adapter::endpoint_for_key("abc:fx "), "https://api-free.deepl.com/v2/translate");
    assert_eq!(deepl_adapter::endpoint_label("abc"), "api-pro");
}

#[test]
fn google_request_failure_masks_the_key() {
    let e = GoogleAdapter::request_failed_error("timeout calling ?key=SECRETKEY", "SECRETKEY");
    assert_eq!(e.provider, ProviderKind::Google);
    assert_eq!(e.error_kind, AdapterErrorKind::Timeout);
    assert_eq!(
        e.message,
        "google v2 api-key request failed: class=TIMEOUT message=timeout calling ?key=<GOOGLE_API_KEY_MASKED>"
    );
}

#[test]
fn a_batch_answers_each_request_in_order() {
    let req = |id: &str, text: &str| TranslateRequest {
        request_id: id.to_string(),
        provider: ProviderKind::Mock,
        text: text.to_string(),
        from_lang: Lang::Ja,
        to_lang: Lang::Zh,
        timeout_ms: 1000,
    };
    let out = Mock2Translator::default().translate_batch(&[req("r1", "確認"), req("r2", "机")]).unwrap();
    assert_eq!(out.len(), 2);
    assert_eq!(out[0].translated_text, "确认_G");
    assert_eq!(out[1].translated_text, "G<机>");
    assert_eq!(out[1].request_id, "r2");
}
