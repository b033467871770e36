//! The rules of the Google Translation (v2, API key) provider: languages,
//! batch checks, error classes and how an answer becomes responses. The
//! HTTP exchange itself is done by the caller.
use vstd::prelude::*;

use crate::adapters::provider_rules::{
    classify_reqwest_error, has, spec_classify_lower, spec_summary_lower, summarize_reqwest_error, to_upper,
    unicode_lower, unicode_upper,
};
use crate::adapters::types::{AdapterError, AdapterErrorKind, Lang, ProviderKind, TranslateRequest, TranslateResponse};
use crate::decimal::{dec, dec_chars};
use crate::text::{
    chars_of, contains_seq, eq_vec, push_all, replace_seq, replace_vec, string_of, trim_seq, trim_vec,
};

verus! {

broadcast use vstd::seq_lib::group_seq_properties;

/// The Google provider.
#[derive(Debug, Clone, Copy)]
pub struct GoogleAdapter;

/// Google's code for a language detected in an upper-cased code.
pub open spec fn spec_google_detected(upper: Seq<char>) -> Option<Lang> {
    if upper == "JA"@ {
        Some(Lang::Ja)
    } else if upper == "ZH"@ || upper == "ZH-CN"@ || upper == "ZH-HANS"@ {
        Some(Lang::Zh)
    } else if upper == "EN"@ {
        Some(Lang::En)
    } else if upper == "DE"@ {
        Some(Lang::De)
    } else {
        None
    }
}

/// The kind of an HTTP error, from its status or else its upper-cased body.
pub open spec fn spec_google_http_error(status: u16, body_upper: Seq<char>) -> AdapterErrorKind {
    if status == 400 || status == 404 {
        AdapterErrorKind::InvalidConfig
    } else if status == 401 || status == 403 {
        AdapterErrorKind::Auth
    } else if status == 408 {
        AdapterErrorKind::Timeout
    } else if status == 429 {
        AdapterErrorKind::RateLimit
    } else if 500 <= status <= 599 {
        AdapterErrorKind::Server
    } else if contains_seq(body_upper, "AUTH"@) || contains_seq(body_upper, "API KEY"@) || contains_seq(
        body_upper,
        "API_KEY"@,
    ) || contains_seq(body_upper, "CREDENTIAL"@) || contains_seq(body_upper, "PERMISSION"@) {
        AdapterErrorKind::Auth
    } else if contains_seq(body_upper, "RATE"@) || contains_seq(body_upper, "TOO MANY"@) {
        AdapterErrorKind::RateLimit
    } else if contains_seq(body_upper, "TIMEOUT"@) || contains_seq(body_upper, "TIMED OUT"@) {
        AdapterErrorKind::Timeout
    } else {
        AdapterErrorKind::Unknown
    }
}

/// Google's language code; `Auto` is refused.
pub open spec fn spec_google_lang(l: Lang) -> Option<Seq<char>> {
    match l {
        Lang::Ja => Some("ja"@),
        Lang::Zh => Some("zh-CN"@),
        Lang::En => Some("en"@),
        Lang::De => Some("de"@),
        Lang::Vi => Some("vi"@),
        Lang::Auto => None,
    }
}

/// A message with every occurrence of a (non-empty) API key masked.
pub open spec fn google_sanitized(msg: Seq<char>, key: Seq<char>) -> Seq<char> {
    if key.len() == 0 {
        msg
    } else {
        replace_seq(msg, key, "<GOOGLE_API_KEY_MASKED>"@)
    }
}

pub open spec fn google_error(kind: AdapterErrorKind, m: Seq<char>, e: AdapterError) -> bool {
    e.provider == ProviderKind::Google && e.error_kind == kind && e.message@ == m
}

/// All requests of a batch go between the same two languages.
pub open spec fn same_langs(requests: Seq<TranslateRequest>) -> bool {
    forall|i: int|
        0 <= i < requests.len() ==> #[trigger] requests[i].from_lang == requests[0].from_lang
            && requests[i].to_lang == requests[0].to_lang
}

pub open spec fn count_mismatch(requests: nat, responses: nat) -> Seq<char> {
    "Google response count mismatch: requests="@ + dec(requests) + " responses="@ + dec(responses)
}

/// The responses built from Google's translations: none is an error, a
/// count other than the requests' is an error, else one response per
/// request, in order, with the detected language read from its code.
pub open spec fn google_responses(
    requests: Seq<TranslateRequest>,
    translations: Seq<(String, Option<String>)>,
    r: Result<Vec<TranslateResponse>, AdapterError>,
) -> bool {
    if translations.len() == 0 {
        r matches Err(e) && google_error(AdapterErrorKind::Empty, "Google returned no translations"@, e)
    } else if translations.len() != requests.len() {
        r matches Err(e) && google_error(
            AdapterErrorKind::Parse,
            count_mismatch(requests.len(), translations.len()),
            e,
        )
    } else {
        r matches Ok(v) && v@.len() == requests.len() && forall|i: int|
            0 <= i < requests.len() ==> {
                &&& (#[trigger] v@[i]).request_id@ == requests[i].request_id@
                &&& v@[i].provider == ProviderKind::Google
                &&& v@[i].translated_text@ == translations[i].0@
                &&& v@[i].detected_source_lang == spec_google_detected(
                    unicode_upper(
                        match translations[i].1 {
                            Some(c) => c@,
                            None => Seq::empty(),
                        },
                    ),
                )
                &&& v@[i].raw_meta is None
            }
    }
}

fn google_err(kind: AdapterErrorKind, m: Vec<char>) -> (e: AdapterError)
    ensures
        google_error(kind, m@, e),
{
    AdapterError::new(ProviderKind::Google, kind, string_of(&m))
}

impl GoogleAdapter {
    pub fn new() -> (r: Self) {
        GoogleAdapter
    }

    /// The language detected in an upper-cased code.
    pub fn detected_from_upper(upper: &str) -> (r: Option<Lang>)
        ensures
            r == spec_google_detected(upper@),
    {
        let u = chars_of(upper);
        if eq_vec(&u, &chars_of("JA")) {
            Some(Lang::Ja)
        } else if eq_vec(&u, &chars_of("ZH")) || eq_vec(&u, &chars_of("ZH-CN")) || eq_vec(&u, &chars_of("ZH-HANS")) {
            Some(Lang::Zh)
        } else if eq_vec(&u, &chars_of("EN")) {
            Some(Lang::En)
        } else if eq_vec(&u, &chars_of("DE")) {
            Some(Lang::De)
        } else {
            None
        }
    }

    /// The language Google detected, from its code.
    pub fn map_detected_lang(lang_code: Option<&str>) -> (r: Option<Lang>)
        ensures
            r == spec_google_detected(
                unicode_upper(
                    match lang_code {
                        Some(c) => c@,
                        None => Seq::empty(),
                    },
                ),
            ),
    {
        let code = match lang_code {
            Some(c) => c,
            None => "",
        };
        proof {
            reveal_strlit("");
            assert(""@ =~= Seq::<char>::empty());
        }
        Self::detected_from_upper(to_upper(code).as_str())
    }

    /// The kind of an HTTP error, from its status and upper-cased body.
    pub fn http_error_from_upper(status_code: u16, body_upper: &str) -> (k: AdapterErrorKind)
        ensures
            k == spec_google_http_error(status_code, body_upper@),
    {
        if status_code == 400 || status_code == 404 {
            AdapterErrorKind::InvalidConfig
        } else if status_code == 401 || status_code == 403 {
            AdapterErrorKind::Auth
        } else if status_code == 408 {
            AdapterErrorKind::Timeout
        } else if status_code == 429 {
            AdapterErrorKind::RateLimit
        } else if 500 <= status_code && status_code <= 599 {
            AdapterErrorKind::Server
        } else {
            let b = chars_of(body_upper);
            if has(&b, "AUTH") || has(&b, "API KEY") || has(&b, "API_KEY") || has(&b, "CREDENTIAL") || has(
                &b,
                "PERMISSION",
            ) {
                AdapterErrorKind::Auth
            } else if has(&b, "RATE") || has(&b, "TOO MANY") {
                AdapterErrorKind::RateLimit
            } else if has(&b, "TIMEOUT") || has(&b, "TIMED OUT") {
                AdapterErrorKind::Timeout
            } else {
                AdapterErrorKind::Unknown
            }
        }
    }

    /// The kind of an HTTP error.
    pub fn map_http_error(status_code: u16, body: &str) -> (k: AdapterErrorKind)
        ensures
            k == spec_google_http_error(status_code, unicode_upper(body@)),
    {
        Self::http_error_from_upper(status_code, to_upper(body).as_str())
    }

    /// Google's code for a language; `Auto` is a configuration error.
    pub fn normalize_google_lang(lang: Lang) -> (r: Result<&'static str, AdapterError>)
        ensures
            match spec_google_lang(lang) {
                Some(c) => r matches Ok(s) && s@ == c,
                None => r matches Err(e) && google_error(
                    AdapterErrorKind::InvalidConfig,
                    "Google API-key v2 adapter requires explicit source/target language"@,
                    e,
                ),
            },
    {
        match lang {
            Lang::Ja => Ok("ja"),
            Lang::Zh => Ok("zh-CN"),
            Lang::En => Ok("en"),
            Lang::De => Ok("de"),
            Lang::Vi => Ok("vi"),
            Lang::Auto => Err(
                google_err(
                    AdapterErrorKind::InvalidConfig,
                    chars_of("Google API-key v2 adapter requires explicit source/target language"),
                ),
            ),
        }
    }

    pub fn classify_reqwest_error(msg: &str) -> (k: AdapterErrorKind)
        ensures
            k == crate::adapters::provider_rules::spec_classify_lower(
                crate::adapters::provider_rules::unicode_lower(msg@),
            ),
    {
        classify_reqwest_error(msg)
    }

    pub fn summarize_reqwest_error(msg: &str) -> (r: &'static str)
        ensures
            r@ == crate::adapters::provider_rules::spec_summary_lower(
                crate::adapters::provider_rules::unicode_lower(msg@),
            ),
    {
        summarize_reqwest_error(msg)
    }

    /// A message with every occurrence of the API key masked.
    pub fn sanitize_message(msg: &str, api_key: &str) -> (r: String)
        ensures
            r@ == google_sanitized(msg@, api_key@),
    {
        let k = chars_of(api_key);
        if k.len() == 0 {
            string_of(&chars_of(msg))
        } else {
            string_of(&replace_vec(&chars_of(msg), &k, &chars_of("<GOOGLE_API_KEY_MASKED>")))
        }
    }

    /// The API key from its setting: missing or blank is a configuration
    /// error; otherwise it is used trimmed.
    pub fn api_key_from(raw: Option<String>) -> (r: Result<String, AdapterError>)
        ensures
            match raw {
                None => r matches Err(e) && google_error(
                    AdapterErrorKind::InvalidConfig,
                    "GOOGLE_TRANSLATE_API_KEY missing"@,
                    e,
                ),
                Some(k) => if trim_seq(k@).len() == 0 {
                    r matches Err(e) && google_error(
                        AdapterErrorKind::InvalidConfig,
                        "GOOGLE_TRANSLATE_API_KEY is empty"@,
                        e,
                    )
                } else {
                    r matches Ok(t) && t@ == trim_seq(k@)
                },
            },
    {
        match raw {
            None => Err(google_err(AdapterErrorKind::InvalidConfig, chars_of("GOOGLE_TRANSLATE_API_KEY missing"))),
            Some(k) => {
                let t = trim_vec(&chars_of(k.as_str()));
                if t.len() == 0 {
                    Err(google_err(AdapterErrorKind::InvalidConfig, chars_of("GOOGLE_TRANSLATE_API_KEY is empty")))
                } else {
                    Ok(string_of(&t))
                }
            },
        }
    }

    /// The languages of a non-empty batch; a batch mixing languages is a
    /// configuration error.
    pub fn batch_langs(requests: &[TranslateRequest]) -> (r: Result<(Lang, Lang), AdapterError>)
        requires
            requests@.len() > 0,
        ensures
            same_langs(requests@) ==> r == Ok::<(Lang, Lang), AdapterError>(
                (requests@[0].from_lang, requests@[0].to_lang),
            ),
            !same_langs(requests@) ==> (r matches Err(e) && google_error(
                AdapterErrorKind::InvalidConfig,
                "Google batch requires same source/target lang within one batch"@,
                e,
            )),
    {
        let first_target = requests[0].to_lang;
        let first_source = requests[0].from_lang;
        let mut i: usize = 1;
        while i < requests.len()
            invariant
                1 <= i <= requests.len(),
                first_target == requests@[0].to_lang,
                first_source == requests@[0].from_lang,
                forall|j: int|
                    0 <= j < i ==> #[trigger] requests@[j].from_lang == first_source && requests@[j].to_lang
                        == first_target,
            decreases requests.len() - i,
        {
            if requests[i].to_lang != first_target || requests[i].from_lang != first_source {
                proof {
                    assert(!(requests@[i as int].from_lang == requests@[0].from_lang && requests@[i as int].to_lang
                        == requests@[0].to_lang));
                }
                return Err(
                    google_err(
                        AdapterErrorKind::InvalidConfig,
                        chars_of("Google batch requires same source/target lang within one batch"),
                    ),
                );
            }
            i += 1;
        }
        Ok((first_source, first_target))
    }

    /// The texts sent for a batch, in order.
    pub fn request_texts(requests: &[TranslateRequest]) -> (r: Vec<String>)
        ensures
            r@.len() == requests@.len(),
            forall|i: int| 0 <= i < requests@.len() ==> (#[trigger] r@[i])@ == requests@[i].text@,
    {
        let mut out: Vec<String> = Vec::new();
        let mut i: usize = 0;
        while i < requests.len()
            invariant
                i <= requests.len(),
                out@.len() == i,
                forall|j: int| 0 <= j < i ==> (#[trigger] out@[j])@ == requests@[j].text@,
            decreases requests.len() - i,
        {
            out.push(requests[i].text.clone());
            i += 1;
        }
        out
    }

    /// The error of a request that could not be sent: its class and the
    /// message with the key masked.
    pub fn request_failed_error(msg: &str, api_key: &str) -> (e: AdapterError)
        ensures
            google_error(
                spec_classify_lower(unicode_lower(google_sanitized(msg@, api_key@))),
                "google v2 api-key request failed: class="@ + spec_summary_lower(
                    unicode_lower(google_sanitized(msg@, api_key@)),
                ) + " message="@ + google_sanitized(msg@, api_key@),
                e,
            ),
    {
        let sanitized = Self::sanitize_message(msg, api_key);
        let summary = summarize_reqwest_error(sanitized.as_str());
        let kind = classify_reqwest_error(sanitized.as_str());
        let mut m = chars_of("google v2 api-key request failed: class=");
        push_all(&mut m, &chars_of(summary));
        push_all(&mut m, &chars_of(" message="));
        push_all(&mut m, &chars_of(sanitized.as_str()));
        proof {
            assert(m@ =~= "google v2 api-key request failed: class="@ + summary@ + " message="@ + sanitized@);
        }
        google_err(kind, m)
    }

    /// The error of an answer with a failing HTTP status.
    pub fn http_status_error(status_code: u16, body: &str) -> (e: AdapterError)
        ensures
            e.provider == ProviderKind::Google,
            e.error_kind == spec_google_http_error(status_code, unicode_upper(body@)),
            e.message@ == "google v2 http error: status="@ + dec(status_code as nat) + " body="@ + body@,
    {
        let kind = Self::map_http_error(status_code, body);
        let mut m = chars_of("google v2 http error: status=");
        push_all(&mut m, &dec_chars(status_code as usize));
        push_all(&mut m, &chars_of(" body="));
        push_all(&mut m, &chars_of(body));
        proof {
            assert(m@ =~= "google v2 http error: status="@ + dec(status_code as nat) + " body="@ + body@);
        }
        google_err(kind, m)
    }

    /// The responses of a batch from Google's translations `(text, detected
    /// language code)`.
    pub fn responses_from(
        requests: &[TranslateRequest],
        translations: &Vec<(String, Option<String>)>,
    ) -> (r: Result<Vec<TranslateResponse>, AdapterError>)
        ensures
            google_responses(requests@, translations@, r),
    {
        if translations.len() == 0 {
            return Err(google_err(AdapterErrorKind::Empty, chars_of("Google returned no translations")));
        }
        if translations.len() != requests.len() {
            let mut m = chars_of("Google response count mismatch: requests=");
            push_all(&mut m, &dec_chars(requests.len()));
            push_all(&mut m, &chars_of(" responses="));
            push_all(&mut m, &dec_chars(translations.len()));
            return Err(google_err(AdapterErrorKind::Parse, m));
        }
        let mut out: Vec<TranslateResponse> = Vec::new();
        let mut i: usize = 0;
        while i < requests.len()
            invariant
                i <= requests.len(),
                translations@.len() == requests@.len(),
                out@.len() == i,
                forall|j: int|
                    0 <= j < i ==> {
                        &&& (#[trigger] out@[j]).request_id@ == requests@[j].request_id@
                        &&& out@[j].provider == ProviderKind::Google
                        &&& out@[j].translated_text@ == translations@[j].0@
                        &&& out@[j].detected_source_lang == spec_google_detected(
                            unicode_upper(
                                match translations@[j].1 {
                                    Some(c) => c@,
                                    None => Seq::empty(),
                                },
                            ),
                        )
                        &&& out@[j].raw_meta is None
                    },
            decreases requests.len() - i,
        {
            let detected = match &translations[i].1 {
                Some(c) => Self::map_detected_lang(Some(c.as_str())),
                None => Self::map_detected_lang(None),
            };
            out.push(
                TranslateResponse {
                    request_id: requests[i].request_id.clone(),
                    provider: ProviderKind::Google,
                    translated_text: translations[i].0.clone(),
                    detected_source_lang: detected,
                    raw_meta: None,
                },
            );
            i += 1;
        }
        Ok(out)
    }
}

} // verus!
