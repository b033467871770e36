//! The rules of the DeepL provider: language codes, endpoints, batch
//! checks, error classes and how an answer becomes responses. The client
//! and the HTTP exchange are the caller's.
use vstd::prelude::*;

use crate::adapters::provider_rules::{has, to_upper, unicode_upper};
use crate::adapters::types::{AdapterError, AdapterErrorKind, Lang, ProviderKind, TranslateRequest, TranslateResponse};
use crate::decimal::{dec, dec_chars};
use crate::text::{chars_of, contains_seq, ends_with_exec, ends_with_seq, eq_vec, push_all, string_of, trim_seq, trim_vec};

verus! {

broadcast use vstd::seq_lib::group_seq_properties;

/// The language DeepL detected, from an upper-cased code.
pub open spec fn spec_deepl_detected(upper: Seq<char>) -> Option<Lang> {
    if upper == "JA"@ {
        Some(Lang::Ja)
    } else if upper == "ZH"@ {
        Some(Lang::Zh)
    } else if upper == "EN"@ {
        Some(Lang::En)
    } else if upper == "DE"@ {
        Some(Lang::De)
    } else if upper == "VI"@ {
        Some(Lang::Vi)
    } else {
        None
    }
}

pub fn detected_from_upper(upper: &str) -> (r: Option<Lang>)
    ensures
        r == spec_deepl_detected(upper@),
{
    let u = chars_of(upper);
    if eq_vec(&u, &chars_of("JA")) {
        Some(Lang::Ja)
    } else if eq_vec(&u, &chars_of("ZH")) {
        Some(Lang::Zh)
    } else if eq_vec(&u, &chars_of("EN")) {
        Some(Lang::En)
    } else if eq_vec(&u, &chars_of("DE")) {
        Some(Lang::De)
    } else if eq_vec(&u, &chars_of("VI")) {
        Some(Lang::Vi)
    } else {
        None
    }
}

pub open spec fn opt_code(c: Option<&str>) -> Seq<char> {
    match c {
        Some(x) => x@,
        None => Seq::empty(),
    }
}

/// The language DeepL detected, from its code.
pub fn map_detected_lang(lang_code: Option<&str>) -> (r: Option<Lang>)
    ensures
        r == spec_deepl_detected(unicode_upper(opt_code(lang_code))),
{
    let code = match lang_code {
        Some(c) => c,
        None => "",
    };
    proof {
        reveal_strlit("");
        assert(""@ =~= Seq::<char>::empty());
    }
    detected_from_upper(to_upper(code).as_str())
}

/// The kind of an HTTP error, from its status or else its upper-cased body.
pub open spec fn spec_deepl_http_error(status: u16, body_upper: Seq<char>) -> AdapterErrorKind {
    if status == 400 || status == 404 {
        AdapterErrorKind::InvalidConfig
    } else if status == 401 || status == 403 {
        AdapterErrorKind::Auth
    } else if status == 408 {
        AdapterErrorKind::Timeout
    } else if status == 429 || status == 456 {
        AdapterErrorKind::RateLimit
    } else if 500 <= status <= 599 {
        AdapterErrorKind::Server
    } else if contains_seq(body_upper, "AUTH"@) || contains_seq(body_upper, "KEY"@) {
        AdapterErrorKind::Auth
    } else if contains_seq(body_upper, "RATE"@) || contains_seq(body_upper, "TOO MANY"@) || contains_seq(
        body_upper,
        "QUOTA"@,
    ) {
        AdapterErrorKind::RateLimit
    } else {
        AdapterErrorKind::Unknown
    }
}

pub fn http_error_from_upper(status_code: u16, body_upper: &str) -> (k: AdapterErrorKind)
    ensures
        k == spec_deepl_http_error(status_code, body_upper@),
{
    if status_code == 400 || status_code == 404 {
        AdapterErrorKind::InvalidConfig
    } else if status_code == 401 || status_code == 403 {
        AdapterErrorKind::Auth
    } else if status_code == 408 {
        AdapterErrorKind::Timeout
    } else if status_code == 429 || status_code == 456 {
        AdapterErrorKind::RateLimit
    } else if 500 <= status_code && status_code <= 599 {
        AdapterErrorKind::Server
    } else {
        let b = chars_of(body_upper);
        if has(&b, "AUTH") || has(&b, "KEY") {
            AdapterErrorKind::Auth
        } else if has(&b, "RATE") || has(&b, "TOO MANY") || has(&b, "QUOTA") {
            AdapterErrorKind::RateLimit
        } else {
            AdapterErrorKind::Unknown
        }
    }
}

/// The kind of an HTTP error.
pub fn map_http_error(status_code: u16, body: &str) -> (k: AdapterErrorKind)
    ensures
        k == spec_deepl_http_error(status_code, unicode_upper(body@)),
{
    http_error_from_upper(status_code, to_upper(body).as_str())
}

/// Is the key one of the free plan (ending in `:fx`)?
pub open spec fn is_free_key(key: Seq<char>) -> bool {
    ends_with_seq(trim_seq(key), ":fx"@)
}

fn free_key(api_key: &str) -> (b: bool)
    ensures
        b == is_free_key(api_key@),
{
    ends_with_exec(&trim_vec(&chars_of(api_key)), &chars_of(":fx"))
}

/// The endpoint a key is used with.
pub fn endpoint_for_key(api_key: &str) -> (r: &'static str)
    ensures
        r@ == if is_free_key(api_key@) {
            "https://api-free.deepl.com/v2/translate"@
        } else {
            "https://api.deepl.com/v2/translate"@
        },
{
    if free_key(api_key) {
        "https://api-free.deepl.com/v2/translate"
    } else {
        "https://api.deepl.com/v2/translate"
    }
}

/// The log label of that endpoint.
pub fn endpoint_label(api_key: &str) -> (r: &'static str)
    ensures
        r@ == if is_free_key(api_key@) {
            "api-free"@
        } else {
            "api-pro"@
        },
{
    if free_key(api_key) {
        "api-free"
    } else {
        "api-pro"
    }
}

pub open spec fn deepl_error(kind: AdapterErrorKind, m: Seq<char>, e: AdapterError) -> bool {
    e.provider == ProviderKind::DeepL && e.error_kind == kind && e.message@ == m
}

fn deepl_err(kind: AdapterErrorKind, m: Vec<char>) -> (e: AdapterError)
    ensures
        deepl_error(kind, m@, e),
{
    AdapterError::new(ProviderKind::DeepL, kind, string_of(&m))
}

/// What DeepL is sent for a batch, or why it cannot be: a blank key, mixed
/// languages or a target without a DeepL code. `Ok(None)` for an empty
/// batch (nothing is sent); else the target code and the source code, if
/// the source has one.
pub open spec fn spec_deepl_batch(api_key: Seq<char>, requests: Seq<TranslateRequest>) -> Result<
    Option<(Seq<char>, Option<Seq<char>>)>,
    (AdapterErrorKind, Seq<char>),
> {
    if trim_seq(api_key).len() == 0 {
        Err((AdapterErrorKind::InvalidConfig, "DEEPL api key is empty"@))
    } else if requests.len() == 0 {
        Ok(None)
    } else if !crate::adapters::google_adapter::same_langs(requests) {
        Err((AdapterErrorKind::InvalidConfig, "DeepL batch requires same source/target lang within one batch"@))
    } else {
        match deepl_code(requests[0].to_lang) {
            None => Err((AdapterErrorKind::InvalidConfig, "DeepL target language is invalid or Auto"@)),
            Some(t) => Ok(Some((t, deepl_code(requests[0].from_lang)))),
        }
    }
}

/// DeepL's code of a language (`Lang::to_deepl_code`).
pub open spec fn deepl_code(l: Lang) -> Option<Seq<char>> {
    match l {
        Lang::Ja => Some("JA"@),
        Lang::Zh => Some("ZH"@),
        Lang::En => Some("EN"@),
        Lang::De => Some("DE"@),
        Lang::Vi => Some("VI"@),
        Lang::Auto => None,
    }
}

pub open spec fn batch_view(r: Result<Option<(&'static str, Option<&'static str>)>, AdapterError>) -> Result<
    Option<(Seq<char>, Option<Seq<char>>)>,
    (AdapterErrorKind, Seq<char>),
> {
    match r {
        Ok(None) => Ok(None),
        Ok(Some((t, s))) => Ok(Some((t@, match s {
            Some(x) => Some(x@),
            None => None,
        }))),
        Err(e) => Err((e.error_kind, e.message@)),
    }
}

pub fn check_batch(api_key: &str, requests: &[TranslateRequest]) -> (r: Result<
    Option<(&'static str, Option<&'static str>)>,
    AdapterError,
>)
    ensures
        batch_view(r) == spec_deepl_batch(api_key@, requests@),
        r matches Err(e) ==> e.provider == ProviderKind::DeepL,
{
    let trimmed_key = trim_vec(&chars_of(api_key));
    if trimmed_key.len() == 0 {
        return Err(deepl_err(AdapterErrorKind::InvalidConfig, chars_of("DEEPL api key is empty")));
    }
    if requests.len() == 0 {
        return Ok(None);
    }
    let first_target = requests[0].to_lang;
    let first_source = requests[0].from_lang;
    let mut i: usize = 1;
    while i < requests.len()
        invariant
            1 <= i <= requests.len(),
            trim_seq(api_key@).len() > 0,
            first_target == requests@[0].to_lang,
            first_source == requests@[0].from_lang,
            forall|j: int|
                0 <= j < i ==> #[trigger] requests@[j].from_lang == first_source && requests@[j].to_lang == first_target,
        decreases requests.len() - i,
    {
        if requests[i].to_lang != first_target || requests[i].from_lang != first_source {
            proof {
                assert(!(requests@[i as int].from_lang == requests@[0].from_lang && requests@[i as int].to_lang
                    == requests@[0].to_lang));
            }
            return Err(
                deepl_err(
                    AdapterErrorKind::InvalidConfig,
                    chars_of("DeepL batch requires same source/target lang within one batch"),
                ),
            );
        }
        i += 1;
    }
    match first_target.to_deepl_code() {
        None => Err(deepl_err(AdapterErrorKind::InvalidConfig, chars_of("DeepL target language is invalid or Auto"))),
        Some(t) => Ok(Some((t, first_source.to_deepl_code()))),
    }
}

/// The error of a request that could not be sent.
pub fn request_failed_error(msg: &str) -> (e: AdapterError)
    ensures
        deepl_error(
            crate::adapters::provider_rules::spec_classify_lower(crate::adapters::provider_rules::unicode_lower(msg@)),
            "deepl request failed: class="@ + crate::adapters::provider_rules::spec_summary_lower(
                crate::adapters::provider_rules::unicode_lower(msg@),
            ) + " message="@ + msg@,
            e,
        ),
{
    let summary = crate::adapters::provider_rules::summarize_reqwest_error(msg);
    let kind = crate::adapters::provider_rules::classify_reqwest_error(msg);
    let mut m = chars_of("deepl request failed: class=");
    push_all(&mut m, &chars_of(summary));
    push_all(&mut m, &chars_of(" message="));
    push_all(&mut m, &chars_of(msg));
    proof {
        assert(m@ =~= "deepl request failed: class="@ + summary@ + " message="@ + msg@);
    }
    deepl_err(kind, m)
}

/// The error of an answer with a failing HTTP status.
pub fn http_status_error(status_code: u16, body: &str) -> (e: AdapterError)
    ensures
        deepl_error(
            spec_deepl_http_error(status_code, unicode_upper(body@)),
            "deepl http error: status="@ + dec(status_code as nat) + " body="@ + body@,
            e,
        ),
{
    let kind = map_http_error(status_code, body);
    let mut m = chars_of("deepl http error: status=");
    push_all(&mut m, &dec_chars(status_code as usize));
    push_all(&mut m, &chars_of(" body="));
    push_all(&mut m, &chars_of(body));
    proof {
        assert(m@ =~= "deepl http error: status="@ + dec(status_code as nat) + " body="@ + body@);
    }
    deepl_err(kind, m)
}

pub open spec fn deepl_count_mismatch(requests: nat, responses: nat) -> Seq<char> {
    "DeepL response count mismatch: requests="@ + dec(requests) + " responses="@ + dec(responses)
}

/// The responses built from DeepL's translations `(text, detected code)`:
/// none is an error, a count other than the requests' is an error, else
/// one response per request, in order.
pub open spec fn deepl_responses(
    requests: Seq<TranslateRequest>,
    translations: Seq<(String, Option<String>)>,
    r: Result<Vec<TranslateResponse>, AdapterError>,
) -> bool {
    if translations.len() == 0 {
        r matches Err(e) && deepl_error(AdapterErrorKind::Empty, "DeepL returned no translations"@, e)
    } else if translations.len() != requests.len() {
        r matches Err(e) && deepl_error(AdapterErrorKind::Parse, deepl_count_mismatch(requests.len(), translations.len()), e)
    } else {
        r matches Ok(v) && v@.len() == requests.len() && forall|i: int|
            0 <= i < requests.len() ==> {
                &&& (#[trigger] v@[i]).request_id@ == requests[i].request_id@
                &&& v@[i].provider == ProviderKind::DeepL
                &&& v@[i].translated_text@ == translations[i].0@
                &&& v@[i].detected_source_lang == spec_deepl_detected(
                    unicode_upper(
                        match translations[i].1 {
                            Some(c) => c@,
                            None => Seq::empty(),
                        },
                    ),
                )
                &&& v@[i].raw_meta is None
            }
    }
}

pub fn responses_from(requests: &[TranslateRequest], translations: &Vec<(String, Option<String>)>) -> (r: Result<
    Vec<TranslateResponse>,
    AdapterError,
>)
    ensures
        deepl_responses(requests@, translations@, r),
{
    if translations.len() == 0 {
        return Err(deepl_err(AdapterErrorKind::Empty, chars_of("DeepL returned no translations")));
    }
    if translations.len() != requests.len() {
        let mut m = chars_of("DeepL response count mismatch: requests=");
        push_all(&mut m, &dec_chars(requests.len()));
        push_all(&mut m, &chars_of(" responses="));
        push_all(&mut m, &dec_chars(translations.len()));
        return Err(deepl_err(AdapterErrorKind::Parse, m));
    }
    let mut out: Vec<TranslateResponse> = Vec::new();
    let mut i: usize = 0;
    while i < requests.len()
        invariant
            i <= requests.len(),
            translations@.len() == requests@.len(),
            out@.len() == i,
            forall|j: int|
                0 <= j < i ==> {
                    &&& (#[trigger] out@[j]).request_id@ == requests@[j].request_id@
                    &&& out@[j].provider == ProviderKind::DeepL
                    &&& out@[j].translated_text@ == translations@[j].0@
                    &&& out@[j].detected_source_lang == spec_deepl_detected(
                        unicode_upper(
                            match translations@[j].1 {
                                Some(c) => c@,
                                None => Seq::empty(),
                            },
                        ),
                    )
                    &&& out@[j].raw_meta is None
                },
        decreases requests.len() - i,
    {
        let detected = match &translations[i].1 {
            Some(c) => map_detected_lang(Some(c.as_str())),
            None => map_detected_lang(None),
        };
        out.push(
            TranslateResponse {
                request_id: requests[i].request_id.clone(),
                provider: ProviderKind::DeepL,
                translated_text: translations[i].0.clone(),
                detected_source_lang: detected,
                raw_meta: None,
            },
        );
        i += 1;
    }
    Ok(out)
}

} // verus!
