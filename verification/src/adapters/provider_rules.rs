//! Rules shared by the HTTP providers: how a failed request is classified
//! and summarized, and the case conversions those rules read messages in.
use vstd::prelude::*;

use crate::adapters::types::AdapterErrorKind;
use crate::text::{chars_of, contains_exec, contains_seq};

verus! {

/// What `str::to_uppercase` gives for a text (full Unicode case mapping).
pub uninterp spec fn unicode_upper(s: Seq<char>) -> Seq<char>;

/// What `str::to_lowercase` gives for a text (full Unicode case mapping).
pub uninterp spec fn unicode_lower(s: Seq<char>) -> Seq<char>;

/// `str::to_uppercase`. Its result is named, not stated: Unicode case
/// mapping may change a text's length and is not written out here.
#[verifier::external_body]
pub(crate) fn to_upper(s: &str) -> (r: String)
    ensures
        r@ == unicode_upper(s@),
{
    s.to_uppercase()
}

/// `str::to_lowercase`. Its result is named, not stated, as for `to_upper`.
#[verifier::external_body]
pub(crate) fn to_lower(s: &str) -> (r: String)
    ensures
        r@ == unicode_lower(s@),
{
    s.to_lowercase()
}

/// Does the text `h` contain `n`?
pub(crate) fn has(h: &Vec<char>, n: &str) -> (b: bool)
    ensures
        b == contains_seq(h@, n@),
{
    contains_exec(h, &chars_of(n))
}

pub open spec fn mentions_timeout(lower: Seq<char>) -> bool {
    contains_seq(lower, "timed out"@) || contains_seq(lower, "timeout"@)
}

/// The kind of a failed request, from its lower-cased message: a timeout,
/// else a network failure.
pub open spec fn spec_classify_lower(lower: Seq<char>) -> AdapterErrorKind {
    if mentions_timeout(lower) {
        AdapterErrorKind::Timeout
    } else {
        AdapterErrorKind::Network
    }
}

pub fn classify_lowered(lower: &str) -> (k: AdapterErrorKind)
    ensures
        k == spec_classify_lower(lower@),
{
    let l = chars_of(lower);
    if has(&l, "timed out") || has(&l, "timeout") {
        AdapterErrorKind::Timeout
    } else {
        AdapterErrorKind::Network
    }
}

/// The kind of a failed request.
pub fn classify_reqwest_error(msg: &str) -> (k: AdapterErrorKind)
    ensures
        k == spec_classify_lower(unicode_lower(msg@)),
{
    classify_lowered(to_lower(msg).as_str())
}

/// A short class of a failed request, from its lower-cased message.
pub open spec fn spec_summary_lower(lower: Seq<char>) -> Seq<char> {
    if contains_seq(lower, "unexpected eof"@) && contains_seq(lower, "handshake"@) {
        "TLS_HANDSHAKE_UNEXPECTED_EOF"@
    } else if contains_seq(lower, "handshake"@) {
        "TLS_HANDSHAKE_FAILED"@
    } else if mentions_timeout(lower) {
        "TIMEOUT"@
    } else if contains_seq(lower, "dns"@) || contains_seq(lower, "resolve"@) {
        "DNS_OR_RESOLVE_FAILED"@
    } else if contains_seq(lower, "connect"@) || contains_seq(lower, "connection"@) {
        "CONNECT_FAILED"@
    } else {
        "REQUEST_SEND_FAILED"@
    }
}

pub fn summarize_lowered(lower: &str) -> (r: &'static str)
    ensures
        r@ == spec_summary_lower(lower@),
{
    let l = chars_of(lower);
    if has(&l, "unexpected eof") && has(&l, "handshake") {
        "TLS_HANDSHAKE_UNEXPECTED_EOF"
    } else if has(&l, "handshake") {
        "TLS_HANDSHAKE_FAILED"
    } else if has(&l, "timed out") || has(&l, "timeout") {
        "TIMEOUT"
    } else if has(&l, "dns") || has(&l, "resolve") {
        "DNS_OR_RESOLVE_FAILED"
    } else if has(&l, "connect") || has(&l, "connection") {
        "CONNECT_FAILED"
    } else {
        "REQUEST_SEND_FAILED"
    }
}

/// A short class of a failed request.
pub fn summarize_reqwest_error(msg: &str) -> (r: &'static str)
    ensures
        r@ == spec_summary_lower(unicode_lower(msg@)),
{
    summarize_lowered(to_lower(msg).as_str())
}

} // verus!
