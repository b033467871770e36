//! Recognition of transport tokens: URLs, mail addresses, paths, workbook
//! links and HYPERLINK formulas. Such text is a locator, not language, and
//! must never reach segmentation or a translation provider.
use vstd::prelude::*;

use crate::text::{
    chars_of, contains_exec, contains_seq, ends_with_exec, ends_with_seq, find_char_from,
    has_char, has_char_exec, is_ascii_alpha, is_ascii_alpha_char, is_ws, is_ws_char, lower_seq,
    lower_vec, occurs_at, push_range, starts_with_exec, starts_with_seq, trim_seq, trim_vec,
    upper_seq, upper_vec,
};

verus! {

pub open spec fn spec_contains_hyperlink_formula(t: Seq<char>) -> bool {
    contains_seq(upper_seq(t), "HYPERLINK("@)
}

pub open spec fn spec_contains_url_scheme(t: Seq<char>) -> bool {
    let l = lower_seq(t);
    contains_seq(l, "http://"@) || contains_seq(l, "https://"@) || contains_seq(l, "ftp://"@)
        || contains_seq(l, "file://"@) || contains_seq(l, "mailto:"@)
}

pub open spec fn spec_starts_with_www(t: Seq<char>) -> bool {
    starts_with_seq(lower_seq(t), "www."@)
}

/// Index of the first '@' of `s`.
pub open spec fn first_at_sign(s: Seq<char>, i: int) -> bool {
    0 <= i < s.len() && s[i] == '@' && forall|j: int| 0 <= j < i ==> s[j] != '@'
}

/// `local@domain` with no white space, a non-empty local part and a domain
/// that holds a '.' but does not start or end with one.
pub open spec fn spec_looks_like_email(t: Seq<char>) -> bool {
    let s = trim_seq(t);
    &&& !exists|i: int| 0 <= i < s.len() && is_ws(#[trigger] s[i])
    &&& exists|a: int| {
        &&& #[trigger] first_at_sign(s, a)
        &&& a > 0
        &&& a + 1 < s.len()
        &&& has_char(s.skip(a + 1), '.')
        &&& s[a + 1] != '.'
        &&& s.last() != '.'
    }
}

/// `X:\...` or `X:/...`.
pub open spec fn spec_looks_like_windows_path(t: Seq<char>) -> bool {
    t.len() >= 3 && is_ascii_alpha(t[0]) && t[1] == ':' && (t[2] == '\\' || t[2] == '/')
}

/// `\\server\...`.
pub open spec fn spec_looks_like_unc_path(t: Seq<char>) -> bool {
    starts_with_seq(t, "\\\\"@)
}

/// `#Sheet!A1`.
pub open spec fn spec_looks_like_excel_internal_link(t: Seq<char>) -> bool {
    let s = trim_seq(t);
    s.len() > 0 && s[0] == '#' && has_char(s, '!')
}

/// Whether the (trimmed) text is a transport token.
pub open spec fn spec_is_protected_transport_text(text: Seq<char>) -> bool {
    let t = trim_seq(text);
    &&& t.len() > 0
    &&& {
        ||| spec_contains_hyperlink_formula(t)
        ||| spec_contains_url_scheme(t)
        ||| spec_starts_with_www(t)
        ||| spec_looks_like_email(t)
        ||| spec_looks_like_windows_path(t)
        ||| spec_looks_like_unc_path(t)
        ||| spec_looks_like_excel_internal_link(t)
    }
}

pub fn is_protected_transport_text(text: &str) -> (b: bool)
    ensures
        b == spec_is_protected_transport_text(text@),
{
    let trimmed = trim_vec(&chars_of(text));
    if trimmed.len() == 0 {
        return false;
    }
    contains_hyperlink_formula(&trimmed) || contains_url_scheme(&trimmed) || starts_with_www(
        &trimmed,
    ) || looks_like_email_address(&trimmed) || looks_like_windows_path(&trimmed)
        || looks_like_unc_path(&trimmed) || looks_like_excel_internal_link(&trimmed)
}

fn contains_hyperlink_formula(t: &Vec<char>) -> (b: bool)
    ensures
        b == spec_contains_hyperlink_formula(t@),
{
    contains_exec(&upper_vec(t), &chars_of("HYPERLINK("))
}

fn contains_url_scheme(t: &Vec<char>) -> (b: bool)
    ensures
        b == spec_contains_url_scheme(t@),
{
    let lower = lower_vec(t);
    contains_exec(&lower, &chars_of("http://")) || contains_exec(&lower, &chars_of("https://"))
        || contains_exec(&lower, &chars_of("ftp://")) || contains_exec(&lower, &chars_of("file://"))
        || contains_exec(&lower, &chars_of("mailto:"))
}

fn starts_with_www(t: &Vec<char>) -> (b: bool)
    ensures
        b == spec_starts_with_www(t@),
{
    starts_with_exec(&lower_vec(t), &chars_of("www."))
}

fn looks_like_email_address(t: &Vec<char>) -> (b: bool)
    ensures
        b == spec_looks_like_email(t@),
{
    let s = trim_vec(t);
    let mut i: usize = 0;
    while i < s.len()
        invariant
            i <= s.len(),
            s@ == trim_seq(t@),
            forall|j: int| 0 <= j < i ==> !is_ws(#[trigger] s@[j]),
        decreases s.len() - i,
    {
        if is_ws_char(s[i]) {
            proof {
                assert(is_ws(s@[i as int]));
                assert(s@ == trim_seq(t@));
                assert(exists|j: int| 0 <= j < s@.len() && is_ws(#[trigger] s@[j]));
            }
            return false;
        }
        i += 1;
    }
    let at_pos = match find_char_from(&s, '@', 0) {
        Some(p) => p,
        None => {
            proof {
                assert forall|a: int| !#[trigger] first_at_sign(s@, a) by {}
            }
            return false;
        },
    };
    proof {
        assert(first_at_sign(s@, at_pos as int));
        assert forall|a: int| #[trigger] first_at_sign(s@, a) implies a == at_pos by {
            if a < at_pos {
                assert(s@[a] == '@');
            } else if a > at_pos {
                assert(s@[at_pos as int] == '@');
            }
        }
    }
    if at_pos == 0 || at_pos + 1 >= s.len() {
        return false;
    }
    let mut domain: Vec<char> = Vec::new();
    push_range(&mut domain, &s, at_pos + 1, s.len());
    proof {
        assert(domain@ =~= s@.skip(at_pos + 1));
    }
    let r = has_char_exec(&domain, '.') && domain[0] != '.' && domain[domain.len() - 1] != '.';
    proof {
        assert(domain@[0] == s@[at_pos + 1]);
        assert(domain@[domain@.len() - 1] == s@.last());
    }
    r
}

fn looks_like_windows_path(t: &Vec<char>) -> (b: bool)
    ensures
        b == spec_looks_like_windows_path(t@),
{
    if t.len() < 3 {
        return false;
    }
    is_ascii_alpha_char(t[0]) && t[1] == ':' && (t[2] == '\\' || t[2] == '/')
}

fn looks_like_unc_path(t: &Vec<char>) -> (b: bool)
    ensures
        b == spec_looks_like_unc_path(t@),
{
    starts_with_exec(t, &chars_of("\\\\"))
}

fn looks_like_excel_internal_link(t: &Vec<char>) -> (b: bool)
    ensures
        b == spec_looks_like_excel_internal_link(t@),
{
    let s = trim_vec(t);
    s.len() > 0 && s[0] == '#' && has_char_exec(&s, '!')
}

} // verus!
