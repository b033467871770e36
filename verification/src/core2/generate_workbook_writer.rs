//! What the Generate step records besides the UI sheet: the provider and
//! method labels recorded per candidate and the sheets that get the
//! standard protection. Generate writes no translation into the source
//! sheets. The workbook itself is read and written outside the library.
use vstd::prelude::*;

use crate::adapters::types::{spec_provider_label, ProviderKind};
use crate::entry::job_plan_settings::{CandidateConfig, Method};

verus! {

pub open spec fn has_u8(v: Seq<u8>, x: u8) -> bool {
    exists|i: int| 0 <= i < v.len() && v[i] == x
}

fn contains_candidate(v: &Vec<u8>, x: u8) -> (b: bool)
    ensures
        b == has_u8(v@, x),
{
    let mut i: usize = 0;
    while i < v.len()
        invariant
            i <= v.len(),
            forall|j: int| 0 <= j < i ==> v@[j] != x,
        decreases v.len() - i,
    {
        if v[i] == x {
            return true;
        }
        i += 1;
    }
    false
}

pub open spec fn method_label(m: Method) -> Seq<char> {
    match m {
        Method::Split => "split"@,
        Method::Whole => "whole"@,
    }
}

/// The provider recorded for a candidate: its configured provider when the
/// candidate is enabled and has one, else "None".
pub open spec fn spec_provider_record(c: CandidateConfig, enabled: bool) -> Seq<char> {
    if enabled {
        match c.provider {
            Some(p) => spec_provider_label(p),
            None => "None"@,
        }
    } else {
        "None"@
    }
}

/// The method recorded for a candidate: its configured method when enabled,
/// else "none".
pub open spec fn spec_method_record(c: CandidateConfig, enabled: bool) -> Seq<char> {
    if enabled {
        method_label(c.method)
    } else {
        "none"@
    }
}

/// Whether candidate `k` (0-based) counts as enabled for the record:
/// candidate 1 always, candidates 2 and 3 when the settings enable them.
pub open spec fn record_enabled(enabled_candidates: Seq<u8>, k: int) -> bool {
    k == 0 || has_u8(enabled_candidates, (k + 1) as u8)
}

fn provider_record(c: &CandidateConfig, enabled: bool) -> (r: String)
    ensures
        r@ == spec_provider_record(*c, enabled),
{
    if enabled {
        match c.provider {
            Some(p) => p.as_label().to_owned(),
            None => "None".to_owned(),
        }
    } else {
        "None".to_owned()
    }
}

fn method_record(c: &CandidateConfig, enabled: bool) -> (r: String)
    ensures
        r@ == spec_method_record(*c, enabled),
{
    if enabled {
        c.method.as_label().to_owned()
    } else {
        "none".to_owned()
    }
}

/// The provider and method labels recorded for candidates 1 to 3. They are
/// taken from the configuration and the enabled set alone, never from how
/// the translations went.
pub fn candidate_labels(enabled_candidates: &Vec<u8>, configs: &[CandidateConfig; 3]) -> (r: (Vec<String>, Vec<String>))
    ensures
        r.0.len() == 3,
        r.1.len() == 3,
        forall|k: int|
            0 <= k < 3 ==> r.0@[k]@ == spec_provider_record(configs@[k], record_enabled(enabled_candidates@, k))
                && r.1@[k]@ == spec_method_record(configs@[k], record_enabled(enabled_candidates@, k)),
{
    let c2 = contains_candidate(enabled_candidates, 2);
    let c3 = contains_candidate(enabled_candidates, 3);
    let mut providers: Vec<String> = Vec::new();
    let mut methods: Vec<String> = Vec::new();
    providers.push(provider_record(&configs[0], true));
    providers.push(provider_record(&configs[1], c2));
    providers.push(provider_record(&configs[2], c3));
    methods.push(method_record(&configs[0], true));
    methods.push(method_record(&configs[1], c2));
    methods.push(method_record(&configs[2], c3));
    proof {
        assert(record_enabled(enabled_candidates@, 1) == c2);
        assert(record_enabled(enabled_candidates@, 2) == c3);
    }
    (providers, methods)
}

pub open spec fn str_views(v: Seq<String>) -> Seq<Seq<char>> {
    Seq::new(v.len(), |i: int| v[i]@)
}

/// The sheets of a workbook other than the tool's own `special` sheets, in
/// workbook order.
pub open spec fn spec_main_sheet_names(names: Seq<Seq<char>>, special: Seq<Seq<char>>) -> Seq<Seq<char>>
    decreases names.len(),
{
    if names.len() == 0 {
        Seq::empty()
    } else {
        let prev = spec_main_sheet_names(names.drop_last(), special);
        if special.contains(names.last()) {
            prev
        } else {
            prev.push(names.last())
        }
    }
}

/// The sheets that get the standard protection: every sheet but the
/// tool's own, which are protected one by one.
pub fn collect_all_main_sheet_names(sheet_names: &Vec<String>, special: &Vec<String>) -> (r: Vec<String>)
    ensures
        str_views(r@) == spec_main_sheet_names(str_views(sheet_names@), str_views(special@)),
{
    let mut out: Vec<String> = Vec::new();
    let mut i: usize = 0;
    while i < sheet_names.len()
        invariant
            i <= sheet_names.len(),
            str_views(out@) == spec_main_sheet_names(str_views(sheet_names@).take(i as int), str_views(special@)),
        decreases sheet_names.len() - i,
    {
        let name = &sheet_names[i];
        let mut is_special = false;
        let mut j: usize = 0;
        while j < special.len()
            invariant
                j <= special.len(),
                is_special == exists|k: int| 0 <= k < j && special@[k]@ == name@,
            decreases special.len() - j,
        {
            if crate::text::str_eq(special[j].as_str(), name.as_str()) {
                is_special = true;
            }
            j += 1;
        }
        let ghost before = out@;
        proof {
            let sv = str_views(special@);
            if is_special {
                let k = choose|k: int| 0 <= k < special@.len() && special@[k]@ == name@;
                assert(sv[k] == name@);
            } else {
                assert forall|k: int| 0 <= k < sv.len() implies sv[k] != name@ by {
                    assert(sv[k] == special@[k]@);
                }
            }
            assert(str_views(sheet_names@).take(i + 1).drop_last() =~= str_views(sheet_names@).take(i as int));
        }
        if !is_special {
            out.push(name.clone());
            proof {
                assert(str_views(out@) =~= str_views(before).push(name@));
            }
        }
        i += 1;
    }
    proof {
        assert(str_views(sheet_names@).take(sheet_names@.len() as int) =~= str_views(sheet_names@));
    }
    out
}

} // verus!
