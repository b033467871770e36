//! The plans offered by the course / plan selection tool, and how a chosen
//! course adjusts them. The tool itself (questions, answers, the file that
//! it writes) lives outside the library; the plans are fixed here.
//!
//! Candidates 1, 2 and 3 are translation methods, Google / Amazon / DeepL
//! are providers; DeepL is never offered for candidate 1 (split).
use vstd::prelude::*;

use crate::core2::shared_formula_reader::opt_view;
use crate::text::{chars_of, push_all, str_eq, string_of, trim_seq, trim_vec};

verus! {

/// A plan as the selection tool writes it (its acceptance threshold, a
/// fixed 0.80, is added where the plan is written out).
#[derive(Debug, Clone)]
pub struct SelectedPlan {
    pub mode: String,
    pub plan_name: String,
    pub enabled_candidates: Vec<u8>,
    pub candidate1_provider: Option<String>,
    pub candidate2_provider: Option<String>,
    pub candidate3_provider: Option<String>,
    pub default_candidate_priority: Vec<u8>,
    pub charge_unit: String,
    pub experience_range: String,
    pub note: String,
}

/// The fields shared by every plan of the tool.
pub open spec fn common_fields(p: SelectedPlan) -> bool {
    &&& p.mode@ == "paid"@
    &&& p.charge_unit@ == "fixed_estimate_billing"@
    &&& p.experience_range@ == "A1:D5"@
}

fn some_text(s: &str) -> (r: Option<String>)
    ensures
        opt_view(r) == Some(s@),
{
    Some(s.to_owned())
}

/// Candidates 1, 2 and 3 with Google, Amazon and DeepL, priority 1, 2, 3.
pub fn build_standard_plan() -> (p: SelectedPlan)
    ensures
        common_fields(p),
        p.plan_name@ == "STANDARD_3_CANDIDATES"@,
        p.enabled_candidates@ == seq![1u8, 2u8, 3u8],
        opt_view(p.candidate1_provider) == Some("Google"@),
        opt_view(p.candidate2_provider) == Some("Amazon"@),
        opt_view(p.candidate3_provider) == Some("DeepL"@),
        p.default_candidate_priority@ == seq![1u8, 2u8, 3u8],
        p.note@ == "Standard plan. Candidate columns must not be falsified. DefaultSelect may fallback by priority only."@,
{
    SelectedPlan {
        mode: "paid".to_owned(),
        plan_name: "STANDARD_3_CANDIDATES".to_owned(),
        enabled_candidates: vec![1, 2, 3],
        candidate1_provider: some_text("Google"),
        candidate2_provider: some_text("Amazon"),
        candidate3_provider: some_text("DeepL"),
        default_candidate_priority: vec![1, 2, 3],
        charge_unit: "fixed_estimate_billing".to_owned(),
        experience_range: "A1:D5".to_owned(),
        note: "Standard plan. Candidate columns must not be falsified. DefaultSelect may fallback by priority only.".to_owned(),
    }
}

/// The provider that answer `choice` picks for candidate 1: "1" is Google,
/// any other answer Amazon.
pub open spec fn candidate1_provider_for(choice: Seq<char>) -> Seq<char> {
    if choice == "1"@ {
        "Google"@
    } else {
        "Amazon"@
    }
}

/// Candidate 1 alone, with the provider that `provider_choice` picks.
pub fn build_candidate1_only_plan(provider_choice: &str) -> (p: SelectedPlan)
    ensures
        common_fields(p),
        p.plan_name@ == "LOW_COST_CANDIDATE1_ONLY"@,
        p.enabled_candidates@ == seq![1u8],
        opt_view(p.candidate1_provider) == Some(candidate1_provider_for(provider_choice@)),
        p.candidate2_provider is None,
        p.candidate3_provider is None,
        p.default_candidate_priority@ == seq![1u8],
        p.note@ == "Low-cost plan. Candidate1 only. Apply is still required for final delivery."@,
{
    let provider = if str_eq(provider_choice, "1") {
        "Google"
    } else {
        "Amazon"
    };
    SelectedPlan {
        mode: "paid".to_owned(),
        plan_name: "LOW_COST_CANDIDATE1_ONLY".to_owned(),
        enabled_candidates: vec![1],
        candidate1_provider: some_text(provider),
        candidate2_provider: None,
        candidate3_provider: None,
        default_candidate_priority: vec![1],
        charge_unit: "fixed_estimate_billing".to_owned(),
        experience_range: "A1:D5".to_owned(),
        note: "Low-cost plan. Candidate1 only. Apply is still required for final delivery.".to_owned(),
    }
}

/// Candidate 3 (whole-cell, DeepL) alone.
pub fn build_candidate3_only_plan() -> (p: SelectedPlan)
    ensures
        common_fields(p),
        p.plan_name@ == "LOW_COST_CANDIDATE3_ONLY"@,
        p.enabled_candidates@ == seq![3u8],
        p.candidate1_provider is None,
        p.candidate2_provider is None,
        opt_view(p.candidate3_provider) == Some("DeepL"@),
        p.default_candidate_priority@ == seq![3u8],
        p.note@ == "Low-cost plan. Candidate3 whole-cell translation only. Apply is still required for final delivery."@,
{
    SelectedPlan {
        mode: "paid".to_owned(),
        plan_name: "LOW_COST_CANDIDATE3_ONLY".to_owned(),
        enabled_candidates: vec![3],
        candidate1_provider: None,
        candidate2_provider: None,
        candidate3_provider: some_text("DeepL"),
        default_candidate_priority: vec![3],
        charge_unit: "fixed_estimate_billing".to_owned(),
        experience_range: "A1:D5".to_owned(),
        note: "Low-cost plan. Candidate3 whole-cell translation only. Apply is still required for final delivery.".to_owned(),
    }
}

/// The note of an experience-course plan.
pub open spec fn experience_note(note: Seq<char>) -> Seq<char> {
    "Experience course. Translation support target is fixed to A1:D5. "@ + note
}

/// The plan adjusted to course answer `course`: "1" is the experience
/// course (range A1:D5, note prefixed), any other answer the paid course.
/// Every other field stays.
pub fn apply_course(plan: SelectedPlan, course: &str) -> (p: SelectedPlan)
    ensures
        p.plan_name == plan.plan_name,
        p.enabled_candidates == plan.enabled_candidates,
        p.candidate1_provider == plan.candidate1_provider,
        p.candidate2_provider == plan.candidate2_provider,
        p.candidate3_provider == plan.candidate3_provider,
        p.default_candidate_priority == plan.default_candidate_priority,
        p.charge_unit == plan.charge_unit,
        course@ == "1"@ ==> {
            &&& p.mode@ == "experience"@
            &&& p.experience_range@ == "A1:D5"@
            &&& p.note@ == experience_note(plan.note@)
        },
        course@ != "1"@ ==> {
            &&& p.mode@ == "paid"@
            &&& p.experience_range == plan.experience_range
            &&& p.note == plan.note
        },
{
    let mut p = plan;
    if str_eq(course, "1") {
        p.mode = "experience".to_owned();
        p.experience_range = "A1:D5".to_owned();
        let mut v = chars_of("Experience course. Translation support target is fixed to A1:D5. ");
        push_all(&mut v, &chars_of(p.note.as_str()));
        p.note = string_of(&v);
    } else {
        p.mode = "paid".to_owned();
    }
    p
}

/// The plan that plan answer `plan` names ("1" standard, "2" candidate 1
/// only, "3" candidate 3 only), or `None` for any other answer.
pub fn build_plan_for_choice(plan: &str, provider_choice: &str) -> (r: Option<SelectedPlan>)
    ensures
        r is Some <==> (plan@ == "1"@ || plan@ == "2"@ || plan@ == "3"@),
        plan@ == "1"@ ==> (r matches Some(p) && p.plan_name@ == "STANDARD_3_CANDIDATES"@),
        plan@ == "2"@ ==> (r matches Some(p) && p.plan_name@ == "LOW_COST_CANDIDATE1_ONLY"@ && opt_view(
            p.candidate1_provider,
        ) == Some(candidate1_provider_for(provider_choice@))),
        plan@ == "3"@ ==> (r matches Some(p) && p.plan_name@ == "LOW_COST_CANDIDATE3_ONLY"@),
{
    proof {
        reveal_strlit("1");
        reveal_strlit("2");
        reveal_strlit("3");
        assert("1"@[0] == '1' && "2"@[0] == '2' && "3"@[0] == '3');
    }
    if str_eq(plan, "1") {
        Some(build_standard_plan())
    } else if str_eq(plan, "2") {
        Some(build_candidate1_only_plan(provider_choice))
    } else if str_eq(plan, "3") {
        Some(build_candidate3_only_plan())
    } else {
        None
    }
}

/// The answer the tool accepts from input line `input`: the trimmed line
/// when it is one of `allowed`, else `None` (the question is asked again).
pub fn accept_choice(input: &str, allowed: &Vec<String>) -> (r: Option<String>)
    ensures
        r is Some <==> exists|i: int| 0 <= i < allowed@.len() && allowed@[i]@ == trim_seq(input@),
        r matches Some(v) ==> v@ == trim_seq(input@),
{
    let value = trim_vec(&chars_of(input));
    let mut i: usize = 0;
    while i < allowed.len()
        invariant
            i <= allowed.len(),
            value@ == trim_seq(input@),
            forall|j: int| 0 <= j < i ==> allowed@[j]@ != value@,
        decreases allowed.len() - i,
    {
        if crate::text::eq_vec(&chars_of(allowed[i].as_str()), &value) {
            return Some(string_of(&value));
        }
        i += 1;
    }
    None
}

} // verus!
