//! Course and candidate settings of a job.
use vstd::prelude::*;

use crate::adapters::types::ProviderKind;
use crate::core1::analyzer::{contains_u8, keep_range, push_unique, push_unique_exec, spec_priority};
use crate::text::{chars_of, eq_vec, lower_seq, lower_vec, trim_seq, trim_vec};

verus! {

pub const EXPERIENCE_MAX_ROW: u32 = 5;

pub const EXPERIENCE_MAX_COL: u32 = 4;

#[derive(Debug, Clone, Copy, PartialEq, Eq, Structural)]
pub enum JobCourseMode {
    Experience,
    Paid,
}

impl JobCourseMode {
    pub fn as_label(&self) -> (r: &'static str)
        ensures
            r@ == (match self {
                JobCourseMode::Experience => "experience"@,
                JobCourseMode::Paid => "paid"@,
            }),
    {
        match self {
            JobCourseMode::Experience => "experience",
            JobCourseMode::Paid => "paid",
        }
    }
}

/// How a candidate is translated: split into segments, or the whole cell.
#[derive(Debug, Clone, Copy, PartialEq, Eq, Structural)]
pub enum Method {
    Split,
    Whole,
}

/// Default method of candidate `index`: 3 is whole, every other is split.
pub open spec fn spec_default_method(index: u8) -> Method {
    if index == 3 {
        Method::Whole
    } else {
        Method::Split
    }
}

impl Method {
    pub fn as_label(&self) -> (r: &'static str)
        ensures
            r@ == (match self {
                Method::Split => "split"@,
                Method::Whole => "whole"@,
            }),
    {
        match self {
            Method::Split => "split",
            Method::Whole => "whole",
        }
    }

    pub fn default_for_index(index: u8) -> (r: Method)
        ensures
            r == spec_default_method(index),
    {
        match index {
            3 => Method::Whole,
            _ => Method::Split,
        }
    }
}

/// One candidate's settings: provider, method and whether it runs.
#[derive(Debug, Clone, Copy, PartialEq, Eq, Structural)]
pub struct CandidateConfig {
    pub index: u8,
    pub provider: Option<ProviderKind>,
    pub method: Method,
    pub enabled: bool,
}

/// The range the experience course is limited to.
pub open spec fn experience_range_label() -> Seq<char> {
    "A1:D5"@
}

pub fn experience_range_label_exec() -> (r: &'static str)
    ensures
        r@ == experience_range_label(),
{
    "A1:D5"
}

/// The method a text names: `split`, or `whole` (also `context`,
/// `whole_cell`, `wholecell`), in any case and with spaces around.
pub open spec fn spec_parse_method(s: Seq<char>) -> Option<Method> {
    let t = lower_seq(trim_seq(s));
    if t == "split"@ {
        Some(Method::Split)
    } else if t == "whole"@ || t == "context"@ || t == "whole_cell"@ || t == "wholecell"@ {
        Some(Method::Whole)
    } else {
        None
    }
}

fn lowered_trim(s: &str) -> (r: Vec<char>)
    ensures
        r@ == lower_seq(trim_seq(s@)),
{
    lower_vec(&trim_vec(&chars_of(s)))
}

pub fn parse_method(s: &str) -> (r: Option<Method>)
    ensures
        r == spec_parse_method(s@),
{
    let t = lowered_trim(s);
    if eq_vec(&t, &chars_of("split")) {
        Some(Method::Split)
    } else if eq_vec(&t, &chars_of("whole")) || eq_vec(&t, &chars_of("context")) || eq_vec(&t, &chars_of("whole_cell"))
        || eq_vec(&t, &chars_of("wholecell")) {
        Some(Method::Whole)
    } else {
        None
    }
}

/// The course a text names; anything unknown is the paid course.
pub open spec fn spec_parse_mode(s: Seq<char>) -> JobCourseMode {
    let t = lower_seq(trim_seq(s));
    if t == "experience"@ || t == "trial"@ || t == "free"@ || t == "体験"@ {
        JobCourseMode::Experience
    } else {
        JobCourseMode::Paid
    }
}

pub fn parse_mode(value: &str) -> (r: JobCourseMode)
    ensures
        r == spec_parse_mode(value@),
{
    let t = lowered_trim(value);
    if eq_vec(&t, &chars_of("experience")) || eq_vec(&t, &chars_of("trial")) || eq_vec(&t, &chars_of("free"))
        || eq_vec(&t, &chars_of("体験")) {
        JobCourseMode::Experience
    } else {
        JobCourseMode::Paid
    }
}

/// The provider a text names.
pub open spec fn spec_parse_provider(s: Seq<char>) -> Option<ProviderKind> {
    let t = lower_seq(trim_seq(s));
    if t == "google"@ {
        Some(ProviderKind::Google)
    } else if t == "amazon"@ {
        Some(ProviderKind::Amazon)
    } else if t == "deepl"@ || t == "deep_l"@ {
        Some(ProviderKind::DeepL)
    } else if t == "mock"@ {
        Some(ProviderKind::Mock)
    } else {
        None
    }
}

pub fn parse_provider(value: &str) -> (r: Option<ProviderKind>)
    ensures
        r == spec_parse_provider(value@),
{
    let t = lowered_trim(value);
    if eq_vec(&t, &chars_of("google")) {
        Some(ProviderKind::Google)
    } else if eq_vec(&t, &chars_of("amazon")) {
        Some(ProviderKind::Amazon)
    } else if eq_vec(&t, &chars_of("deepl")) || eq_vec(&t, &chars_of("deep_l")) {
        Some(ProviderKind::DeepL)
    } else if eq_vec(&t, &chars_of("mock")) {
        Some(ProviderKind::Mock)
    } else {
        None
    }
}

/// The candidate numbers in 1..=3, first occurrences only; all three when
/// none is left.
pub open spec fn spec_normalize_candidates(values: Seq<u8>) -> Seq<u8> {
    let out = push_unique(Seq::empty(), values, keep_range());
    if out.len() == 0 {
        seq![1u8, 2u8, 3u8]
    } else {
        out
    }
}

pub fn normalize_candidates(values: Vec<u8>) -> (r: Vec<u8>)
    ensures
        r@ == spec_normalize_candidates(values@),
{
    let mut out: Vec<u8> = Vec::new();
    push_unique_exec(&mut out, &values, None);
    if out.len() == 0 {
        let r = vec![1u8, 2u8, 3u8];
        proof {
            assert(r@ =~= seq![1u8, 2u8, 3u8]);
        }
        r
    } else {
        out
    }
}

/// The job plan: course, plan name, the candidates that run, each one's
/// provider and method, the default-selection priority and the
/// experience range.
#[derive(Debug, Clone)]
pub struct JobPlanSettings {
    pub mode: JobCourseMode,
    pub plan_name: String,
    pub enabled_candidates: Vec<u8>,
    pub candidate1_provider: Option<ProviderKind>,
    pub candidate2_provider: Option<ProviderKind>,
    pub candidate3_provider: Option<ProviderKind>,
    pub candidate1_method: Method,
    pub candidate2_method: Method,
    pub candidate3_method: Method,
    pub default_candidate_priority: Vec<u8>,
    pub experience_range: String,
}

/// The plan used when none is configured: paid course, three candidates
/// (Google split, Amazon split, DeepL whole), priority 1, 2, 3.
pub open spec fn is_default_settings(p: JobPlanSettings) -> bool {
    &&& p.mode == JobCourseMode::Paid
    &&& p.plan_name@ == "STANDARD_3_CANDIDATES_DEFAULT"@
    &&& p.enabled_candidates@ == seq![1u8, 2u8, 3u8]
    &&& p.candidate1_provider == Some(ProviderKind::Google)
    &&& p.candidate2_provider == Some(ProviderKind::Amazon)
    &&& p.candidate3_provider == Some(ProviderKind::DeepL)
    &&& p.candidate1_method == Method::Split
    &&& p.candidate2_method == Method::Split
    &&& p.candidate3_method == Method::Whole
    &&& p.default_candidate_priority@ == seq![1u8, 2u8, 3u8]
    &&& p.experience_range@ == experience_range_label()
}

impl Default for JobPlanSettings {
    fn default() -> (r: Self)
        ensures
            is_default_settings(r),
    {
        let r = JobPlanSettings {
            mode: JobCourseMode::Paid,
            plan_name: crate::text::string_of(&chars_of("STANDARD_3_CANDIDATES_DEFAULT")),
            enabled_candidates: vec![1, 2, 3],
            candidate1_provider: Some(ProviderKind::Google),
            candidate2_provider: Some(ProviderKind::Amazon),
            candidate3_provider: Some(ProviderKind::DeepL),
            candidate1_method: Method::default_for_index(1),
            candidate2_method: Method::default_for_index(2),
            candidate3_method: Method::default_for_index(3),
            default_candidate_priority: vec![1, 2, 3],
            experience_range: crate::text::string_of(&chars_of(experience_range_label_exec())),
        };
        proof {
            assert(r.enabled_candidates@ =~= seq![1u8, 2u8, 3u8]);
            assert(r.default_candidate_priority@ =~= seq![1u8, 2u8, 3u8]);
        }
        r
    }
}

impl JobPlanSettings {
    pub fn is_enabled(&self, candidate_no: u8) -> (b: bool)
        ensures
            b == self.enabled_candidates@.contains(candidate_no),
    {
        contains_u8(&self.enabled_candidates, candidate_no)
    }

    /// The settings of candidate `index`.
    pub fn candidate_config(&self, index: u8) -> (c: CandidateConfig)
        ensures
            c.index == index,
            c.enabled == self.enabled_candidates@.contains(index),
            c.provider == (if index == 1 {
                self.candidate1_provider
            } else if index == 2 {
                self.candidate2_provider
            } else if index == 3 {
                self.candidate3_provider
            } else {
                None
            }),
            c.method == (if index == 1 {
                self.candidate1_method
            } else if index == 2 {
                self.candidate2_method
            } else if index == 3 {
                self.candidate3_method
            } else {
                spec_default_method(index)
            }),
    {
        let (provider, method) = match index {
            1 => (self.candidate1_provider, self.candidate1_method),
            2 => (self.candidate2_provider, self.candidate2_method),
            3 => (self.candidate3_provider, self.candidate3_method),
            _ => (None, Method::default_for_index(index)),
        };
        CandidateConfig { index, provider, method, enabled: self.is_enabled(index) }
    }

    pub fn is_experience(&self) -> (b: bool)
        ensures
            b == (self.mode == JobCourseMode::Experience),
    {
        self.mode == JobCourseMode::Experience
    }

    /// The priority, cleaned: the configured priorities that are enabled,
    /// then the other enabled candidates; each once, in 1..=3.
    pub fn normalized_priority(&self) -> (r: Vec<u8>)
        ensures
            r@ == spec_priority(self.default_candidate_priority@, self.enabled_candidates@),
    {
        let mut out: Vec<u8> = Vec::new();
        push_unique_exec(&mut out, &self.default_candidate_priority, Some(&self.enabled_candidates));
        push_unique_exec(&mut out, &self.enabled_candidates, None);
        out
    }
}

/// The job plan as configured, every field optional.
#[derive(Debug, Clone)]
pub struct RawJobPlanSettings {
    pub mode: Option<String>,
    pub plan_name: Option<String>,
    pub enabled_candidates: Option<Vec<u8>>,
    pub candidate1_provider: Option<String>,
    pub candidate2_provider: Option<String>,
    pub candidate3_provider: Option<String>,
    pub candidate1_method: Option<String>,
    pub candidate2_method: Option<String>,
    pub candidate3_method: Option<String>,
    pub default_candidate_priority: Option<Vec<u8>>,
    pub experience_range: Option<String>,
}

pub open spec fn provider_or(o: Option<String>, d: Option<ProviderKind>) -> Option<ProviderKind> {
    match o {
        Some(s) => match spec_parse_provider(s@) {
            Some(p) => Some(p),
            None => d,
        },
        None => d,
    }
}

pub open spec fn method_or(o: Option<String>, d: Method) -> Method {
    match o {
        Some(s) => match spec_parse_method(s@) {
            Some(m) => m,
            None => d,
        },
        None => d,
    }
}

/// A configured plan with what is missing or unreadable taken from the
/// default plan.
pub open spec fn spec_normalize_raw_plan(raw: RawJobPlanSettings, p: JobPlanSettings) -> bool {
    &&& p.mode == match raw.mode {
        Some(m) => spec_parse_mode(m@),
        None => JobCourseMode::Paid,
    }
    &&& p.plan_name@ == match raw.plan_name {
        Some(n) => n@,
        None => "STANDARD_3_CANDIDATES_DEFAULT"@,
    }
    &&& p.enabled_candidates@ == spec_normalize_candidates(
        match raw.enabled_candidates {
            Some(v) => v@,
            None => seq![1u8, 2u8, 3u8],
        },
    )
    &&& p.candidate1_provider == provider_or(raw.candidate1_provider, Some(ProviderKind::Google))
    &&& p.candidate2_provider == provider_or(raw.candidate2_provider, Some(ProviderKind::Amazon))
    &&& p.candidate3_provider == provider_or(raw.candidate3_provider, Some(ProviderKind::DeepL))
    &&& p.candidate1_method == method_or(raw.candidate1_method, Method::Split)
    &&& p.candidate2_method == method_or(raw.candidate2_method, Method::Split)
    &&& p.candidate3_method == method_or(raw.candidate3_method, Method::Whole)
    &&& p.default_candidate_priority@ == spec_normalize_candidates(
        match raw.default_candidate_priority {
            Some(v) => v@,
            None => seq![1u8, 2u8, 3u8],
        },
    )
    &&& p.experience_range@ == match raw.experience_range {
        Some(r) => r@,
        None => experience_range_label(),
    }
}

fn provider_or_exec(o: &Option<String>, d: Option<ProviderKind>) -> (r: Option<ProviderKind>)
    ensures
        r == provider_or(*o, d),
{
    match o {
        Some(s) => match parse_provider(s.as_str()) {
            Some(p) => Some(p),
            None => d,
        },
        None => d,
    }
}

fn method_or_exec(o: &Option<String>, d: Method) -> (r: Method)
    ensures
        r == method_or(*o, d),
{
    match o {
        Some(s) => match parse_method(s.as_str()) {
            Some(m) => m,
            None => d,
        },
        None => d,
    }
}

pub fn normalize_raw_plan(raw: RawJobPlanSettings) -> (p: JobPlanSettings)
    ensures
        spec_normalize_raw_plan(raw, p),
{
    let default = JobPlanSettings::default();
    let mode = match &raw.mode {
        Some(m) => parse_mode(m.as_str()),
        None => default.mode,
    };
    let candidate1_provider = provider_or_exec(&raw.candidate1_provider, default.candidate1_provider);
    let candidate2_provider = provider_or_exec(&raw.candidate2_provider, default.candidate2_provider);
    let candidate3_provider = provider_or_exec(&raw.candidate3_provider, default.candidate3_provider);
    let candidate1_method = method_or_exec(&raw.candidate1_method, Method::default_for_index(1));
    let candidate2_method = method_or_exec(&raw.candidate2_method, Method::default_for_index(2));
    let candidate3_method = method_or_exec(&raw.candidate3_method, Method::default_for_index(3));
    let enabled_candidates = normalize_candidates(
        match raw.enabled_candidates {
            Some(v) => v,
            None => default.enabled_candidates,
        },
    );
    let default_candidate_priority = normalize_candidates(
        match raw.default_candidate_priority {
            Some(v) => v,
            None => default.default_candidate_priority,
        },
    );
    JobPlanSettings {
        mode,
        plan_name: match raw.plan_name {
            Some(n) => n,
            None => default.plan_name,
        },
        enabled_candidates,
        candidate1_provider,
        candidate2_provider,
        candidate3_provider,
        candidate1_method,
        candidate2_method,
        candidate3_method,
        default_candidate_priority,
        experience_range: match raw.experience_range {
            Some(r) => r,
            None => default.experience_range,
        },
    }
}

/// A plan made safe to run: candidates 1 and 2 split cells, so they never
/// use DeepL (Google and Amazon stand in); candidate 3 without a provider
/// uses DeepL; the experience range is always `A1:D5`; the priority is
/// cleaned. Nothing else changes.
pub open spec fn spec_repair_plan(old: JobPlanSettings, new: JobPlanSettings) -> bool {
    &&& new.mode == old.mode
    &&& new.plan_name == old.plan_name
    &&& new.enabled_candidates == old.enabled_candidates
    &&& new.candidate1_method == old.candidate1_method
    &&& new.candidate2_method == old.candidate2_method
    &&& new.candidate3_method == old.candidate3_method
    &&& new.candidate1_provider == if old.enabled_candidates@.contains(1) && old.candidate1_provider == Some(
        ProviderKind::DeepL,
    ) {
        Some(ProviderKind::Google)
    } else {
        old.candidate1_provider
    }
    &&& new.candidate2_provider == if old.enabled_candidates@.contains(2) && old.candidate2_provider == Some(
        ProviderKind::DeepL,
    ) {
        Some(ProviderKind::Amazon)
    } else {
        old.candidate2_provider
    }
    &&& new.candidate3_provider == if old.enabled_candidates@.contains(3) && old.candidate3_provider is None {
        Some(ProviderKind::DeepL)
    } else {
        old.candidate3_provider
    }
    &&& new.experience_range@ == if old.mode == JobCourseMode::Experience && trim_seq(old.experience_range@)
        != experience_range_label() {
        experience_range_label()
    } else {
        old.experience_range@
    }
    &&& new.default_candidate_priority@ == spec_priority(old.default_candidate_priority@, old.enabled_candidates@)
}

pub fn validate_and_repair_plan(plan: &mut JobPlanSettings)
    ensures
        spec_repair_plan(*old(plan), *final(plan)),
{
    if plan.is_enabled(1) && plan.candidate1_provider == Some(ProviderKind::DeepL) {
        plan.candidate1_provider = Some(ProviderKind::Google);
    }
    if plan.is_enabled(2) && plan.candidate2_provider == Some(ProviderKind::DeepL) {
        plan.candidate2_provider = Some(ProviderKind::Amazon);
    }
    if plan.is_enabled(3) && plan.candidate3_provider.is_none() {
        plan.candidate3_provider = Some(ProviderKind::DeepL);
    }
    if plan.is_experience() && !eq_vec(&trim_vec(&chars_of(plan.experience_range.as_str())), &chars_of(experience_range_label_exec())) {
        plan.experience_range = crate::text::string_of(&chars_of(experience_range_label_exec()));
    }
    plan.default_candidate_priority = plan.normalized_priority();
}

/// A repaired plan never gives DeepL to candidate 1 or 2 when they run
/// (those split cells), fixes the experience range to `A1:D5`, and its
/// priority lists only enabled candidates in 1..=3, each once, and is left
/// as it is by cleaning it again.
pub proof fn law_repaired_plan_is_safe(old: JobPlanSettings, new: JobPlanSettings)
    requires
        spec_repair_plan(old, new),
    ensures
        new.enabled_candidates@.contains(1) ==> new.candidate1_provider != Some(ProviderKind::DeepL),
        new.enabled_candidates@.contains(2) ==> new.candidate2_provider != Some(ProviderKind::DeepL),
        new.enabled_candidates@.contains(3) ==> new.candidate3_provider is Some,
        new.mode == JobCourseMode::Experience ==> trim_seq(new.experience_range@) == experience_range_label(),
        forall|x: u8| #[trigger] new.default_candidate_priority@.contains(x) ==> 1 <= x <= 3
            && new.enabled_candidates@.contains(x),
        new.default_candidate_priority@.no_duplicates(),
        spec_priority(new.default_candidate_priority@, new.enabled_candidates@) == new.default_candidate_priority@,
{
    crate::core1::analyzer::law_priority_is_clean(old.default_candidate_priority@, old.enabled_candidates@);
    let l = experience_range_label();
    assert(trim_seq(l) == l) by {
        reveal_strlit("A1:D5");
        crate::text::lemma_lead_ws_char(l, 0);
        assert(l.skip(0) =~= l);
        crate::text::lemma_trail_ws_char(l, 0);
        assert(l.take(l.len() as int) =~= l);
    }
    assert forall|x: u8| #[trigger] new.default_candidate_priority@.contains(x) implies 1 <= x <= 3
        && new.enabled_candidates@.contains(x) by {
        crate::core1::analyzer::lemma_priority_members(old.default_candidate_priority@, old.enabled_candidates@, x);
    }
}

} // verus!
