//! Candidate planning: which candidates run, in which order a failed default
//! falls back, and how many requests and characters a job will send.
use vstd::prelude::*;

use crate::core1::text_structure_analyzer::spec_text_structure;
use crate::core1::translation_policy::TranslationPolicyDecision;
use crate::adapters::translator_trait::TranslatorAdapter;
use crate::adapters::types::Lang;
use crate::core1::candidates::{
    lit_all_reqs, req_texts, res_views, seg_all_reqs, sent_in_batches, spec_segment_results, spec_whole_results,
    translate_segments_for_cells, translate_whole_for_cells, whole_all_reqs, whole_sent,
};
use crate::core1::types::{CandidateAlarms, CandidateBundle, DefaultSelect};
use crate::core2::formula_text::{
    extract_quoted_literals, is_split_of, lemma_extract_lits_bound, spec_extract, split_preserving_structure,
    split_views, str_views, total_len,
};
use crate::core2::structure_types::{LogicalCell, LogicalCellKind};
use crate::direction::DirectionProfile;
use crate::entry::job_plan_settings::{spec_default_method, Method};
use crate::infra::app_error::AppError;
use crate::text::chars_of;

verus! {

broadcast use vstd::seq_lib::group_seq_properties;

pub fn contains_u8(v: &Vec<u8>, x: u8) -> (b: bool)
    ensures
        b == v@.contains(x),
{
    let mut i: usize = 0;
    while i < v.len()
        invariant
            i <= v.len(),
            forall|j: int| 0 <= j < i ==> v@[j] != x,
        decreases v.len() - i,
    {
        if v[i] == x {
            proof {
                assert(v@[i as int] == x);
            }
            return true;
        }
        i += 1;
    }
    false
}

pub open spec fn in_candidate_range(v: u8) -> bool {
    1 <= v && v <= 3
}

/// Left to right, appends to `acc` each element of `xs` that `keep` accepts
/// and `acc` does not hold yet.
pub open spec fn push_unique(acc: Seq<u8>, xs: Seq<u8>, keep: spec_fn(u8) -> bool) -> Seq<u8>
    decreases xs.len(),
{
    if xs.len() == 0 {
        acc
    } else {
        push_unique(
            if keep(xs[0]) && !acc.contains(xs[0]) {
                acc.push(xs[0])
            } else {
                acc
            },
            xs.drop_first(),
            keep,
        )
    }
}

pub proof fn lemma_push_unique_members(acc: Seq<u8>, xs: Seq<u8>, keep: spec_fn(u8) -> bool, x: u8)
    ensures
        push_unique(acc, xs, keep).contains(x) ==> acc.contains(x) || (keep(x) && xs.contains(x)),
        acc.contains(x) ==> push_unique(acc, xs, keep).contains(x),
        keep(x) && xs.contains(x) ==> push_unique(acc, xs, keep).contains(x),
    decreases xs.len(),
{
    if xs.len() > 0 {
        let acc2 = if keep(xs[0]) && !acc.contains(xs[0]) {
            acc.push(xs[0])
        } else {
            acc
        };
        lemma_push_unique_members(acc2, xs.drop_first(), keep, x);
        if acc.contains(x) {
            let j = choose|j: int| 0 <= j < acc.len() && acc[j] == x;
            assert(acc2[j] == x);
        }
        if xs.contains(x) && keep(x) {
            let j = choose|j: int| 0 <= j < xs.len() && xs[j] == x;
            if j > 0 {
                assert(xs.drop_first()[j - 1] == x);
            } else {
                if !acc.contains(x) {
                    assert(acc2[acc.len() as int] == x);
                }
            }
        }
        if push_unique(acc, xs, keep).contains(x) && !acc.contains(x) && !acc2.contains(x) {
            let j = choose|j: int| 0 <= j < xs.drop_first().len() && xs.drop_first()[j] == x;
            assert(xs[j + 1] == x);
        }
        if acc2.contains(x) && !acc.contains(x) {
            let j = choose|j: int| 0 <= j < acc2.len() && acc2[j] == x;
            if j < acc.len() {
                assert(acc[j] == x);
            }
            assert(xs[0] == x);
        }
    }
}

pub open spec fn keep_enabled(enabled: Seq<u8>) -> spec_fn(u8) -> bool {
    |v: u8| in_candidate_range(v) && enabled.contains(v)
}

pub open spec fn keep_range() -> spec_fn(u8) -> bool {
    |v: u8| in_candidate_range(v)
}

pub(crate) fn push_unique_exec(acc: &mut Vec<u8>, xs: &Vec<u8>, enabled: Option<&Vec<u8>>)
    ensures
        final(acc)@ == push_unique(
            old(acc)@,
            xs@,
            match enabled {
                Some(e) => keep_enabled(e@),
                None => keep_range(),
            },
        ),
{
    let ghost keep = match enabled {
        Some(e) => keep_enabled(e@),
        None => keep_range(),
    };
    let mut i: usize = 0;
    while i < xs.len()
        invariant
            i <= xs.len(),
            keep == match enabled {
                Some(e) => keep_enabled(e@),
                None => keep_range(),
            },
            push_unique(acc@, xs@.skip(i as int), keep) == push_unique(old(acc)@, xs@, keep),
        decreases xs.len() - i,
    {
        let v = xs[i];
        proof {
            assert(xs@.skip(i as int).drop_first() =~= xs@.skip(i + 1));
            assert(xs@.skip(i as int)[0] == v);
        }
        let ok = 1 <= v && v <= 3 && match enabled {
            Some(e) => contains_u8(e, v),
            None => true,
        };
        proof {
            assert(ok == keep(v));
        }
        if ok && !contains_u8(acc, v) {
            acc.push(v);
        }
        i += 1;
    }
    proof {
        assert(xs@.skip(xs@.len() as int) =~= Seq::<u8>::empty());
    }
}

/// Which candidates run, their default-selection priority and their methods.
#[derive(Debug, Clone)]
pub struct CandidateGenerationPlan {
    pub enabled_candidates: Vec<u8>,
    pub default_candidate_priority: Vec<u8>,
    pub methods: [Method; 3],
}

/// The priority order: the configured priorities that are in 1..=3 and
/// enabled, then the remaining enabled candidates in 1..=3, without repeats.
pub open spec fn spec_priority(prio: Seq<u8>, enabled: Seq<u8>) -> Seq<u8> {
    push_unique(push_unique(Seq::empty(), prio, keep_enabled(enabled)), enabled, keep_range())
}

impl CandidateGenerationPlan {
    /// Candidates 1, 2 and 3, by priority 1, 2, 3; methods split, split, whole.
    pub fn default_plan() -> (r: Self)
        ensures
            r.enabled_candidates@ == seq![1u8, 2u8, 3u8],
            r.default_candidate_priority@ == seq![1u8, 2u8, 3u8],
            r.methods@ == seq![Method::Split, Method::Split, Method::Whole],
    {
        let r = CandidateGenerationPlan {
            enabled_candidates: vec![1, 2, 3],
            default_candidate_priority: vec![1, 2, 3],
            methods: [Method::Split, Method::Split, Method::Whole],
        };
        proof {
            assert(r.enabled_candidates@ =~= seq![1u8, 2u8, 3u8]);
            assert(r.default_candidate_priority@ =~= seq![1u8, 2u8, 3u8]);
            assert(r.methods@ =~= seq![Method::Split, Method::Split, Method::Whole]);
        }
        r
    }

    pub open spec fn spec_is_enabled(&self, n: u8) -> bool {
        self.enabled_candidates@.contains(n)
    }

    pub open spec fn spec_method(&self, n: u8) -> Method {
        if n == 1 {
            self.methods[0]
        } else if n == 2 {
            self.methods[1]
        } else if n == 3 {
            self.methods[2]
        } else {
            spec_default_method(n)
        }
    }

    pub fn is_enabled(&self, candidate_no: u8) -> (b: bool)
        ensures
            b == self.spec_is_enabled(candidate_no),
    {
        contains_u8(&self.enabled_candidates, candidate_no)
    }

    /// The method of candidate `candidate_no`.
    pub fn method(&self, candidate_no: u8) -> (m: Method)
        ensures
            m == self.spec_method(candidate_no),
    {
        match candidate_no {
            1 => self.methods[0],
            2 => self.methods[1],
            3 => self.methods[2],
            _ => Method::default_for_index(candidate_no),
        }
    }

    pub fn priority(&self) -> (r: Vec<u8>)
        ensures
            r@ == spec_priority(self.default_candidate_priority@, self.enabled_candidates@),
    {
        let mut out: Vec<u8> = Vec::new();
        push_unique_exec(&mut out, &self.default_candidate_priority, Some(&self.enabled_candidates));
        push_unique_exec(&mut out, &self.enabled_candidates, None);
        out
    }
}

pub open spec fn succeeded(c: Option<&Result<String, String>>) -> bool {
    c matches Some(r) && r is Ok
}

/// The first candidate of `order` that succeeded, else the original.
pub open spec fn first_success(order: Seq<u8>, s1: bool, s2: bool, s3: bool) -> DefaultSelect
    decreases order.len(),
{
    if order.len() == 0 {
        DefaultSelect::Original
    } else if order[0] == 1 && s1 {
        DefaultSelect::Candidate1
    } else if order[0] == 2 && s2 {
        DefaultSelect::Candidate2
    } else if order[0] == 3 && s3 {
        DefaultSelect::Candidate3
    } else {
        first_success(order.drop_first(), s1, s2, s3)
    }
}

/// An original default stays; any other default becomes the first candidate,
/// in priority order, that succeeded (or the original when none did).
pub open spec fn spec_fallback(
    base: DefaultSelect,
    plan: CandidateGenerationPlan,
    s1: bool,
    s2: bool,
    s3: bool,
) -> DefaultSelect {
    if base == DefaultSelect::Original {
        DefaultSelect::Original
    } else {
        first_success(
            spec_priority(plan.default_candidate_priority@, plan.enabled_candidates@),
            s1,
            s2,
            s3,
        )
    }
}

pub fn decide_fallback_default_select(
    base_default: DefaultSelect,
    candidate_plan: &CandidateGenerationPlan,
    cand1: Option<&Result<String, String>>,
    cand2: Option<&Result<String, String>>,
    cand3: Option<&Result<String, String>>,
) -> (r: DefaultSelect)
    ensures
        r == spec_fallback(
            base_default,
            *candidate_plan,
            succeeded(cand1),
            succeeded(cand2),
            succeeded(cand3),
        ),
{
    if base_default == DefaultSelect::Original {
        return DefaultSelect::Original;
    }
    let s1 = match cand1 {
        Some(v) => v.is_ok(),
        None => false,
    };
    let s2 = match cand2 {
        Some(v) => v.is_ok(),
        None => false,
    };
    let s3 = match cand3 {
        Some(v) => v.is_ok(),
        None => false,
    };
    proof {
        assert(s1 == succeeded(cand1));
        assert(s2 == succeeded(cand2));
        assert(s3 == succeeded(cand3));
    }
    let order = candidate_plan.priority();
    let ghost o = order@;
    let mut i: usize = 0;
    while i < order.len()
        invariant
            i <= order.len(),
            o == order@,
            s1 == succeeded(cand1),
            s2 == succeeded(cand2),
            s3 == succeeded(cand3),
            base_default != DefaultSelect::Original,
            o == spec_priority(candidate_plan.default_candidate_priority@, candidate_plan.enabled_candidates@),
            first_success(o.skip(i as int), s1, s2, s3) == first_success(o, s1, s2, s3),
        decreases order.len() - i,
    {
        let n = order[i];
        proof {
            assert(o.skip(i as int).drop_first() =~= o.skip(i + 1));
            assert(o.skip(i as int)[0] == n);
        }
        if n == 1 && s1 {
            return DefaultSelect::Candidate1;
        }
        if n == 2 && s2 {
            return DefaultSelect::Candidate2;
        }
        if n == 3 && s3 {
            return DefaultSelect::Candidate3;
        }
        i += 1;
    }
    proof {
        assert(o.skip(o.len() as int) =~= Seq::<u8>::empty());
    }
    DefaultSelect::Original
}


proof fn lemma_first_success(order: Seq<u8>, s1: bool, s2: bool, s3: bool)
    ensures
        first_success(order, s1, s2, s3) == DefaultSelect::Candidate1 ==> s1 && order.contains(1u8),
        first_success(order, s1, s2, s3) == DefaultSelect::Candidate2 ==> s2 && order.contains(2u8),
        first_success(order, s1, s2, s3) == DefaultSelect::Candidate3 ==> s3 && order.contains(3u8),
        (s1 && order.contains(1u8)) || (s2 && order.contains(2u8)) || (s3 && order.contains(3u8))
            ==> first_success(order, s1, s2, s3) != DefaultSelect::Original,
    decreases order.len(),
{
    if order.len() > 0 {
        let t = order.drop_first();
        lemma_first_success(t, s1, s2, s3);
        assert(order[0] == 1u8 ==> order.contains(1u8));
        assert(order[0] == 2u8 ==> order.contains(2u8));
        assert(order[0] == 3u8 ==> order.contains(3u8));
        assert forall|x: u8| t.contains(x) implies order.contains(x) by {
            let j = choose|j: int| 0 <= j < t.len() && t[j] == x;
            assert(order[j + 1] == x);
        }
        assert forall|x: u8| order.contains(x) && order[0] != x implies t.contains(x) by {
            let j = choose|j: int| 0 <= j < order.len() && order[j] == x;
            assert(t[j - 1] == x);
        }
    }
}

/// Membership of the priority order: exactly the enabled candidates 1..=3.
pub proof fn lemma_priority_members(prio: Seq<u8>, enabled: Seq<u8>, x: u8)
    ensures
        spec_priority(prio, enabled).contains(x) <==> (in_candidate_range(x) && enabled.contains(x)),
{
    let a = push_unique(Seq::empty(), prio, keep_enabled(enabled));
    lemma_push_unique_members(Seq::empty(), prio, keep_enabled(enabled), x);
    lemma_push_unique_members(a, enabled, keep_range(), x);
}

proof fn lemma_push_unique_no_dups(acc: Seq<u8>, xs: Seq<u8>, keep: spec_fn(u8) -> bool)
    requires
        acc.no_duplicates(),
    ensures
        push_unique(acc, xs, keep).no_duplicates(),
    decreases xs.len(),
{
    if xs.len() > 0 {
        if keep(xs[0]) && !acc.contains(xs[0]) {
            let a2 = acc.push(xs[0]);
            assert forall|i: int, j: int| 0 <= i < a2.len() && 0 <= j < a2.len() && i != j implies a2[i] != a2[j] by {
                if i == acc.len() {
                    assert(acc[j] == a2[j]);
                } else if j == acc.len() {
                    assert(acc[i] == a2[i]);
                }
            }
            lemma_push_unique_no_dups(a2, xs.drop_first(), keep);
        } else {
            lemma_push_unique_no_dups(acc, xs.drop_first(), keep);
        }
    }
}

/// Appending elements that are all kept and all new appends them all.
proof fn lemma_push_unique_all_new(acc: Seq<u8>, xs: Seq<u8>, keep: spec_fn(u8) -> bool)
    requires
        (acc + xs).no_duplicates(),
        forall|i: int| 0 <= i < xs.len() ==> keep(#[trigger] xs[i]),
    ensures
        push_unique(acc, xs, keep) == acc + xs,
    decreases xs.len(),
{
    if xs.len() == 0 {
        assert(acc + xs =~= acc);
    } else {
        assert(keep(xs[0]));
        if acc.contains(xs[0]) {
            let j = choose|j: int| 0 <= j < acc.len() && acc[j] == xs[0];
            assert((acc + xs)[j] == (acc + xs)[acc.len() as int]);
        }
        let a2 = acc.push(xs[0]);
        assert(a2 + xs.drop_first() =~= acc + xs);
        assert forall|i: int| 0 <= i < xs.drop_first().len() implies keep(#[trigger] xs.drop_first()[i]) by {
            assert(xs.drop_first()[i] == xs[i + 1]);
        }
        lemma_push_unique_all_new(a2, xs.drop_first(), keep);
    }
}

/// Appending elements that are all held already, or not kept, changes
/// nothing.
proof fn lemma_push_unique_none_new(acc: Seq<u8>, xs: Seq<u8>, keep: spec_fn(u8) -> bool)
    requires
        forall|i: int| 0 <= i < xs.len() && keep(#[trigger] xs[i]) ==> acc.contains(xs[i]),
    ensures
        push_unique(acc, xs, keep) == acc,
    decreases xs.len(),
{
    if xs.len() > 0 {
        assert forall|i: int| 0 <= i < xs.drop_first().len() && keep(#[trigger] xs.drop_first()[i]) implies acc.contains(
            xs.drop_first()[i],
        ) by {
            assert(xs.drop_first()[i] == xs[i + 1]);
        }
        assert(keep(xs[0]) ==> acc.contains(xs[0]));
        lemma_push_unique_none_new(acc, xs.drop_first(), keep);
    }
}

/// The cleaned priority lists every enabled candidate in 1..=3 exactly once
/// and nothing else, and cleaning it again changes nothing.
pub proof fn law_priority_is_clean(prio: Seq<u8>, enabled: Seq<u8>)
    ensures
        spec_priority(prio, enabled).no_duplicates(),
        forall|x: u8|
            #[trigger] spec_priority(prio, enabled).contains(x) <==> (in_candidate_range(x) && enabled.contains(x)),
        spec_priority(spec_priority(prio, enabled), enabled) == spec_priority(prio, enabled),
{
    let a = push_unique(Seq::empty(), prio, keep_enabled(enabled));
    let p = spec_priority(prio, enabled);
    lemma_push_unique_no_dups(Seq::empty(), prio, keep_enabled(enabled));
    lemma_push_unique_no_dups(a, enabled, keep_range());
    assert forall|x: u8| #[trigger] p.contains(x) <==> (in_candidate_range(x) && enabled.contains(x)) by {
        lemma_priority_members(prio, enabled, x);
    }
    assert forall|i: int| 0 <= i < p.len() implies (keep_enabled(enabled))(#[trigger] p[i]) by {
        assert(p.contains(p[i]));
    }
    assert(Seq::<u8>::empty() + p =~= p);
    lemma_push_unique_all_new(Seq::empty(), p, keep_enabled(enabled));
    assert forall|i: int| 0 <= i < enabled.len() && (keep_range())(#[trigger] enabled[i]) implies p.contains(
        enabled[i],
    ) by {
        assert(enabled.contains(enabled[i]));
    }
    lemma_push_unique_none_new(p, enabled, keep_range());
}

/// Fallback safety: the default shown is never a candidate that is disabled
/// or failed, and a non-original default falls back to the original only
/// when no enabled candidate succeeded.
pub proof fn law_fallback_never_shows_failed_candidate(
    base: DefaultSelect,
    plan: CandidateGenerationPlan,
    s1: bool,
    s2: bool,
    s3: bool,
)
    ensures
        spec_fallback(base, plan, s1, s2, s3) == DefaultSelect::Candidate1 ==> s1
            && plan.enabled_candidates@.contains(1u8),
        spec_fallback(base, plan, s1, s2, s3) == DefaultSelect::Candidate2 ==> s2
            && plan.enabled_candidates@.contains(2u8),
        spec_fallback(base, plan, s1, s2, s3) == DefaultSelect::Candidate3 ==> s3
            && plan.enabled_candidates@.contains(3u8),
        base == DefaultSelect::Original ==> spec_fallback(base, plan, s1, s2, s3)
            == DefaultSelect::Original,
        base != DefaultSelect::Original && ((s1 && plan.enabled_candidates@.contains(1u8)) || (s2
            && plan.enabled_candidates@.contains(2u8)) || (s3 && plan.enabled_candidates@.contains(
            3u8))) ==> spec_fallback(base, plan, s1, s2, s3) != DefaultSelect::Original,
{
    let order = spec_priority(plan.default_candidate_priority@, plan.enabled_candidates@);
    lemma_first_success(order, s1, s2, s3);
    lemma_priority_members(plan.default_candidate_priority@, plan.enabled_candidates@, 1u8);
    lemma_priority_members(plan.default_candidate_priority@, plan.enabled_candidates@, 2u8);
    lemma_priority_members(plan.default_candidate_priority@, plan.enabled_candidates@, 3u8);
}


/// Requests and characters that the split method sends for run list `p`:
/// one request per target run worth translating in direction `d`.
pub open spec fn seg_stats<D: DirectionProfile>(p: Seq<(Seq<char>, bool)>, d: D) -> (nat, nat)
    decreases p.len(),
{
    if p.len() == 0 {
        (0, 0)
    } else {
        let r = seg_stats(p.drop_last(), d);
        let last = p.last();
        if last.1 && d.spec_should_translate_structure(spec_text_structure(last.0)) {
            (r.0 + 1, r.1 + last.0.len())
        } else {
            r
        }
    }
}

pub open spec fn view_texts(p: Seq<(Seq<char>, bool)>) -> Seq<Seq<char>> {
    Seq::new(p.len(), |k: int| p[k].0)
}

proof fn lemma_seg_stats_bound<D: DirectionProfile>(p: Seq<(Seq<char>, bool)>, d: D)
    ensures
        seg_stats(p, d).0 <= p.len(),
        seg_stats(p, d).1 <= total_len(view_texts(p)),
    decreases p.len(),
{
    if p.len() > 0 {
        lemma_seg_stats_bound(p.drop_last(), d);
        assert(view_texts(p).drop_last() =~= view_texts(p.drop_last()));
    }
}

proof fn lemma_flatten_total(v: Seq<Seq<char>>)
    ensures
        v.flatten().len() == total_len(v),
    decreases v.len(),
{
    if v.len() > 0 {
        lemma_flatten_total(v.drop_first());
        crate::core2::formula_text::lemma_total_len_front(v);
    }
}

proof fn lemma_total_len_take(v: Seq<Seq<char>>, k: int)
    requires
        0 <= k <= v.len(),
    ensures
        total_len(v.take(k)) <= total_len(v),
    decreases v.len() - k,
{
    if k < v.len() {
        lemma_total_len_take(v, k + 1);
        assert(v.take(k + 1).drop_last() =~= v.take(k));
    }
}

/// The split-method estimate of a text.
pub open spec fn split_estimate<D: DirectionProfile>(s: Seq<char>, d: D) -> (nat, nat) {
    seg_stats(split_views(s), d)
}

pub open spec fn is_formula_cell_kind(k: LogicalCellKind) -> bool {
    k == LogicalCellKind::FormulaRaw || k == LogicalCellKind::SharedFormulaParent
}

/// The whole-method estimate: a formula sends its string literals (nothing
/// when it has none), any other cell its whole text as one request.
pub open spec fn whole_estimate(kind: LogicalCellKind, s: Seq<char>) -> (nat, nat) {
    if is_formula_cell_kind(kind) {
        let lits = spec_extract(s, 0, 0).1;
        if lits.len() == 0 {
            (0, 0)
        } else {
            (lits.len(), total_len(lits))
        }
    } else {
        (1, s.len())
    }
}

pub fn is_formula_cell_exec(cell: &LogicalCell) -> (b: bool)
    ensures
        b == is_formula_cell_kind(cell.cell_kind),
{
    match cell.cell_kind {
        LogicalCellKind::FormulaRaw | LogicalCellKind::SharedFormulaParent => true,
        _ => false,
    }
}

fn estimate_whole_requests(logical_cell: &LogicalCell) -> (r: (usize, usize))
    ensures
        (r.0 as nat, r.1 as nat) == whole_estimate(logical_cell.cell_kind, logical_cell.source_text@),
        r.1 <= logical_cell.source_text@.len(),
        r.0 <= logical_cell.source_text@.len() + 1,
{
    let text = chars_of(logical_cell.source_text.as_str());
    let tl = text.len();
    if is_formula_cell_exec(logical_cell) {
        let (_template, literals) = extract_quoted_literals(logical_cell.source_text.as_str());
        let ghost lits = str_views(literals@);
        proof {
            lemma_extract_lits_bound(logical_cell.source_text@, 0, 0);
        }
        if literals.len() == 0 {
            (0, 0)
        } else {
            let mut chars: usize = 0;
            let mut k: usize = 0;
            while k < literals.len()
                invariant
                    k <= literals.len(),
                    lits == str_views(literals@),
                    lits.len() + total_len(lits) <= tl,
                    chars == total_len(lits.take(k as int)),
                decreases literals.len() - k,
            {
                let n = chars_of(literals[k].as_str()).len();
                proof {
                    assert(lits.take(k + 1).drop_last() =~= lits.take(k as int));
                    lemma_total_len_take(lits, k + 1);
                }
                chars = chars + n;
                k += 1;
            }
            proof {
                assert(lits.take(lits.len() as int) =~= lits);
            }
            (literals.len(), chars)
        }
    } else {
        (1, text.len())
    }
}

fn estimate_segment_requests<D: DirectionProfile>(text: &str, direction: &D) -> (r: (usize, usize))
    ensures
        (r.0 as nat, r.1 as nat) == split_estimate(text@, *direction),
        r.0 <= text@.len(),
        r.1 <= text@.len(),
{
    let tv = chars_of(text);
    let tl = tv.len();
    let segs = split_preserving_structure(text);
    let ghost p = split_views(text@);
    proof {
        crate::core2::formula_text::lemma_split_texts(segs@, text@);
        lemma_flatten_total(view_texts(p));
        lemma_seg_stats_bound(p, *direction);
    }
    let mut requests: usize = 0;
    let mut chars: usize = 0;
    let mut k: usize = 0;
    while k < segs.len()
        invariant
            k <= segs.len(),
            p == split_views(text@),
            p.len() == segs@.len(),
            forall|j: int| 0 <= j < segs@.len() ==> #[trigger] p[j] == (segs@[j].text@, segs@[j].target),
            total_len(view_texts(p)) == text@.len(),
            text@.len() == tl,
            is_split_of(segs@, text@),
            (requests as nat, chars as nat) == seg_stats(p.take(k as int), *direction),
            requests <= chars,
            chars <= total_len(view_texts(p.take(k as int))),
        decreases segs.len() - k,
    {
        let seg = &segs[k];
        proof {
            assert(p.take(k + 1).drop_last() =~= p.take(k as int));
            assert(p.take(k + 1).last() == p[k as int]);
            assert(view_texts(p.take(k + 1)).drop_last() =~= view_texts(p.take(k as int)));
            assert(view_texts(p.take(k + 1)) =~= view_texts(p).take(k + 1));
            lemma_total_len_take(view_texts(p), k + 1);
        }
        if crate::core1::candidates::should_translate_segment(seg.target, seg.text.as_str(), direction) {
            let n = chars_of(seg.text.as_str()).len();
            proof {
                assert(segs@[k as int].text@.len() > 0);
            }
            requests += 1;
            chars += n;
        }
        k += 1;
    }
    proof {
        assert(p.take(p.len() as int) =~= p);
    }
    (requests, chars)
}

/// Requests and characters planned for the job.
#[derive(Debug, Clone, Copy)]
pub struct CandidateUsageEstimate {
    pub translatable_cells: usize,
    pub candidate_units: usize,
    pub candidate1_requests: usize,
    pub candidate1_chars: usize,
    pub candidate2_requests: usize,
    pub candidate2_chars: usize,
    pub candidate3_requests: usize,
    pub candidate3_chars: usize,
}

impl CandidateUsageEstimate {
    pub fn total_requests(&self) -> (r: usize)
        requires
            self.candidate1_requests + self.candidate2_requests + self.candidate3_requests
                <= usize::MAX,
        ensures
            r == self.candidate1_requests + self.candidate2_requests + self.candidate3_requests,
    {
        self.candidate1_requests + self.candidate2_requests + self.candidate3_requests
    }

    pub fn total_chars(&self) -> (r: usize)
        requires
            self.candidate1_chars + self.candidate2_chars + self.candidate3_chars <= usize::MAX,
        ensures
            r == self.candidate1_chars + self.candidate2_chars + self.candidate3_chars,
    {
        self.candidate1_chars + self.candidate2_chars + self.candidate3_chars
    }
}

/// The estimate of one cell under method `m`.
pub open spec fn cell_estimate<D: DirectionProfile>(cell: LogicalCell, m: Method, d: D) -> (nat, nat) {
    match m {
        Method::Split => split_estimate(cell.source_text@, d),
        Method::Whole => whole_estimate(cell.cell_kind, cell.source_text@),
    }
}

/// Sum of the estimates of the cells that get candidates.
pub open spec fn usage_sum<D: DirectionProfile>(
    cells: Seq<LogicalCell>,
    pols: Seq<TranslationPolicyDecision>,
    m: Method,
    d: D,
) -> (nat, nat)
    decreases cells.len(),
{
    if cells.len() == 0 || pols.len() == 0 {
        (0, 0)
    } else {
        let r = usage_sum(cells.drop_last(), pols.drop_last(), m, d);
        if pols.last().translate_candidates {
            let c = cell_estimate(cells.last(), m, d);
            (r.0 + c.0, r.1 + c.1)
        } else {
            r
        }
    }
}

/// Number of cells that get candidates.
pub open spec fn translatable_count(pols: Seq<TranslationPolicyDecision>) -> nat
    decreases pols.len(),
{
    if pols.len() == 0 {
        0
    } else {
        translatable_count(pols.drop_last()) + if pols.last().translate_candidates {
            1nat
        } else {
            0nat
        }
    }
}

pub open spec fn enabled_count(plan: CandidateGenerationPlan) -> nat {
    (if plan.spec_is_enabled(1) { 1nat } else { 0nat }) + (if plan.spec_is_enabled(2) {
        1nat
    } else {
        0nat
    }) + (if plan.spec_is_enabled(3) { 1nat } else { 0nat })
}

pub open spec fn cand_usage<D: DirectionProfile>(
    cells: Seq<LogicalCell>,
    pols: Seq<TranslationPolicyDecision>,
    plan: CandidateGenerationPlan,
    n: u8,
    d: D,
) -> (nat, nat) {
    if plan.spec_is_enabled(n) {
        usage_sum(cells, pols, plan.spec_method(n), d)
    } else {
        (0, 0)
    }
}

/// The totals fit in machine words.
pub open spec fn usage_fits<D: DirectionProfile>(
    cells: Seq<LogicalCell>,
    pols: Seq<TranslationPolicyDecision>,
    d: D,
) -> bool {
    &&& cells.len() * 3 <= usize::MAX
    &&& usage_sum(cells, pols, Method::Split, d).0 <= usize::MAX
    &&& usage_sum(cells, pols, Method::Split, d).1 <= usize::MAX
    &&& usage_sum(cells, pols, Method::Whole, d).0 <= usize::MAX
    &&& usage_sum(cells, pols, Method::Whole, d).1 <= usize::MAX
}

proof fn lemma_usage_sum_take<D: DirectionProfile>(
    cells: Seq<LogicalCell>,
    pols: Seq<TranslationPolicyDecision>,
    m: Method,
    d: D,
    k: int,
)
    requires
        0 <= k <= cells.len(),
        cells.len() == pols.len(),
    ensures
        usage_sum(cells.take(k), pols.take(k), m, d).0 <= usage_sum(cells, pols, m, d).0,
        usage_sum(cells.take(k), pols.take(k), m, d).1 <= usage_sum(cells, pols, m, d).1,
        translatable_count(pols.take(k)) <= translatable_count(pols),
    decreases cells.len() - k,
{
    if k < cells.len() {
        lemma_usage_sum_take(cells, pols, m, d, k + 1);
        assert(cells.take(k + 1).drop_last() =~= cells.take(k));
        assert(pols.take(k + 1).drop_last() =~= pols.take(k));
    } else {
        assert(cells.take(k) =~= cells);
        assert(pols.take(k) =~= pols);
    }
}

proof fn lemma_translatable_count_bound(pols: Seq<TranslationPolicyDecision>)
    ensures
        translatable_count(pols) <= pols.len(),
    decreases pols.len(),
{
    if pols.len() > 0 {
        lemma_translatable_count_bound(pols.drop_last());
    }
}

pub open spec fn length_mismatch_message(cells: nat, policies: nat) -> Seq<char> {
    "candidate estimate input length mismatch: cells="@ + crate::decimal::dec(cells)
        + " policies="@ + crate::decimal::dec(policies)
}

/// Requests and characters each enabled candidate will send, cell by cell
/// with that candidate's method; cells without candidates send nothing.
pub fn estimate_candidate_usage<D: DirectionProfile>(
    logical_cells: &[LogicalCell],
    policies: &[TranslationPolicyDecision],
    candidate_plan: &CandidateGenerationPlan,
    direction: &D,
) -> (r: Result<CandidateUsageEstimate, AppError>)
    requires
        logical_cells@.len() == policies@.len() ==> usage_fits(logical_cells@, policies@, *direction),
    ensures
        logical_cells@.len() != policies@.len() ==> (r matches Err(AppError::Internal(m)) && m@
            == length_mismatch_message(logical_cells@.len(), policies@.len())),
        logical_cells@.len() == policies@.len() ==> (r matches Ok(u) && {
            let c1 = cand_usage(logical_cells@, policies@, *candidate_plan, 1, *direction);
            let c2 = cand_usage(logical_cells@, policies@, *candidate_plan, 2, *direction);
            let c3 = cand_usage(logical_cells@, policies@, *candidate_plan, 3, *direction);
            &&& u.translatable_cells == translatable_count(policies@)
            &&& u.candidate_units == translatable_count(policies@) * enabled_count(*candidate_plan)
            &&& u.candidate1_requests == c1.0 && u.candidate1_chars == c1.1
            &&& u.candidate2_requests == c2.0 && u.candidate2_chars == c2.1
            &&& u.candidate3_requests == c3.0 && u.candidate3_chars == c3.1
        }),
{
    if logical_cells.len() != policies.len() {
        let mut m = chars_of("candidate estimate input length mismatch: cells=");
        crate::text::push_all(&mut m, &crate::decimal::dec_chars(logical_cells.len()));
        crate::text::push_all(&mut m, &chars_of(" policies="));
        crate::text::push_all(&mut m, &crate::decimal::dec_chars(policies.len()));
        return Err(AppError::Internal(crate::text::string_of(&m)));
    }
    let e1 = candidate_plan.is_enabled(1);
    let e2 = candidate_plan.is_enabled(2);
    let e3 = candidate_plan.is_enabled(3);
    let m1 = candidate_plan.method(1);
    let m2 = candidate_plan.method(2);
    let m3 = candidate_plan.method(3);
    let per_cell: usize = (if e1 { 1 } else { 0 }) + (if e2 { 1 } else { 0 }) + (if e3 { 1 } else { 0 });
    let ghost cells = logical_cells@;
    let ghost pols = policies@;
    let ghost d = *direction;
    let mut out = CandidateUsageEstimate {
        translatable_cells: 0,
        candidate_units: 0,
        candidate1_requests: 0,
        candidate1_chars: 0,
        candidate2_requests: 0,
        candidate2_chars: 0,
        candidate3_requests: 0,
        candidate3_chars: 0,
    };
    let mut idx: usize = 0;
    while idx < logical_cells.len()
        invariant
            idx <= logical_cells@.len(),
            cells == logical_cells@,
            pols == policies@,
            d == *direction,
            cells.len() == pols.len(),
            usage_fits(cells, pols, d),
            e1 == candidate_plan.spec_is_enabled(1),
            e2 == candidate_plan.spec_is_enabled(2),
            e3 == candidate_plan.spec_is_enabled(3),
            m1 == candidate_plan.spec_method(1),
            m2 == candidate_plan.spec_method(2),
            m3 == candidate_plan.spec_method(3),
            per_cell == enabled_count(*candidate_plan),
            out.translatable_cells == translatable_count(pols.take(idx as int)),
            out.candidate_units == translatable_count(pols.take(idx as int)) * per_cell,
            (out.candidate1_requests as nat, out.candidate1_chars as nat) == cand_usage(cells.take(idx as int), pols.take(idx as int), *candidate_plan, 1, d),
            (out.candidate2_requests as nat, out.candidate2_chars as nat) == cand_usage(cells.take(idx as int), pols.take(idx as int), *candidate_plan, 2, d),
            (out.candidate3_requests as nat, out.candidate3_chars as nat) == cand_usage(cells.take(idx as int), pols.take(idx as int), *candidate_plan, 3, d),
        decreases logical_cells.len() - idx,
    {
        let cell = &logical_cells[idx];
        proof {
            assert(cells.take(idx + 1).drop_last() =~= cells.take(idx as int));
            assert(pols.take(idx + 1).drop_last() =~= pols.take(idx as int));
            assert(cells.take(idx + 1).last() == cells[idx as int]);
            assert(pols.take(idx + 1).last() == pols[idx as int]);
            lemma_usage_sum_take(cells, pols, Method::Split, d, idx + 1);
            lemma_usage_sum_take(cells, pols, Method::Whole, d, idx + 1);
            lemma_translatable_count_bound(pols.take(idx + 1));
            assert(translatable_count(pols.take(idx + 1)) * per_cell <= cells.len() * 3) by (nonlinear_arith)
                requires translatable_count(pols.take(idx + 1)) <= idx + 1, idx + 1 <= cells.len(), per_cell <= 3;
        }
        if policies[idx].translate_candidates {
            proof {
                let t = translatable_count(pols.take(idx as int));
                assert((t + 1) * per_cell == t * per_cell + per_cell) by (nonlinear_arith);
            }
            out.translatable_cells += 1;
            out.candidate_units += per_cell;
            if e1 {
                let (q, c) = match m1 {
                    Method::Split => estimate_segment_requests(cell.source_text.as_str(), direction),
                    Method::Whole => estimate_whole_requests(cell),
                };
                out.candidate1_requests += q;
                out.candidate1_chars += c;
            }
            if e2 {
                let (q, c) = match m2 {
                    Method::Split => estimate_segment_requests(cell.source_text.as_str(), direction),
                    Method::Whole => estimate_whole_requests(cell),
                };
                out.candidate2_requests += q;
                out.candidate2_chars += c;
            }
            if e3 {
                let (q, c) = match m3 {
                    Method::Split => estimate_segment_requests(cell.source_text.as_str(), direction),
                    Method::Whole => estimate_whole_requests(cell),
                };
                out.candidate3_requests += q;
                out.candidate3_chars += c;
            }
        }
        idx += 1;
    }
    proof {
        assert(cells.take(cells.len() as int) =~= cells);
        assert(pols.take(pols.len() as int) =~= pols);
    }
    Ok(out)
}


// ------------------------------------------------------------------
// Candidate bundles
// ------------------------------------------------------------------

/// Whether `rs` is what a candidate run with method `m` gives when its
/// requests, under `label`, go to `adapter` from `from` to `to` and are
/// answered as the adapter may answer them.
pub open spec fn is_candidate_run<A: TranslatorAdapter, D: DirectionProfile>(
    m: Method,
    label: Seq<char>,
    cells: Seq<LogicalCell>,
    pols: Seq<TranslationPolicyDecision>,
    adapter: &A,
    max_items: nat,
    max_chars: nat,
    from: Lang,
    d: D,
    to: Lang,
    rs: Seq<Result<Seq<char>, Seq<char>>>,
) -> bool {
    match m {
        Method::Split => exists|o: Seq<Result<Seq<char>, Seq<char>>>|
            #[trigger] sent_in_batches(
                adapter,
                label,
                "-"@,
                "segment"@,
                req_texts(seg_all_reqs(cells, pols, d)),
                max_items,
                max_chars,
                from,
                to,
                o,
            ) && o.len() == seg_all_reqs(cells, pols, d).len() && spec_segment_results(cells, pols, d, to, o) == rs,
        Method::Whole => exists|wo: Seq<Result<Seq<char>, Seq<char>>>, lo: Seq<Result<Seq<char>, Seq<char>>>|
            #[trigger] whole_sent(adapter, label, cells, pols, max_items, max_chars, from, to, wo, lo) && wo.len()
                == whole_all_reqs(cells, pols).len() && lo.len() == lit_all_reqs(cells, pols).len()
                && spec_whole_results(cells, pols, to, wo, lo) == rs,
    }
}

/// Runs one candidate over all cells with its method.
pub fn run_candidate_by_method<A: TranslatorAdapter, D: DirectionProfile>(
    label: &str,
    method: Method,
    logical_cells: &[LogicalCell],
    policies: &[TranslationPolicyDecision],
    adapter: &A,
    batch_max_items: usize,
    batch_max_chars: usize,
    from_lang: Lang,
    to_lang: Lang,
    direction: &D,
) -> (results: Vec<Result<String, String>>)
    requires
        logical_cells@.len() == policies@.len(),
    ensures
        results.len() == logical_cells@.len(),
        is_candidate_run(
            method,
            label@,
            logical_cells@,
            policies@,
            adapter,
            batch_max_items as nat,
            batch_max_chars as nat,
            from_lang,
            *direction,
            to_lang,
            res_views(results@),
        ),
{
    match method {
        Method::Split => {
            let r = translate_segments_for_cells(
                label,
                logical_cells,
                policies,
                adapter,
                batch_max_items,
                batch_max_chars,
                from_lang,
                to_lang,
                direction,
            );
            r
        },
        Method::Whole => {
            let r = translate_whole_for_cells(
                label,
                logical_cells,
                policies,
                adapter,
                batch_max_items,
                batch_max_chars,
                from_lang,
                to_lang,
            );
            r
        },
    }
}

pub open spec fn ok_part(c: Option<Result<Seq<char>, Seq<char>>>) -> Option<Seq<char>> {
    match c {
        Some(Ok(s)) => Some(s),
        _ => None,
    }
}

pub open spec fn err_part(c: Option<Result<Seq<char>, Seq<char>>>) -> Option<Seq<char>> {
    match c {
        Some(Err(e)) => Some(e),
        _ => None,
    }
}

pub open spec fn opt_string_view(o: Option<String>) -> Option<Seq<char>> {
    match o {
        Some(s) => Some(s@),
        None => None,
    }
}

/// The outcome of candidate `k` for cell `i`, when that candidate runs.
pub open spec fn pick(plan: CandidateGenerationPlan, k: u8, rs: Seq<Result<Seq<char>, Seq<char>>>, i: int) -> Option<
    Result<Seq<char>, Seq<char>>,
> {
    if plan.spec_is_enabled(k) {
        Some(rs[i])
    } else {
        None
    }
}

/// The bundle of one cell: a cell without candidates keeps its default and
/// has no candidate and no alarm; otherwise each candidate that ran shows
/// its text or its alarm, and the default falls back by priority.
pub open spec fn bundle_of(
    b: CandidateBundle,
    cell: LogicalCell,
    pol: TranslationPolicyDecision,
    base: DefaultSelect,
    plan: CandidateGenerationPlan,
    c1: Option<Result<Seq<char>, Seq<char>>>,
    c2: Option<Result<Seq<char>, Seq<char>>>,
    c3: Option<Result<Seq<char>, Seq<char>>>,
) -> bool {
    &&& b.logical_cell_id@ == cell.logical_cell_id@
    &&& b.original@ == cell.source_text@
    &&& b.note@ == pol.note@
    &&& if !pol.translate_candidates {
        &&& b.candidate1 is None
        &&& b.candidate2 is None
        &&& b.candidate3 is None
        &&& b.alarms.candidate1_alarm is None
        &&& b.alarms.candidate2_alarm is None
        &&& b.alarms.candidate3_alarm is None
        &&& b.default_select == base
    } else {
        &&& opt_string_view(b.candidate1) == ok_part(c1)
        &&& opt_string_view(b.candidate2) == ok_part(c2)
        &&& opt_string_view(b.candidate3) == ok_part(c3)
        &&& opt_string_view(b.alarms.candidate1_alarm) == err_part(c1)
        &&& opt_string_view(b.alarms.candidate2_alarm) == err_part(c2)
        &&& opt_string_view(b.alarms.candidate3_alarm) == err_part(c3)
        &&& b.default_select == spec_fallback(
            base,
            plan,
            ok_part(c1) is Some,
            ok_part(c2) is Some,
            ok_part(c3) is Some,
        )
    }
}

/// The label of candidate `k`'s requests.
pub open spec fn candidate_label(k: u8) -> Seq<char> {
    if k == 1 {
        "candidate1"@
    } else if k == 2 {
        "candidate2"@
    } else {
        "candidate3"@
    }
}

/// Candidate `k` ran over all cells through `adapter` when the plan enables
/// it.
pub open spec fn run_of<A: TranslatorAdapter, D: DirectionProfile>(
    plan: CandidateGenerationPlan,
    k: u8,
    cells: Seq<LogicalCell>,
    pols: Seq<TranslationPolicyDecision>,
    adapter: &A,
    max_items: nat,
    max_chars: nat,
    from: Lang,
    d: D,
    to: Lang,
    rs: Seq<Result<Seq<char>, Seq<char>>>,
) -> bool {
    plan.spec_is_enabled(k) ==> rs.len() == cells.len() && is_candidate_run(
        plan.spec_method(k),
        candidate_label(k),
        cells,
        pols,
        adapter,
        max_items,
        max_chars,
        from,
        d,
        to,
        rs,
    )
}

/// A batch limit of 0 means the default limit.
pub open spec fn limit_or(limit: nat, default: nat) -> nat {
    if limit == 0 {
        default
    } else {
        limit
    }
}

pub open spec fn bundles_from(
    bs: Seq<CandidateBundle>,
    cells: Seq<LogicalCell>,
    pols: Seq<TranslationPolicyDecision>,
    bases: Seq<DefaultSelect>,
    plan: CandidateGenerationPlan,
    r1: Seq<Result<Seq<char>, Seq<char>>>,
    r2: Seq<Result<Seq<char>, Seq<char>>>,
    r3: Seq<Result<Seq<char>, Seq<char>>>,
) -> bool {
    &&& bs.len() == cells.len()
    &&& forall|i: int|
        0 <= i < cells.len() ==> #[trigger] bundle_of(
            bs[i],
            cells[i],
            pols[i],
            bases[i],
            plan,
            pick(plan, 1, r1, i),
            pick(plan, 2, r2, i),
            pick(plan, 3, r3, i),
        )
}

/// The bundles are those of runs of the enabled candidates, candidate k
/// through adapter k.
pub open spec fn batch_outcome<A1: TranslatorAdapter, A2: TranslatorAdapter, A3: TranslatorAdapter, D: DirectionProfile>(
    bs: Seq<CandidateBundle>,
    cells: Seq<LogicalCell>,
    pols: Seq<TranslationPolicyDecision>,
    bases: Seq<DefaultSelect>,
    plan: CandidateGenerationPlan,
    adapter1: &A1,
    adapter2: &A2,
    adapter3: &A3,
    max_items: nat,
    max_chars: nat,
    from: Lang,
    d: D,
    to: Lang,
) -> bool {
    exists|
        r1: Seq<Result<Seq<char>, Seq<char>>>,
        r2: Seq<Result<Seq<char>, Seq<char>>>,
        r3: Seq<Result<Seq<char>, Seq<char>>>,
    |
        #![trigger bundles_from(bs, cells, pols, bases, plan, r1, r2, r3)]
        {
            &&& run_of(plan, 1, cells, pols, adapter1, max_items, max_chars, from, d, to, r1)
            &&& run_of(plan, 2, cells, pols, adapter2, max_items, max_chars, from, d, to, r2)
            &&& run_of(plan, 3, cells, pols, adapter3, max_items, max_chars, from, d, to, r3)
            &&& bundles_from(bs, cells, pols, bases, plan, r1, r2, r3)
        }
}

pub open spec fn batch_mismatch_message(cells: nat, policies: nat, defaults: nat) -> Seq<char> {
    "candidate batch input length mismatch: cells="@ + crate::decimal::dec(cells) + " policies="@
        + crate::decimal::dec(policies) + " defaults="@ + crate::decimal::dec(defaults)
}

pub open spec fn opt_res_views(r: Option<Vec<Result<String, String>>>) -> Seq<Result<Seq<char>, Seq<char>>> {
    match r {
        Some(v) => res_views(v@),
        None => Seq::empty(),
    }
}

fn run_if_enabled<A: TranslatorAdapter, D: DirectionProfile>(
    k: u8,
    label: &str,
    plan: &CandidateGenerationPlan,
    logical_cells: &[LogicalCell],
    policies: &[TranslationPolicyDecision],
    adapter: &A,
    batch_max_items: usize,
    batch_max_chars: usize,
    from_lang: Lang,
    to_lang: Lang,
    direction: &D,
) -> (r: Option<Vec<Result<String, String>>>)
    requires
        logical_cells@.len() == policies@.len(),
        label@ == candidate_label(k),
    ensures
        r is Some <==> plan.spec_is_enabled(k),
        run_of(
            *plan,
            k,
            logical_cells@,
            policies@,
            adapter,
            batch_max_items as nat,
            batch_max_chars as nat,
            from_lang,
            *direction,
            to_lang,
            opt_res_views(r),
        ),
{
    if plan.is_enabled(k) {
        let m = plan.method(k);
        Some(
            run_candidate_by_method(
                label,
                m,
                logical_cells,
                policies,
                adapter,
                batch_max_items,
                batch_max_chars,
                from_lang,
                to_lang,
                direction,
            ),
        )
    } else {
        None
    }
}

fn outcome_at(r: &Option<Vec<Result<String, String>>>, i: usize) -> (c: Option<Result<String, String>>)
    requires
        r matches Some(v) ==> i < v.len(),
    ensures
        match c {
            Some(x) => r is Some && res_views(r->0@)[i as int] == crate::text::res_view(x),
            None => r is None,
        },
{
    match r {
        Some(v) => {
            let x = match &v[i] {
                Ok(s) => Ok(s.clone()),
                Err(e) => Err(e.clone()),
            };
            Some(x)
        },
        None => None,
    }
}

fn ok_text(c: &Option<Result<String, String>>) -> (r: Option<String>)
    ensures
        opt_string_view(r) == ok_part(match c {
            Some(x) => Some(crate::text::res_view(*x)),
            None => None,
        }),
{
    match c {
        Some(Ok(s)) => Some(s.clone()),
        _ => None,
    }
}

fn err_text(c: &Option<Result<String, String>>) -> (r: Option<String>)
    ensures
        opt_string_view(r) == err_part(match c {
            Some(x) => Some(crate::text::res_view(*x)),
            None => None,
        }),
{
    match c {
        Some(Err(e)) => Some(e.clone()),
        _ => None,
    }
}

/// Candidate bundles of a batch of cells: each enabled candidate is run over
/// all cells with its method, and each cell's bundle holds the candidates'
/// texts or alarms and the default after fallback.
pub fn build_candidate_bundles_batch<
    A1: TranslatorAdapter,
    A2: TranslatorAdapter,
    A3: TranslatorAdapter,
    D: DirectionProfile,
>(
    logical_cells: &[LogicalCell],
    policies: &[TranslationPolicyDecision],
    default_selects: &[DefaultSelect],
    adapter1: &A1,
    adapter2: &A2,
    adapter3: &A3,
    batch_max_items: usize,
    batch_max_chars: usize,
    candidate_plan: &CandidateGenerationPlan,
    from_lang: Lang,
    to_lang: Lang,
    direction: &D,
) -> (r: Result<Vec<CandidateBundle>, AppError>)
    ensures
        (logical_cells@.len() != policies@.len() || logical_cells@.len() != default_selects@.len()) ==> (r matches Err(
            AppError::Internal(m),
        ) && m@ == batch_mismatch_message(
            logical_cells@.len(),
            policies@.len(),
            default_selects@.len(),
        )),
        (logical_cells@.len() == policies@.len() && logical_cells@.len() == default_selects@.len()) ==> (r matches Ok(
            bs,
        ) && batch_outcome(
            bs@,
            logical_cells@,
            policies@,
            default_selects@,
            *candidate_plan,
            adapter1,
            adapter2,
            adapter3,
            limit_or(batch_max_items as nat, 50),
            limit_or(batch_max_chars as nat, 3000),
            from_lang,
            *direction,
            to_lang,
        )),
{
    if logical_cells.len() != policies.len() || logical_cells.len() != default_selects.len() {
        let mut m = chars_of("candidate batch input length mismatch: cells=");
        crate::text::push_all(&mut m, &crate::decimal::dec_chars(logical_cells.len()));
        crate::text::push_all(&mut m, &chars_of(" policies="));
        crate::text::push_all(&mut m, &crate::decimal::dec_chars(policies.len()));
        crate::text::push_all(&mut m, &chars_of(" defaults="));
        crate::text::push_all(&mut m, &crate::decimal::dec_chars(default_selects.len()));
        return Err(AppError::Internal(crate::text::string_of(&m)));
    }
    let safe_max_items: usize = if batch_max_items == 0 { 50 } else { batch_max_items };
    let safe_max_chars: usize = if batch_max_chars == 0 { 3000 } else { batch_max_chars };
    let res1 = run_if_enabled(1, "candidate1", candidate_plan, logical_cells, policies, adapter1, safe_max_items,
        safe_max_chars, from_lang, to_lang, direction);
    let res2 = run_if_enabled(2, "candidate2", candidate_plan, logical_cells, policies, adapter2, safe_max_items,
        safe_max_chars, from_lang, to_lang, direction);
    let res3 = run_if_enabled(3, "candidate3", candidate_plan, logical_cells, policies, adapter3, safe_max_items,
        safe_max_chars, from_lang, to_lang, direction);
    let ghost g1 = opt_res_views(res1);
    let ghost g2 = opt_res_views(res2);
    let ghost g3 = opt_res_views(res3);
    let ghost cells = logical_cells@;
    let ghost pols = policies@;
    let ghost bases = default_selects@;
    let ghost plan = *candidate_plan;
    let mut bundles: Vec<CandidateBundle> = Vec::new();
    let mut idx: usize = 0;
    while idx < logical_cells.len()
        invariant
            idx <= cells.len(),
            cells == logical_cells@,
            pols == policies@,
            bases == default_selects@,
            plan == *candidate_plan,
            cells.len() == pols.len(),
            cells.len() == bases.len(),
            g1 == opt_res_views(res1),
            g2 == opt_res_views(res2),
            g3 == opt_res_views(res3),
            res1 is Some <==> plan.spec_is_enabled(1),
            res2 is Some <==> plan.spec_is_enabled(2),
            res3 is Some <==> plan.spec_is_enabled(3),
            res1 matches Some(v) ==> v.len() == cells.len(),
            res2 matches Some(v) ==> v.len() == cells.len(),
            res3 matches Some(v) ==> v.len() == cells.len(),
            bundles.len() == idx,
            forall|i: int|
                0 <= i < idx ==> #[trigger] bundle_of(
                    bundles@[i],
                    cells[i],
                    pols[i],
                    bases[i],
                    plan,
                    pick(plan, 1, g1, i),
                    pick(plan, 2, g2, i),
                    pick(plan, 3, g3, i),
                ),
        decreases cells.len() - idx,
    {
        let cell = &logical_cells[idx];
        let policy = &policies[idx];
        let b = if !policy.translate_candidates {
            CandidateBundle {
                logical_cell_id: cell.logical_cell_id.clone(),
                original: cell.source_text.clone(),
                candidate1: None,
                candidate2: None,
                candidate3: None,
                default_select: default_selects[idx],
                alarms: CandidateAlarms::default(),
                note: policy.note.clone(),
            }
        } else {
            let cand1 = outcome_at(&res1, idx);
            let cand2 = outcome_at(&res2, idx);
            let cand3 = outcome_at(&res3, idx);
            let default_select = decide_fallback_default_select(
                default_selects[idx],
                candidate_plan,
                cand1.as_ref(),
                cand2.as_ref(),
                cand3.as_ref(),
            );
            CandidateBundle {
                logical_cell_id: cell.logical_cell_id.clone(),
                original: cell.source_text.clone(),
                candidate1: ok_text(&cand1),
                candidate2: ok_text(&cand2),
                candidate3: ok_text(&cand3),
                default_select,
                alarms: CandidateAlarms {
                    candidate1_alarm: err_text(&cand1),
                    candidate2_alarm: err_text(&cand2),
                    candidate3_alarm: err_text(&cand3),
                },
                note: policy.note.clone(),
            }
        };
        proof {
            assert(bundle_of(
                b,
                cells[idx as int],
                pols[idx as int],
                bases[idx as int],
                plan,
                pick(plan, 1, g1, idx as int),
                pick(plan, 2, g2, idx as int),
                pick(plan, 3, g3, idx as int),
            ));
        }
        bundles.push(b);
        idx += 1;
    }
    proof {
        assert(bundles_from(bundles@, cells, pols, bases, plan, g1, g2, g3));
    }
    Ok(bundles)
}

/// The plan `CandidateGenerationPlan::default_plan` builds.
pub open spec fn is_default_plan(p: CandidateGenerationPlan) -> bool {
    &&& p.enabled_candidates@ == seq![1u8, 2u8, 3u8]
    &&& p.default_candidate_priority@ == seq![1u8, 2u8, 3u8]
    &&& p.methods@ == seq![Method::Split, Method::Split, Method::Whole]
}

fn copy_text(s: &Option<String>) -> (r: Option<String>)
    ensures
        r == *s,
{
    match s {
        Some(x) => Some(x.clone()),
        None => None,
    }
}

pub(crate) fn copy_cell(c: &LogicalCell) -> (r: LogicalCell)
    ensures
        r == *c,
{
    LogicalCell {
        is_merged: c.is_merged,
        is_merge_anchor: c.is_merge_anchor,
        merge_anchor_address: copy_text(&c.merge_anchor_address),
        writeback_allowed: c.writeback_allowed,
        logical_cell_id: c.logical_cell_id.clone(),
        sheet_name: c.sheet_name.clone(),
        anchor_address: c.anchor_address.clone(),
        cell_kind: c.cell_kind,
        source_text: c.source_text.clone(),
    }
}

fn copy_policy(p: &TranslationPolicyDecision) -> (r: TranslationPolicyDecision)
    ensures
        r == *p,
{
    TranslationPolicyDecision { translate_candidates: p.translate_candidates, note: p.note.clone() }
}

/// The bundle of a single cell, built as a batch of one with the default
/// plan, batches of at most 50 items and 3000 characters, and the
/// direction's language pair.
pub fn build_candidate_bundle<A1: TranslatorAdapter, A2: TranslatorAdapter, A3: TranslatorAdapter, D: DirectionProfile>(
    logical_cell: &LogicalCell,
    policy: &TranslationPolicyDecision,
    default_select: DefaultSelect,
    adapter1: &A1,
    adapter2: &A2,
    adapter3: &A3,
    direction: &D,
) -> (r: Result<CandidateBundle, AppError>)
    ensures
        r matches Ok(b) && exists|p: CandidateGenerationPlan|
            is_default_plan(p) && #[trigger] batch_outcome(
                seq![b],
                seq![*logical_cell],
                seq![*policy],
                seq![default_select],
                p,
                adapter1,
                adapter2,
                adapter3,
                50,
                3000,
                direction.spec_lang_pair().0,
                *direction,
                direction.spec_lang_pair().1,
            ),
{
    let (from_lang, to_lang) = direction.lang_pair();
    let plan = CandidateGenerationPlan::default_plan();
    let cells = vec![copy_cell(logical_cell)];
    let pols = vec![copy_policy(policy)];
    let defaults = vec![default_select];
    proof {
        assert(cells@ =~= seq![*logical_cell]);
        assert(pols@ =~= seq![*policy]);
        assert(defaults@ =~= seq![default_select]);
    }
    let res = build_candidate_bundles_batch(
        cells.as_slice(),
        pols.as_slice(),
        defaults.as_slice(),
        adapter1,
        adapter2,
        adapter3,
        50,
        3000,
        &plan,
        from_lang,
        to_lang,
        direction,
    );
    match res {
        Ok(mut bundles) => {
            let ghost bv = bundles@;
            let b = bundles.remove(0);
            proof {
                assert(bv =~= seq![b]);
                assert(is_default_plan(plan));
            }
            Ok(b)
        },
        Err(e) => Err(e),
    }
}

/// A candidate column holds only that candidate's own result: when a cell's
/// bundle shows a text (or an alarm) for candidate k, candidate k ran and
/// that is its own outcome for the cell; a failed candidate is never filled
/// from another one. For a cell that gets candidates, the default shows a
/// candidate only when that candidate has a text.
pub proof fn law_candidate_columns_are_own_results(
    bs: Seq<CandidateBundle>,
    cells: Seq<LogicalCell>,
    pols: Seq<TranslationPolicyDecision>,
    bases: Seq<DefaultSelect>,
    plan: CandidateGenerationPlan,
    r1: Seq<Result<Seq<char>, Seq<char>>>,
    r2: Seq<Result<Seq<char>, Seq<char>>>,
    r3: Seq<Result<Seq<char>, Seq<char>>>,
    i: int,
)
    requires
        bundles_from(bs, cells, pols, bases, plan, r1, r2, r3),
        0 <= i < cells.len(),
    ensures
        bs[i].candidate1 matches Some(t) ==> plan.spec_is_enabled(1) && r1[i] == Ok::<Seq<char>, Seq<char>>(t@),
        bs[i].candidate2 matches Some(t) ==> plan.spec_is_enabled(2) && r2[i] == Ok::<Seq<char>, Seq<char>>(t@),
        bs[i].candidate3 matches Some(t) ==> plan.spec_is_enabled(3) && r3[i] == Ok::<Seq<char>, Seq<char>>(t@),
        bs[i].alarms.candidate1_alarm matches Some(e) ==> plan.spec_is_enabled(1) && r1[i] == Err::<
            Seq<char>,
            Seq<char>,
        >(e@),
        bs[i].alarms.candidate2_alarm matches Some(e) ==> plan.spec_is_enabled(2) && r2[i] == Err::<
            Seq<char>,
            Seq<char>,
        >(e@),
        bs[i].alarms.candidate3_alarm matches Some(e) ==> plan.spec_is_enabled(3) && r3[i] == Err::<
            Seq<char>,
            Seq<char>,
        >(e@),
        pols[i].translate_candidates && bs[i].default_select == DefaultSelect::Candidate1 ==> bs[i].candidate1 is Some,
        pols[i].translate_candidates && bs[i].default_select == DefaultSelect::Candidate2 ==> bs[i].candidate2 is Some,
        pols[i].translate_candidates && bs[i].default_select == DefaultSelect::Candidate3 ==> bs[i].candidate3 is Some,
{
    let c1 = pick(plan, 1, r1, i);
    let c2 = pick(plan, 2, r2, i);
    let c3 = pick(plan, 3, r3, i);
    assert(bundle_of(bs[i], cells[i], pols[i], bases[i], plan, c1, c2, c3));
    law_fallback_never_shows_failed_candidate(
        bases[i],
        plan,
        ok_part(c1) is Some,
        ok_part(c2) is Some,
        ok_part(c3) is Some,
    );
}

} // verus!
