//! Generation of translation candidates: requests are planned per cell,
//! sent to a provider batch by batch, and the answers are assembled back
//! into one result per cell.
//!
//! Every provider answer is taken as it comes: the assembly is specified for
//! any answers, and the functions that call a provider state their result
//! as the assembly of answers that the provider may give to the requests
//! they send it.
use vstd::prelude::*;

use crate::adapters::translator_trait::TranslatorAdapter;
use crate::adapters::types::{AdapterError, Lang, ProviderKind, TranslateRequest, TranslateResponse};
use crate::core1::batches::{build_batches, is_batching, lemma_batching_bounds, BatchRange};
use crate::core1::text_structure_analyzer::spec_text_structure;
use crate::core1::tokens::{
    rescue_restore_nl, spec_rescue_restore_nl, spec_strip_brackets, strip_residual_token_brackets,
    detect_token_leak, normalize_fullwidth_space, normalize_punctuation_for_target, protect_seq,
    protect_with, restore_seq, restore_with, select_token_table, spec_detect_token_leak,
    spec_normalize_fullwidth_space, spec_normalize_punctuation, spec_select_token_table,
};
use crate::core1::translation_policy::TranslationPolicyDecision;
use crate::core2::formula_text::{
    extract_quoted_literals, reassemble_formula, seg_views, spec_extract, spec_reassemble,
    split_preserving_structure, split_views, str_views,
};
use crate::core1::analyzer::is_formula_cell_kind;
use crate::core2::structure_types::LogicalCell;
use crate::decimal::{dec, dec_chars};
use crate::direction::DirectionProfile;
use crate::text::{chars_of, prepend, push_all, res_view, string_of};

verus! {

broadcast use vstd::seq_lib::group_seq_properties;

pub open spec fn res_views(v: Seq<Result<String, String>>) -> Seq<Result<Seq<char>, Seq<char>>> {
    Seq::new(v.len(), |i: int| res_view(v[i]))
}

/// Request id `label` + `infix` + batch number + "-" + position in the batch.
pub open spec fn request_id(label: Seq<char>, infix: Seq<char>, batch_no: nat, pos: nat) -> Seq<char> {
    label + infix + dec(batch_no) + "-"@ + dec(pos)
}

/// The texts of strings.
pub open spec fn str_seq(texts: Seq<String>) -> Seq<Seq<char>> {
    Seq::new(texts.len(), |i: int| texts[i]@)
}

/// The character counts of texts.
pub open spec fn char_counts(texts: Seq<Seq<char>>) -> Seq<usize> {
    Seq::new(texts.len(), |i: int| texts[i].len() as usize)
}

/// `reqs` are the requests of batch `batch_no` over texts `start..end`:
/// each carries its text, the provider, the language pair, a one-second
/// timeout and the id of its position in the batch, counted from 1.
pub open spec fn is_batch_requests(
    reqs: Seq<TranslateRequest>,
    label: Seq<char>,
    infix: Seq<char>,
    texts: Seq<Seq<char>>,
    start: int,
    end: int,
    batch_no: nat,
    provider: ProviderKind,
    from_lang: Lang,
    to_lang: Lang,
) -> bool {
    &&& reqs.len() == end - start
    &&& forall|k: int|
        0 <= k < reqs.len() ==> {
            &&& (#[trigger] reqs[k]).request_id@ == request_id(label, infix, batch_no, (k + 1) as nat)
            &&& reqs[k].text@ == texts[start + k]
            &&& reqs[k].provider == provider
            &&& reqs[k].from_lang == from_lang
            &&& reqs[k].to_lang == to_lang
            &&& reqs[k].timeout_ms == 1000
        }
}

/// The requests of one batch: texts `start..end`, numbered from 1.
pub fn build_batch_requests(
    label: &str,
    infix: &str,
    texts: &Vec<String>,
    start: usize,
    end: usize,
    batch_no: usize,
    provider: ProviderKind,
    from_lang: Lang,
    to_lang: Lang,
) -> (r: Vec<TranslateRequest>)
    requires
        start <= end <= texts.len(),
    ensures
        is_batch_requests(
            r@,
            label@,
            infix@,
            str_seq(texts@),
            start as int,
            end as int,
            batch_no as nat,
            provider,
            from_lang,
            to_lang,
        ),
{
    let mut r: Vec<TranslateRequest> = Vec::new();
    let mut i = start;
    while i < end
        invariant
            start <= i <= end <= texts.len(),
            r.len() == i - start,
            forall|k: int|
                0 <= k < r.len() ==> {
                    &&& (#[trigger] r[k]).request_id@ == request_id(label@, infix@, batch_no as nat, (k + 1) as nat)
                    &&& r[k].text@ == str_seq(texts@)[start + k]
                    &&& r[k].provider == provider
                    &&& r[k].from_lang == from_lang
                    &&& r[k].to_lang == to_lang
                    &&& r[k].timeout_ms == 1000
                },
        decreases end - i,
    {
        let mut id = chars_of(label);
        push_all(&mut id, &chars_of(infix));
        push_all(&mut id, &dec_chars(batch_no));
        push_all(&mut id, &chars_of("-"));
        push_all(&mut id, &dec_chars(i - start + 1));
        r.push(TranslateRequest {
            request_id: string_of(&id),
            provider,
            text: texts[i].clone(),
            from_lang,
            to_lang,
            timeout_ms: 1000,
        });
        i += 1;
    }
    r
}

pub open spec fn mismatch_message(prefix: Seq<char>, requests: nat, responses: nat) -> Seq<char> {
    prefix + " translation count mismatch: requests="@ + dec(requests) + " responses="@ + dec(
        responses,
    )
}

/// What a batch answer means for each of its `n` requests: the translated
/// texts when the count matches, else one error for all.
pub open spec fn spec_batch_outcomes(
    n: nat,
    res: Result<Vec<TranslateResponse>, AdapterError>,
    prefix: Seq<char>,
) -> Seq<Result<Seq<char>, Seq<char>>> {
    match res {
        Ok(v) => if v.len() == n {
            Seq::new(n, |k: int| Ok(v[k].translated_text@))
        } else {
            Seq::new(n, |k: int| Err(mismatch_message(prefix, n, v.len() as nat)))
        },
        Err(e) => Seq::new(n, |k: int| Err(e.message@)),
    }
}

/// Appends the outcome of each request of a batch of `n` to `outs`.
pub fn push_batch_outcomes(
    outs: &mut Vec<Result<String, String>>,
    n: usize,
    res: &Result<Vec<TranslateResponse>, AdapterError>,
    prefix: &str,
)
    ensures
        res_views(final(outs)@) == res_views(old(outs)@) + spec_batch_outcomes(n as nat, *res, prefix@),
{
    let ghost start = old(outs)@;
    let ghost add = spec_batch_outcomes(n as nat, *res, prefix@);
    let mut msg: Option<String> = None;
    match res {
        Ok(v) => {
            if v.len() != n {
                let mut m = chars_of(prefix);
                push_all(&mut m, &chars_of(" translation count mismatch: requests="));
                push_all(&mut m, &dec_chars(n));
                push_all(&mut m, &chars_of(" responses="));
                push_all(&mut m, &dec_chars(v.len()));
                msg = Some(string_of(&m));
            }
        },
        Err(e) => {
            msg = Some(e.message.clone());
        },
    }
    let mut k: usize = 0;
    while k < n
        invariant
            k <= n,
            start == old(outs)@,
            add == spec_batch_outcomes(n as nat, *res, prefix@),
            outs@.len() == start.len() + k,
            res_views(outs@) == res_views(start) + add.take(k as int),
            match msg {
                Some(m) => forall|j: int| 0 <= j < n ==> add[j] == Err::<Seq<char>, Seq<char>>(m@),
                None => res matches Ok(v) && v.len() == n && forall|j: int|
                    0 <= j < n ==> add[j] == Ok::<Seq<char>, Seq<char>>(v[j].translated_text@),
            },
        decreases n - k,
    {
        let ghost before = outs@;
        match &msg {
            Some(m) => {
                outs.push(Err(m.clone()));
            },
            None => {
                match res {
                    Ok(v) => {
                        outs.push(Ok(v[k].translated_text.clone()));
                    },
                    Err(_) => {},
                }
            },
        }
        proof {
            assert(res_views(outs@) =~= res_views(before).push(add[k as int]));
            assert(add.take(k + 1) =~= add.take(k as int).push(add[k as int]));
        }
        k += 1;
    }
    proof {
        assert(add.take(n as int) =~= add);
    }
}

/// Batch number `batch_no` of the texts, sent to `adapter` as its requests,
/// may be answered with `answer`.
pub open spec fn batch_answered<A: TranslatorAdapter>(
    adapter: &A,
    label: Seq<char>,
    infix: Seq<char>,
    texts: Seq<Seq<char>>,
    range: BatchRange,
    batch_no: nat,
    provider: ProviderKind,
    from_lang: Lang,
    to_lang: Lang,
    answer: Result<Vec<TranslateResponse>, AdapterError>,
) -> bool {
    exists|s: &[TranslateRequest]|
        #[trigger] call_ensures(A::translate_batch, (adapter, s), answer) && is_batch_requests(
            s@,
            label,
            infix,
            texts,
            range.start as int,
            range.end as int,
            batch_no,
            provider,
            from_lang,
            to_lang,
        )
}

/// `outs` is what sending `texts` to `adapter` gives: the texts are cut into
/// greedy batches, each batch goes to the adapter as its requests (under the
/// provider the adapter names, from `from_lang` to `to_lang`), and each
/// text's outcome is read from its batch's answer.
pub open spec fn sent_in_batches<A: TranslatorAdapter>(
    adapter: &A,
    label: Seq<char>,
    infix: Seq<char>,
    prefix: Seq<char>,
    texts: Seq<Seq<char>>,
    max_items: nat,
    max_chars: nat,
    from_lang: Lang,
    to_lang: Lang,
    outs: Seq<Result<Seq<char>, Seq<char>>>,
) -> bool {
    exists|
        bs: Seq<BatchRange>,
        answers: Seq<Result<Vec<TranslateResponse>, AdapterError>>,
        provider: ProviderKind,
    |
        #![trigger batches_outcomes(bs, answers, prefix), call_ensures(A::provider_kind, (adapter,), provider)]
        {
            &&& is_batching(bs, char_counts(texts), max_items, max_chars)
            &&& answers.len() == bs.len()
            &&& call_ensures(A::provider_kind, (adapter,), provider)
            &&& forall|b: int|
                0 <= b < bs.len() ==> #[trigger] batch_answered(
                    adapter,
                    label,
                    infix,
                    texts,
                    bs[b],
                    (b + 1) as nat,
                    provider,
                    from_lang,
                    to_lang,
                    answers[b],
                )
            &&& outs == batches_outcomes(bs, answers, prefix)
        }
}

/// The outcomes of batches `bs`, given each batch's answer.
pub open spec fn batches_outcomes(
    bs: Seq<BatchRange>,
    answers: Seq<Result<Vec<TranslateResponse>, AdapterError>>,
    prefix: Seq<char>,
) -> Seq<Result<Seq<char>, Seq<char>>>
    decreases bs.len(),
{
    if bs.len() == 0 || answers.len() != bs.len() {
        Seq::empty()
    } else {
        batches_outcomes(bs.drop_last(), answers.drop_last(), prefix) + spec_batch_outcomes(
            (bs.last().end - bs.last().start) as nat,
            answers.last(),
            prefix,
        )
    }
}

/// Sends `texts` to `adapter` in greedy batches and gives one outcome per
/// text, in order: the translation, or the error of its batch.
pub fn run_batches<A: TranslatorAdapter>(
    adapter: &A,
    label: &str,
    infix: &str,
    mismatch_prefix: &str,
    texts: &Vec<String>,
    batch_max_items: usize,
    batch_max_chars: usize,
    from_lang: Lang,
    to_lang: Lang,
) -> (outs: Vec<Result<String, String>>)
    ensures
        outs.len() == texts.len(),
        sent_in_batches(
            adapter,
            label@,
            infix@,
            mismatch_prefix@,
            str_seq(texts@),
            batch_max_items as nat,
            batch_max_chars as nat,
            from_lang,
            to_lang,
            res_views(outs@),
        ),
{
    let mut lens: Vec<usize> = Vec::new();
    let mut i: usize = 0;
    while i < texts.len()
        invariant
            i <= texts.len(),
            lens.len() == i,
            forall|j: int| 0 <= j < i ==> lens@[j] == texts@[j]@.len() as usize,
        decreases texts.len() - i,
    {
        lens.push(chars_of(texts[i].as_str()).len());
        i += 1;
    }
    proof {
        assert(lens@ =~= char_counts(str_seq(texts@)));
    }
    let batches = build_batches(&lens, batch_max_items, batch_max_chars);
    proof {
        lemma_batching_bounds(batches@, lens@, batch_max_items as nat, batch_max_chars as nat);
    }
    let provider = adapter.provider_kind();
    let mut outs: Vec<Result<String, String>> = Vec::new();
    let ghost mut answers: Seq<Result<Vec<TranslateResponse>, AdapterError>> = Seq::empty();
    let mut b: usize = 0;
    while b < batches.len()
        invariant
            b <= batches.len(),
            answers.len() == b,
            res_views(outs@) == batches_outcomes(batches@.take(b as int), answers, mismatch_prefix@),
            call_ensures(A::provider_kind, (adapter,), provider),
            forall|k: int|
                0 <= k < b ==> #[trigger] batch_answered(
                    adapter,
                    label@,
                    infix@,
                    str_seq(texts@),
                    batches@[k],
                    (k + 1) as nat,
                    provider,
                    from_lang,
                    to_lang,
                    answers[k],
                ),
            lens.len() == texts.len(),
            forall|k: int| 0 <= k < batches@.len() ==> #[trigger] batches@[k].end <= texts.len(),
            forall|k: int| 0 <= k < batches@.len() ==> #[trigger] batches@[k].start < batches@[k].end,
            forall|k: int| 0 <= k < batches@.len() - 1 ==> #[trigger] batches@[k].end == batches@[k + 1].start,
            batches@.len() > 0 ==> batches@.last().end == texts.len(),
            batches@.len() == 0 ==> texts.len() == 0,
            b < batches.len() ==> outs.len() == batches@[b as int].start,
            b == batches.len() ==> outs.len() == texts.len(),
        decreases batches.len() - b,
    {
        let range: BatchRange = batches[b];
        let requests = build_batch_requests(
            label,
            infix,
            texts,
            range.start,
            range.end,
            b + 1,
            provider,
            from_lang,
            to_lang,
        );
        let sent = requests.as_slice();
        let res = adapter.translate_batch(sent);
        proof {
            assert(batch_answered(
                adapter,
                label@,
                infix@,
                str_seq(texts@),
                batches@[b as int],
                (b + 1) as nat,
                provider,
                from_lang,
                to_lang,
                res,
            ));
        }
        push_batch_outcomes(&mut outs, range.end - range.start, &res, mismatch_prefix);
        proof {
            assert(res_views(outs@).len() == outs@.len());
            let bs2 = batches@.take(b + 1);
            let an2 = answers.push(res);
            assert(bs2.drop_last() =~= batches@.take(b as int));
            assert(an2.drop_last() =~= answers);
            answers = an2;
        }
        b += 1;
    }
    proof {
        assert(batches@.take(batches@.len() as int) =~= batches@);
        assert(lens@ =~= char_counts(str_seq(texts@)));
        assert(batches_outcomes(batches@, answers, mismatch_prefix@) == res_views(outs@));
    }
    outs
}

/// An adapter that answers every request, without failing, with the text
/// `f` gives for the request's text.
pub open spec fn answers_by<A: TranslatorAdapter>(adapter: &A, f: spec_fn(Seq<char>) -> Seq<char>) -> bool {
    forall|req: TranslateRequest, r: Result<TranslateResponse, AdapterError>|
        #[trigger] call_ensures(A::translate_once, (adapter, &req), r) ==> (r matches Ok(resp)
            && resp.translated_text@ == f(req.text@))
}

proof fn lemma_batch_answered_by<A: TranslatorAdapter>(
    adapter: &A,
    label: Seq<char>,
    infix: Seq<char>,
    texts: Seq<Seq<char>>,
    range: BatchRange,
    batch_no: nat,
    provider: ProviderKind,
    from_lang: Lang,
    to_lang: Lang,
    answer: Result<Vec<TranslateResponse>, AdapterError>,
    f: spec_fn(Seq<char>) -> Seq<char>,
)
    requires
        batch_answered(adapter, label, infix, texts, range, batch_no, provider, from_lang, to_lang, answer),
        answers_by(adapter, f),
        range.start < range.end,
    ensures
        answer matches Ok(v) && v@.len() == range.end - range.start && forall|k: int|
            0 <= k < v@.len() ==> (#[trigger] v@[k]).translated_text@ == f(texts[range.start + k]),
{
    let s = choose|s: &[TranslateRequest]|
        #[trigger] call_ensures(A::translate_batch, (adapter, s), answer) && is_batch_requests(
            s@,
            label,
            infix,
            texts,
            range.start as int,
            range.end as int,
            batch_no,
            provider,
            from_lang,
            to_lang,
        );
    assert forall|i: int, e: AdapterError| 0 <= i < s@.len() implies !#[trigger] call_ensures(
        A::translate_once,
        (adapter, &s@[i]),
        Err::<TranslateResponse, AdapterError>(e),
    ) by {}
    match answer {
        Ok(v) => {
            assert forall|k: int| 0 <= k < v@.len() implies (#[trigger] v@[k]).translated_text@ == f(
                texts[range.start + k],
            ) by {
                assert(call_ensures(A::translate_once, (adapter, &s@[k]), Ok::<TranslateResponse, AdapterError>(v@[k])));
                assert(s@[k].text@ == texts[range.start + k]);
            }
        },
        Err(_) => {},
    }
}

proof fn lemma_outcomes_upto<A: TranslatorAdapter>(
    adapter: &A,
    label: Seq<char>,
    infix: Seq<char>,
    prefix: Seq<char>,
    texts: Seq<Seq<char>>,
    max_items: nat,
    max_chars: nat,
    from_lang: Lang,
    to_lang: Lang,
    bs: Seq<BatchRange>,
    answers: Seq<Result<Vec<TranslateResponse>, AdapterError>>,
    provider: ProviderKind,
    f: spec_fn(Seq<char>) -> Seq<char>,
    m: int,
)
    requires
        is_batching(bs, char_counts(texts), max_items, max_chars),
        answers.len() == bs.len(),
        forall|b: int|
            0 <= b < bs.len() ==> #[trigger] batch_answered(
                adapter,
                label,
                infix,
                texts,
                bs[b],
                (b + 1) as nat,
                provider,
                from_lang,
                to_lang,
                answers[b],
            ),
        answers_by(adapter, f),
        0 <= m <= bs.len(),
    ensures
        batches_outcomes(bs.take(m), answers.take(m), prefix) == Seq::new(
            if m == 0 {
                0
            } else {
                bs[m - 1].end as nat
            },
            |j: int| Ok::<Seq<char>, Seq<char>>(f(texts[j])),
        ),
    decreases m,
{
    if m == 0 {
        assert(batches_outcomes(bs.take(0), answers.take(0), prefix) =~= Seq::empty());
    } else {
        lemma_outcomes_upto(adapter, label, infix, prefix, texts, max_items, max_chars, from_lang, to_lang, bs, answers, provider, f, m - 1);
        let r = bs[m - 1];
        assert(r.start < r.end);
        lemma_batch_answered_by(
            adapter,
            label,
            infix,
            texts,
            r,
            m as nat,
            provider,
            from_lang,
            to_lang,
            answers[m - 1],
            f,
        );
        assert(bs.take(m).drop_last() =~= bs.take(m - 1));
        assert(answers.take(m).drop_last() =~= answers.take(m - 1));
        if m >= 2 {
            assert(bs[m - 2].end == bs[m - 1].start);
        } else {
            assert(r.start == 0);
        }
        assert(batches_outcomes(bs.take(m), answers.take(m), prefix) =~= Seq::new(
            r.end as nat,
            |j: int| Ok::<Seq<char>, Seq<char>>(f(texts[j])),
        ));
    }
}

/// Each text gets its own answer: whatever the batching, when the adapter
/// answers every request without failing by a function of its text, the
/// outcome of each text is that function of the text itself.
pub proof fn law_each_text_gets_its_own_answer<A: TranslatorAdapter>(
    adapter: &A,
    label: Seq<char>,
    infix: Seq<char>,
    prefix: Seq<char>,
    texts: Seq<Seq<char>>,
    max_items: nat,
    max_chars: nat,
    from_lang: Lang,
    to_lang: Lang,
    outs: Seq<Result<Seq<char>, Seq<char>>>,
    f: spec_fn(Seq<char>) -> Seq<char>,
)
    requires
        sent_in_batches(adapter, label, infix, prefix, texts, max_items, max_chars, from_lang, to_lang, outs),
        answers_by(adapter, f),
    ensures
        outs == Seq::new(texts.len(), |j: int| Ok::<Seq<char>, Seq<char>>(f(texts[j]))),
{
    let (bs, answers, provider) = choose|
        bs: Seq<BatchRange>,
        answers: Seq<Result<Vec<TranslateResponse>, AdapterError>>,
        provider: ProviderKind,
    |
        #![trigger batches_outcomes(bs, answers, prefix), call_ensures(A::provider_kind, (adapter,), provider)]
        {
            &&& is_batching(bs, char_counts(texts), max_items, max_chars)
            &&& answers.len() == bs.len()
            &&& call_ensures(A::provider_kind, (adapter,), provider)
            &&& forall|b: int|
                0 <= b < bs.len() ==> #[trigger] batch_answered(
                    adapter,
                    label,
                    infix,
                    texts,
                    bs[b],
                    (b + 1) as nat,
                    provider,
                    from_lang,
                    to_lang,
                    answers[b],
                )
            &&& outs == batches_outcomes(bs, answers, prefix)
        };
    lemma_outcomes_upto(adapter, label, infix, prefix, texts, max_items, max_chars, from_lang, to_lang, bs, answers, provider, f, bs.len() as int);
    assert(bs.take(bs.len() as int) =~= bs);
    assert(answers.take(bs.len() as int) =~= answers);
    assert(outs =~= Seq::new(texts.len(), |j: int| Ok::<Seq<char>, Seq<char>>(f(texts[j]))));
}

// ------------------------------------------------------------------
// Split method
// ------------------------------------------------------------------

/// A run is sent when it is a target run worth translating.
pub open spec fn sends<D: DirectionProfile>(seg: (Seq<char>, bool), d: D) -> bool {
    seg.1 && d.spec_should_translate_structure(spec_text_structure(seg.0))
}

/// Whether a run is sent: a target run that the direction translates.
pub fn should_translate_segment<D: DirectionProfile>(seg_target: bool, text: &str, direction: &D) -> (b: bool)
    ensures
        b == sends((text@, seg_target), *direction),
{
    seg_target && direction.should_translate_by_text(text)
}

/// The requests (protected text, token table) of a cell's runs, and whether
/// a run held all three tokens (then planning of the cell stops there).
pub open spec fn scan_reqs<D: DirectionProfile>(segs: Seq<(Seq<char>, bool)>, d: D) -> (
    Seq<(Seq<char>, usize)>,
    bool,
)
    decreases segs.len(),
{
    if segs.len() == 0 {
        (Seq::empty(), false)
    } else if sends(segs[0], d) {
        match spec_select_token_table(segs[0].0) {
            None => (Seq::empty(), true),
            Some(i) => {
                let r = scan_reqs(segs.drop_first(), d);
                (seq![(protect_seq(segs[0].0, i as int), i)] + r.0, r.1)
            },
        }
    } else {
        scan_reqs(segs.drop_first(), d)
    }
}

/// The runs of a cell's text once full-width spaces are plain.
pub open spec fn cell_runs(cell: LogicalCell) -> Seq<(Seq<char>, bool)> {
    split_views(spec_normalize_fullwidth_space(cell.source_text@))
}

pub open spec fn seg_cell_reqs<D: DirectionProfile>(
    cell: LogicalCell,
    pol: TranslationPolicyDecision,
    d: D,
) -> (Seq<(Seq<char>, usize)>, bool) {
    if pol.translate_candidates {
        scan_reqs(cell_runs(cell), d)
    } else {
        (Seq::empty(), false)
    }
}

/// All split-method requests, cell after cell.
pub open spec fn seg_all_reqs<D: DirectionProfile>(
    cells: Seq<LogicalCell>,
    pols: Seq<TranslationPolicyDecision>,
    d: D,
) -> Seq<(Seq<char>, usize)>
    decreases cells.len(),
{
    if cells.len() == 0 || pols.len() == 0 {
        Seq::empty()
    } else {
        seg_all_reqs(cells.drop_last(), pols.drop_last(), d) + seg_cell_reqs(
            cells.last(),
            pols.last(),
            d,
        ).0
    }
}

/// The text rebuilt from a cell's runs: a sent run becomes its answer with
/// line breaks restored, a kept run stays; the first failed answer fails
/// the cell.
pub open spec fn rebuild<D: DirectionProfile>(
    segs: Seq<(Seq<char>, bool)>,
    d: D,
    outs: Seq<Result<Seq<char>, Seq<char>>>,
    toks: Seq<usize>,
) -> Result<Seq<char>, Seq<char>>
    decreases segs.len(),
{
    if segs.len() == 0 {
        Ok(Seq::empty())
    } else if sends(segs[0], d) {
        match outs[0] {
            Err(e) => Err(e),
            Ok(t) => match rebuild(segs.drop_first(), d, outs.drop_first(), toks.drop_first()) {
                Ok(r) => Ok(restore_seq(t, toks[0] as int) + r),
                Err(e) => Err(e),
            },
        }
    } else {
        match rebuild(segs.drop_first(), d, outs, toks) {
            Ok(r) => Ok(segs[0].0 + r),
            Err(e) => Err(e),
        }
    }
}

/// What a run gives back when the provider echoes it: a sent run comes
/// back as itself with full-width spaces made plain, a kept run as it is.
pub open spec fn echoed_run<D: DirectionProfile>(seg: (Seq<char>, bool), d: D) -> Seq<char> {
    if sends(seg, d) {
        spec_normalize_fullwidth_space(seg.0)
    } else {
        seg.0
    }
}

/// A provider that answers each request with the very text it was sent
/// gives the runs back in order: every sent run returns with its line
/// breaks where they were, every kept run stays, and nothing is added,
/// dropped or moved.
pub proof fn law_echoed_runs_rebuild_the_text<D: DirectionProfile>(
    segs: Seq<(Seq<char>, bool)>,
    d: D,
    outs: Seq<Result<Seq<char>, Seq<char>>>,
    toks: Seq<usize>,
)
    requires
        !scan_reqs(segs, d).1,
        outs.len() == scan_reqs(segs, d).0.len(),
        toks.len() == scan_reqs(segs, d).0.len(),
        forall|k: int|
            0 <= k < outs.len() ==> #[trigger] outs[k] == Ok::<Seq<char>, Seq<char>>(scan_reqs(segs, d).0[k].0)
                && toks[k] == scan_reqs(segs, d).0[k].1,
    ensures
        rebuild(segs, d, outs, toks) == Ok::<Seq<char>, Seq<char>>(
            Seq::new(segs.len(), |k: int| echoed_run(segs[k], d)).flatten(),
        ),
    decreases segs.len(),
{
    let all = Seq::new(segs.len(), |k: int| echoed_run(segs[k], d));
    if segs.len() > 0 {
        let rest = segs.drop_first();
        let r = scan_reqs(rest, d);
        assert(all.drop_first() =~= Seq::new(rest.len(), |k: int| echoed_run(rest[k], d)));
        if sends(segs[0], d) {
            let i = spec_select_token_table(segs[0].0)->Some_0;
            assert(scan_reqs(segs, d).0 == seq![(protect_seq(segs[0].0, i as int), i)] + r.0);
            assert(!crate::text::contains_seq(segs[0].0, crate::core1::tokens::token(i as int)));
            crate::core1::tokens::law_restore_undoes_protect(segs[0].0, i as int);
            assert forall|k: int| 0 <= k < outs.drop_first().len() implies #[trigger] outs.drop_first()[k]
                == Ok::<Seq<char>, Seq<char>>(r.0[k].0) && toks.drop_first()[k] == r.0[k].1 by {
                assert(outs.drop_first()[k] == outs[k + 1]);
                assert(scan_reqs(segs, d).0[k + 1] == r.0[k]);
            }
            assert(outs[0] == Ok::<Seq<char>, Seq<char>>(scan_reqs(segs, d).0[0].0));
            law_echoed_runs_rebuild_the_text(rest, d, outs.drop_first(), toks.drop_first());
        } else {
            law_echoed_runs_rebuild_the_text(rest, d, outs, toks);
        }
    }
}

/// The final check of a candidate text: punctuation for the target
/// language, then the line-break leak check against the source.
pub open spec fn finish_text(source: Seq<char>, r: Seq<char>, to: Lang) -> Result<Seq<char>, Seq<char>> {
    let n = spec_normalize_punctuation(r, to);
    match spec_detect_token_leak(source, n) {
        Some(m) => Err(m),
        None => Ok(n),
    }
}

/// The split-method result of one cell, given the answers to its requests.
pub open spec fn seg_cell_result<D: DirectionProfile>(
    cell: LogicalCell,
    pol: TranslationPolicyDecision,
    d: D,
    to: Lang,
    outs: Seq<Result<Seq<char>, Seq<char>>>,
) -> Result<Seq<char>, Seq<char>> {
    let q = seg_cell_reqs(cell, pol, d);
    if !pol.translate_candidates {
        Ok(cell.source_text@)
    } else if q.1 {
        Err("SPECIAL_TOKEN_COLLISION"@)
    } else if q.0.len() == 0 {
        Ok(cell.source_text@)
    } else {
        match rebuild(cell_runs(cell), d, outs, Seq::new(q.0.len(), |k: int| q.0[k].1)) {
            Err(e) => Err(e),
            Ok(r) => finish_text(cell.source_text@, r, to),
        }
    }
}

pub open spec fn seg_offset<D: DirectionProfile>(
    cells: Seq<LogicalCell>,
    pols: Seq<TranslationPolicyDecision>,
    d: D,
    i: int,
) -> int {
    seg_all_reqs(cells.take(i), pols.take(i), d).len() as int
}

/// The split-method results of all cells, given the answers to all requests.
pub open spec fn spec_segment_results<D: DirectionProfile>(
    cells: Seq<LogicalCell>,
    pols: Seq<TranslationPolicyDecision>,
    d: D,
    to: Lang,
    outs: Seq<Result<Seq<char>, Seq<char>>>,
) -> Seq<Result<Seq<char>, Seq<char>>> {
    Seq::new(
        cells.len(),
        |i: int|
            seg_cell_result(
                cells[i],
                pols[i],
                d,
                to,
                outs.subrange(
                    seg_offset(cells, pols, d, i),
                    seg_offset(cells, pols, d, i) + seg_cell_reqs(cells[i], pols[i], d).0.len(),
                ),
            ),
    )
}



/// The texts sent by requests planned with a token table.
pub open spec fn req_texts(reqs: Seq<(Seq<char>, usize)>) -> Seq<Seq<char>> {
    Seq::new(reqs.len(), |k: int| reqs[k].0)
}

/// The texts sent by literal requests.
pub open spec fn opt_req_texts(reqs: Seq<(Seq<char>, Option<usize>)>) -> Seq<Seq<char>> {
    Seq::new(reqs.len(), |k: int| reqs[k].0)
}

pub open spec fn req_views(texts: Seq<String>, toks: Seq<usize>) -> Seq<(Seq<char>, usize)> {
    Seq::new(texts.len(), |i: int| (texts[i]@, toks[i]))
}

/// The runs of `text` with full-width spaces made plain, as segments.
fn cell_segments(cell: &LogicalCell) -> (r: Vec<crate::core1::types::Segment>)
    ensures
        seg_views(r@) == cell_runs(*cell),
        forall|k: int| 0 <= k < r@.len() ==> #[trigger] r@[k].text@.len() > 0,
{
    let norm = normalize_fullwidth_space(&chars_of(cell.source_text.as_str()));
    let norm_s = string_of(&norm);
    split_preserving_structure(norm_s.as_str())
}

/// Appends the split-method requests of one cell to `texts` / `toks` and
/// tells whether planning hit a token collision.
fn plan_seg_cell<D: DirectionProfile>(
    cell: &LogicalCell,
    pol: &TranslationPolicyDecision,
    direction: &D,
    texts: &mut Vec<String>,
    toks: &mut Vec<usize>,
) -> (collided: bool)
    requires
        old(texts).len() == old(toks).len(),
    ensures
        final(texts).len() == final(toks).len(),
        req_views(final(texts)@, final(toks)@) == req_views(old(texts)@, old(toks)@) + seg_cell_reqs(
            *cell,
            *pol,
            *direction,
        ).0,
        collided == seg_cell_reqs(*cell, *pol, *direction).1,
{
    let ghost t0 = req_views(texts@, toks@);
    if !pol.translate_candidates {
        proof {
            assert(req_views(texts@, toks@) =~= t0 + Seq::<(Seq<char>, usize)>::empty());
        }
        return false;
    }
    let segs = cell_segments(cell);
    let ghost runs = cell_runs(*cell);
    let ghost sv = seg_views(segs@);
    let mut k: usize = 0;
    while k < segs.len()
        invariant
            k <= segs.len(),
            sv == seg_views(segs@),
            sv == runs,
            runs == cell_runs(*cell),
            pol.translate_candidates,
            texts.len() == toks.len(),
            t0.len() <= texts.len(),
            t0.len() == old(texts).len(),
            t0 == req_views(old(texts)@, old(toks)@),
            ({
                let q = scan_reqs(runs.skip(k as int), *direction);
                let all = scan_reqs(runs, *direction);
                &&& req_views(texts@, toks@) + q.0 == t0 + all.0
                &&& q.1 == all.1
            }),
        decreases segs.len() - k,
    {
        let seg = &segs[k];
        let ghost rest = runs.skip(k as int);
        proof {
            assert(rest.drop_first() =~= runs.skip(k + 1));
            assert(rest[0] == (seg.text@, seg.target));
        }
        if should_translate_segment(seg.target, seg.text.as_str(), direction) {
            let sc = chars_of(seg.text.as_str());
            match select_token_table(&sc) {
                None => {
                    proof {
                        assert(req_views(texts@, toks@) + Seq::<(Seq<char>, usize)>::empty() =~= req_views(texts@, toks@));
                    }
                    return true;
                },
                Some(idx) => {
                    let ghost before = req_views(texts@, toks@);
                    let p = protect_with(&sc, idx);
                    texts.push(string_of(&p));
                    toks.push(idx);
                    proof {
                        assert(req_views(texts@, toks@) =~= before.push((protect_seq(sc@, idx as int), idx)));
                    }
                },
            }
        }
        k += 1;
    }
    proof {
        assert(runs.skip(segs@.len() as int) =~= Seq::<(Seq<char>, bool)>::empty());
        assert(req_views(texts@, toks@) + Seq::<(Seq<char>, usize)>::empty() =~= req_views(texts@, toks@));
    }
    false
}

/// Assembles one cell's split-method result from the answers
/// `outs[start..start + count]`.
fn assemble_seg_cell<D: DirectionProfile>(
    cell: &LogicalCell,
    pol: &TranslationPolicyDecision,
    direction: &D,
    to_lang: Lang,
    outs: &Vec<Result<String, String>>,
    start: usize,
    count: usize,
) -> (r: Result<String, String>)
    requires
        pol.translate_candidates,
        !seg_cell_reqs(*cell, *pol, *direction).1,
        count == seg_cell_reqs(*cell, *pol, *direction).0.len(),
        count > 0,
        start + count <= outs.len(),
    ensures
        res_view(r) == seg_cell_result(
            *cell,
            *pol,
            *direction,
            to_lang,
            res_views(outs@).subrange(start as int, start + count),
        ),
{
    let segs = cell_segments(cell);
    let ghost runs = cell_runs(*cell);
    let ghost q = seg_cell_reqs(*cell, *pol, *direction);
    let ghost o = res_views(outs@).subrange(start as int, start + count);
    let ghost toks = Seq::new(q.0.len(), |k: int| q.0[k].1);
    let ghost whole = rebuild(runs, *direction, o, toks);
    let mut out: Vec<char> = Vec::new();
    let mut p: usize = 0;
    let mut k: usize = 0;
    while k < segs.len()
        invariant
            k <= segs.len(),
            seg_views(segs@) == runs,
            runs == cell_runs(*cell),
            q == seg_cell_reqs(*cell, *pol, *direction),
            pol.translate_candidates,
            !q.1,
            q.0.len() == count,
            p <= count,
            start + count <= outs.len(),
            o == res_views(outs@).subrange(start as int, start + count),
            toks == Seq::new(q.0.len(), |j: int| q.0[j].1),
            whole == rebuild(runs, *direction, o, toks),
            scan_reqs(runs.skip(k as int), *direction).0 == q.0.skip(p as int),
            !scan_reqs(runs.skip(k as int), *direction).1,
            whole == prepend(out@, rebuild(runs.skip(k as int), *direction, o.skip(p as int), toks.skip(p as int))),
        decreases segs.len() - k,
    {
        let seg = &segs[k];
        let ghost rest = runs.skip(k as int);
        proof {
            assert(rest.drop_first() =~= runs.skip(k + 1));
            assert(rest[0] == (seg.text@, seg.target));
        }
        if should_translate_segment(seg.target, seg.text.as_str(), direction) {
            let sc = chars_of(seg.text.as_str());
            let idx_opt = select_token_table(&sc);
            proof {
                assert(idx_opt is Some);
                assert(q.0.skip(p as int).len() > 0);
                assert(p < count);
                assert(q.0.skip(p as int)[0] == q.0[p as int]);
                assert(o.skip(p as int).drop_first() =~= o.skip(p + 1));
                assert(toks.skip(p as int).drop_first() =~= toks.skip(p + 1));
                assert(q.0.skip(p as int).drop_first() =~= q.0.skip(p + 1));
                assert(o.skip(p as int)[0] == o[p as int]);
                assert(o[p as int] == res_view(outs@[start + p]));
                assert(toks.skip(p as int)[0] == q.0[p as int].1);
            }
            let idx = match idx_opt {
                Some(i) => i,
                None => 0,
            };
            match &outs[start + p] {
                Err(e) => {
                    return Err(e.clone());
                },
                Ok(t) => {
                    let ghost before = out@;
                    let restored = restore_with(&chars_of(t.as_str()), idx);
                    push_all(&mut out, &restored);
                    proof {
                        let x = restore_seq(t@, idx as int);
                        assert(out@ =~= before + x);
                        let rr = rebuild(runs.skip(k + 1), *direction, o.skip(p + 1), toks.skip(p + 1));
                        assert(rebuild(rest, *direction, o.skip(p as int), toks.skip(p as int)) == match rr {
                            Ok(r) => Ok(x + r),
                            Err(e) => Err(e),
                        });
                        match rr {
                            Ok(r) => {
                                assert(before + (x + r) =~= out@ + r);
                            },
                            Err(e) => {},
                        }
                    }
                },
            }
            p += 1;
        } else {
            let ghost before = out@;
            push_all(&mut out, &chars_of(seg.text.as_str()));
            proof {
                let x = seg.text@;
                let rr = rebuild(runs.skip(k + 1), *direction, o.skip(p as int), toks.skip(p as int));
                assert(rebuild(rest, *direction, o.skip(p as int), toks.skip(p as int)) == match rr {
                    Ok(r) => Ok(x + r),
                    Err(e) => Err(e),
                });
                match rr {
                    Ok(r) => {
                        assert(before + (x + r) =~= out@ + r);
                    },
                    Err(e) => {},
                }
            }
        }
        k += 1;
    }
    proof {
        assert(runs.skip(segs@.len() as int) =~= Seq::<(Seq<char>, bool)>::empty());
        assert(q.0.skip(p as int).len() == 0);
        assert(out@ + Seq::<char>::empty() =~= out@);
    }
    let normalized = normalize_punctuation_for_target(&out, to_lang);
    match detect_token_leak(&chars_of(cell.source_text.as_str()), &normalized) {
        Some(m) => Err(m),
        None => Ok(string_of(&normalized)),
    }
}

/// Split-method candidates of all cells: each cell's translatable runs are
/// protected, sent in batches, restored and put back between the kept runs.
pub fn translate_segments_for_cells<A: TranslatorAdapter, D: DirectionProfile>(
    label: &str,
    logical_cells: &[LogicalCell],
    policies: &[TranslationPolicyDecision],
    adapter: &A,
    batch_max_items: usize,
    batch_max_chars: usize,
    from_lang: Lang,
    to_lang: Lang,
    direction: &D,
) -> (results: Vec<Result<String, String>>)
    requires
        logical_cells@.len() == policies@.len(),
    ensures
        results.len() == logical_cells@.len(),
        exists|o: Seq<Result<Seq<char>, Seq<char>>>|
            #[trigger] sent_in_batches(
                adapter,
                label@,
                "-"@,
                "segment"@,
                req_texts(seg_all_reqs(logical_cells@, policies@, *direction)),
                batch_max_items as nat,
                batch_max_chars as nat,
                from_lang,
                to_lang,
                o,
            ) && o.len() == seg_all_reqs(logical_cells@, policies@, *direction).len() && res_views(results@)
                == spec_segment_results(logical_cells@, policies@, *direction, to_lang, o),
{
    let ghost cells = logical_cells@;
    let ghost pols = policies@;
    let ghost d = *direction;
    let mut texts: Vec<String> = Vec::new();
    let mut toks: Vec<usize> = Vec::new();
    let mut starts: Vec<usize> = Vec::new();
    let mut counts: Vec<usize> = Vec::new();
    let mut collided: Vec<bool> = Vec::new();
    let mut i: usize = 0;
    while i < logical_cells.len()
        invariant
            i <= cells.len(),
            cells == logical_cells@,
            pols == policies@,
            d == *direction,
            cells.len() == pols.len(),
            texts.len() == toks.len(),
            starts.len() == i,
            counts.len() == i,
            collided.len() == i,
            req_views(texts@, toks@) == seg_all_reqs(cells.take(i as int), pols.take(i as int), d),
            forall|j: int| 0 <= j < i ==> #[trigger] starts@[j] == seg_offset(cells, pols, d, j),
            forall|j: int| 0 <= j < i ==> #[trigger] counts@[j] == seg_cell_reqs(cells[j], pols[j], d).0.len(),
            forall|j: int| 0 <= j < i ==> #[trigger] collided@[j] == seg_cell_reqs(cells[j], pols[j], d).1,
            forall|j: int| 0 <= j < i ==> #[trigger] starts@[j] + counts@[j] <= texts.len(),
        decreases cells.len() - i,
    {
        let start = texts.len();
        proof {
            assert(cells.take(i + 1).drop_last() =~= cells.take(i as int));
            assert(pols.take(i + 1).drop_last() =~= pols.take(i as int));
            assert(cells.take(i + 1).last() == cells[i as int]);
            assert(pols.take(i + 1).last() == pols[i as int]);
            assert(req_views(texts@, toks@).len() == texts.len());
        }
        let c = plan_seg_cell(&logical_cells[i], &policies[i], direction, &mut texts, &mut toks);
        proof {
            assert(req_views(texts@, toks@).len() == texts.len());
        }
        starts.push(start);
        counts.push(texts.len() - start);
        collided.push(c);
        i += 1;
    }
    let outs = run_batches(
        adapter,
        label,
        "-",
        "segment",
        &texts,
        batch_max_items,
        batch_max_chars,
        from_lang,
        to_lang,
    );
    let ghost o = res_views(outs@);
    proof {
        assert(cells.take(cells.len() as int) =~= cells);
        assert(pols.take(pols.len() as int) =~= pols);
        assert(req_views(texts@, toks@).len() == texts.len());
    }
    let mut results: Vec<Result<String, String>> = Vec::new();
    let mut j: usize = 0;
    while j < logical_cells.len()
        invariant
            j <= cells.len(),
            cells == logical_cells@,
            pols == policies@,
            d == *direction,
            cells.len() == pols.len(),
            starts.len() == cells.len(),
            counts.len() == cells.len(),
            collided.len() == cells.len(),
            outs.len() == texts.len(),
            o == res_views(outs@),
            forall|x: int| 0 <= x < cells.len() ==> #[trigger] starts@[x] == seg_offset(cells, pols, d, x),
            forall|x: int| 0 <= x < cells.len() ==> #[trigger] counts@[x] == seg_cell_reqs(cells[x], pols[x], d).0.len(),
            forall|x: int| 0 <= x < cells.len() ==> #[trigger] collided@[x] == seg_cell_reqs(cells[x], pols[x], d).1,
            forall|x: int| 0 <= x < cells.len() ==> #[trigger] starts@[x] + counts@[x] <= texts.len(),
            res_views(results@) == spec_segment_results(cells, pols, d, to_lang, o).take(j as int),
        decreases cells.len() - j,
    {
        let cell = &logical_cells[j];
        let pol = &policies[j];
        let ghost before = res_views(results@);
        let r = if !pol.translate_candidates {
            Ok(cell.source_text.clone())
        } else if collided[j] {
            Err("SPECIAL_TOKEN_COLLISION".to_owned())
        } else if counts[j] == 0 {
            Ok(cell.source_text.clone())
        } else {
            assemble_seg_cell(cell, pol, direction, to_lang, &outs, starts[j], counts[j])
        };
        results.push(r);
        proof {
            let full = spec_segment_results(cells, pols, d, to_lang, o);
            assert(full[j as int] == res_view(r));
            assert(res_views(results@) =~= before.push(res_view(r)));
            assert(full.take(j + 1) =~= full.take(j as int).push(full[j as int]));
        }
        j += 1;
    }
    proof {
        let full = spec_segment_results(cells, pols, d, to_lang, o);
        assert(full.take(cells.len() as int) =~= full);
        assert(o.len() == seg_all_reqs(cells, pols, d).len());
        assert(str_seq(texts@) =~= req_texts(seg_all_reqs(cells, pols, d)));
        assert(sent_in_batches(
            adapter,
            label@,
            "-"@,
            "segment"@,
            req_texts(seg_all_reqs(cells, pols, d)),
            batch_max_items as nat,
            batch_max_chars as nat,
            from_lang,
            to_lang,
            o,
        ));
    }
    results
}


// ------------------------------------------------------------------
// Whole method
// ------------------------------------------------------------------

/// What a whole-cell answer becomes: line breaks restored (with the "NL"
/// rescue when some are missing), stray token brackets removed, target
/// punctuation applied, then the leak check against the source.
pub open spec fn spec_finish_whole(source: Seq<char>, t: Seq<char>, idx: usize, to: Lang) -> Result<Seq<char>, Seq<char>> {
    let r1 = restore_seq(t, idx as int);
    let r2 = spec_rescue_restore_nl(r1, source);
    let r3 = spec_strip_brackets(r2);
    finish_text(source, r3, to)
}

/// The whole-cell request of a non-formula cell, if it gets one.
pub open spec fn whole_cell_reqs(cell: LogicalCell, pol: TranslationPolicyDecision) -> Seq<(Seq<char>, usize)> {
    if pol.translate_candidates && !is_formula_cell_kind(cell.cell_kind) {
        match spec_select_token_table(cell.source_text@) {
            Some(i) => seq![(protect_seq(cell.source_text@, i as int), i)],
            None => Seq::empty(),
        }
    } else {
        Seq::empty()
    }
}

pub open spec fn whole_all_reqs(cells: Seq<LogicalCell>, pols: Seq<TranslationPolicyDecision>) -> Seq<(Seq<char>, usize)>
    decreases cells.len(),
{
    if cells.len() == 0 || pols.len() == 0 {
        Seq::empty()
    } else {
        whole_all_reqs(cells.drop_last(), pols.drop_last()) + whole_cell_reqs(cells.last(), pols.last())
    }
}

/// How literal `lit` is sent: protected when a token table is free.
pub open spec fn lit_req(lit: Seq<char>) -> (Seq<char>, Option<usize>) {
    match spec_select_token_table(lit) {
        Some(i) => (protect_seq(lit, i as int), Some(i)),
        None => (lit, None),
    }
}

/// The literal requests of a formula cell that gets candidates.
pub open spec fn lit_cell_reqs(cell: LogicalCell, pol: TranslationPolicyDecision) -> Seq<(Seq<char>, Option<usize>)> {
    if pol.translate_candidates && is_formula_cell_kind(cell.cell_kind) {
        let lits = spec_extract(cell.source_text@, 0, 0).1;
        Seq::new(lits.len(), |k: int| lit_req(lits[k]))
    } else {
        Seq::empty()
    }
}

pub open spec fn lit_all_reqs(cells: Seq<LogicalCell>, pols: Seq<TranslationPolicyDecision>) -> Seq<(Seq<char>, Option<usize>)>
    decreases cells.len(),
{
    if cells.len() == 0 || pols.len() == 0 {
        Seq::empty()
    } else {
        lit_all_reqs(cells.drop_last(), pols.drop_last()) + lit_cell_reqs(cells.last(), pols.last())
    }
}

/// The literal put back into the formula: the answer (restored when it was
/// protected and nothing leaked), or the original literal.
pub open spec fn lit_value(lit: Seq<char>, out: Result<Seq<char>, Seq<char>>) -> Seq<char> {
    match out {
        Err(_) => lit,
        Ok(t) => match spec_select_token_table(lit) {
            None => t,
            Some(i) => {
                let r = restore_seq(t, i as int);
                if spec_detect_token_leak(lit, r) is None {
                    r
                } else {
                    lit
                }
            },
        },
    }
}

/// The whole-method result of one cell, given the answers to its whole-cell
/// request `wo` and to its literal requests `lo`.
pub open spec fn whole_cell_result(
    cell: LogicalCell,
    pol: TranslationPolicyDecision,
    to: Lang,
    wo: Seq<Result<Seq<char>, Seq<char>>>,
    lo: Seq<Result<Seq<char>, Seq<char>>>,
) -> Result<Seq<char>, Seq<char>> {
    let src = cell.source_text@;
    if !pol.translate_candidates {
        Ok(src)
    } else if is_formula_cell_kind(cell.cell_kind) {
        let ex = spec_extract(src, 0, 0);
        if ex.1.len() == 0 {
            Ok(src)
        } else {
            Ok(spec_reassemble(ex.0, 0, Seq::new(ex.1.len(), |k: int| lit_value(ex.1[k], lo[k]))))
        }
    } else {
        match spec_select_token_table(src) {
            None => Err("SPECIAL_TOKEN_COLLISION"@),
            Some(i) => match wo[0] {
                Err(m) => Err(m),
                Ok(t) => spec_finish_whole(src, t, i, to),
            },
        }
    }
}

pub open spec fn spec_whole_results(
    cells: Seq<LogicalCell>,
    pols: Seq<TranslationPolicyDecision>,
    to: Lang,
    wo: Seq<Result<Seq<char>, Seq<char>>>,
    lo: Seq<Result<Seq<char>, Seq<char>>>,
) -> Seq<Result<Seq<char>, Seq<char>>> {
    Seq::new(
        cells.len(),
        |i: int| {
            let woff = whole_all_reqs(cells.take(i), pols.take(i)).len() as int;
            let loff = lit_all_reqs(cells.take(i), pols.take(i)).len() as int;
            whole_cell_result(
                cells[i],
                pols[i],
                to,
                wo.subrange(woff, woff + whole_cell_reqs(cells[i], pols[i]).len()),
                lo.subrange(loff, loff + lit_cell_reqs(cells[i], pols[i]).len()),
            )
        },
    )
}

pub open spec fn opt_req_views(texts: Seq<String>, toks: Seq<Option<usize>>) -> Seq<(Seq<char>, Option<usize>)> {
    Seq::new(texts.len(), |i: int| (texts[i]@, toks[i]))
}

fn finish_whole(source: &Vec<char>, t: &Vec<char>, idx: usize, to_lang: Lang) -> (r: Result<String, String>)
    requires
        idx < 3,
    ensures
        res_view(r) == spec_finish_whole(source@, t@, idx, to_lang),
{
    let r1 = restore_with(t, idx);
    let r2 = rescue_restore_nl(&r1, source);
    let r3 = strip_residual_token_brackets(&r2);
    let r4 = normalize_punctuation_for_target(&r3, to_lang);
    match detect_token_leak(source, &r4) {
        Some(m) => Err(m),
        None => Ok(string_of(&r4)),
    }
}

fn lit_value_exec(lit: &String, out: &Result<String, String>) -> (r: String)
    ensures
        r@ == lit_value(lit@, res_view(*out)),
{
    match out {
        Err(_) => lit.clone(),
        Ok(t) => {
            let lc = chars_of(lit.as_str());
            match select_token_table(&lc) {
                None => t.clone(),
                Some(i) => {
                    let r = restore_with(&chars_of(t.as_str()), i);
                    match detect_token_leak(&lc, &r) {
                        None => string_of(&r),
                        Some(_) => lit.clone(),
                    }
                },
            }
        },
    }
}

/// Appends the whole-method and literal requests of one cell.
fn plan_whole_cell(
    cell: &LogicalCell,
    pol: &TranslationPolicyDecision,
    wtexts: &mut Vec<String>,
    wtoks: &mut Vec<usize>,
    ltexts: &mut Vec<String>,
    ltoks: &mut Vec<Option<usize>>,
)
    requires
        old(wtexts).len() == old(wtoks).len(),
        old(ltexts).len() == old(ltoks).len(),
    ensures
        final(wtexts).len() == final(wtoks).len(),
        final(ltexts).len() == final(ltoks).len(),
        req_views(final(wtexts)@, final(wtoks)@) == req_views(old(wtexts)@, old(wtoks)@) + whole_cell_reqs(*cell, *pol),
        opt_req_views(final(ltexts)@, final(ltoks)@) == opt_req_views(old(ltexts)@, old(ltoks)@) + lit_cell_reqs(*cell, *pol),
{
    let ghost w0 = req_views(wtexts@, wtoks@);
    let ghost l0 = opt_req_views(ltexts@, ltoks@);
    proof {
        assert(w0 + Seq::<(Seq<char>, usize)>::empty() =~= w0);
        assert(l0 + Seq::<(Seq<char>, Option<usize>)>::empty() =~= l0);
    }
    if !pol.translate_candidates {
        return;
    }
    let src = chars_of(cell.source_text.as_str());
    if !crate::core1::analyzer::is_formula_cell_exec(cell) {
        match select_token_table(&src) {
            None => {},
            Some(idx) => {
                let p = protect_with(&src, idx);
                wtexts.push(string_of(&p));
                wtoks.push(idx);
                proof {
                    assert(req_views(wtexts@, wtoks@) =~= w0 + seq![(protect_seq(src@, idx as int), idx)]);
                }
            },
        }
        return;
    }
    let (_template, lits) = extract_quoted_literals(cell.source_text.as_str());
    let ghost lv = str_views(lits@);
    let mut k: usize = 0;
    while k < lits.len()
        invariant
            k <= lits.len(),
            lv == str_views(lits@),
            ltexts.len() == ltoks.len(),
            l0 == opt_req_views(old(ltexts)@, old(ltoks)@),
            opt_req_views(ltexts@, ltoks@) == l0 + Seq::new(k as nat, |j: int| lit_req(lv[j])),
        decreases lits.len() - k,
    {
        let lc = chars_of(lits[k].as_str());
        let ghost before = opt_req_views(ltexts@, ltoks@);
        match select_token_table(&lc) {
            Some(i) => {
                let p = protect_with(&lc, i);
                ltexts.push(string_of(&p));
                ltoks.push(Some(i));
            },
            None => {
                ltexts.push(lits[k].clone());
                ltoks.push(None);
            },
        }
        proof {
            assert(opt_req_views(ltexts@, ltoks@) =~= before.push(lit_req(lv[k as int])));
            assert(Seq::new((k + 1) as nat, |j: int| lit_req(lv[j])) =~= Seq::new(k as nat, |j: int| lit_req(lv[j])).push(lit_req(lv[k as int])));
        }
        k += 1;
    }
    proof {
        assert(Seq::new(lits@.len() as nat, |j: int| lit_req(lv[j])) =~= lit_cell_reqs(*cell, *pol));
    }
}

/// Assembles one cell's whole-method result.
fn assemble_whole_cell(
    cell: &LogicalCell,
    pol: &TranslationPolicyDecision,
    to_lang: Lang,
    wouts: &Vec<Result<String, String>>,
    wstart: usize,
    louts: &Vec<Result<String, String>>,
    lstart: usize,
) -> (r: Result<String, String>)
    requires
        wstart + whole_cell_reqs(*cell, *pol).len() <= wouts.len(),
        lstart + lit_cell_reqs(*cell, *pol).len() <= louts.len(),
    ensures
        res_view(r) == whole_cell_result(
            *cell,
            *pol,
            to_lang,
            res_views(wouts@).subrange(wstart as int, wstart + whole_cell_reqs(*cell, *pol).len()),
            res_views(louts@).subrange(lstart as int, lstart + lit_cell_reqs(*cell, *pol).len()),
        ),
{
    let ghost wo = res_views(wouts@).subrange(wstart as int, wstart + whole_cell_reqs(*cell, *pol).len());
    let ghost lo = res_views(louts@).subrange(lstart as int, lstart + lit_cell_reqs(*cell, *pol).len());
    if !pol.translate_candidates {
        return Ok(cell.source_text.clone());
    }
    let src = chars_of(cell.source_text.as_str());
    if crate::core1::analyzer::is_formula_cell_exec(cell) {
        let (template, lits) = extract_quoted_literals(cell.source_text.as_str());
        if lits.len() == 0 {
            return Ok(cell.source_text.clone());
        }
        let ghost lv = str_views(lits@);
        let mut values: Vec<String> = Vec::new();
        let mut k: usize = 0;
        while k < lits.len()
            invariant
                k <= lits.len(),
                lv == str_views(lits@),
                lv.len() == lit_cell_reqs(*cell, *pol).len(),
                lstart + lv.len() <= louts.len(),
                lo == res_views(louts@).subrange(lstart as int, lstart + lit_cell_reqs(*cell, *pol).len()),
                str_views(values@) == Seq::new(k as nat, |j: int| lit_value(lv[j], lo[j])),
            decreases lits.len() - k,
        {
            let v = lit_value_exec(&lits[k], &louts[lstart + k]);
            let ghost before = str_views(values@);
            values.push(v);
            proof {
                assert(lo[k as int] == res_view(louts@[lstart + k]));
                assert(str_views(values@) =~= before.push(lit_value(lv[k as int], lo[k as int])));
                assert(Seq::new((k + 1) as nat, |j: int| lit_value(lv[j], lo[j])) =~= Seq::new(k as nat, |j: int| lit_value(lv[j], lo[j])).push(lit_value(lv[k as int], lo[k as int])));
            }
            k += 1;
        }
        return Ok(reassemble_formula(template.as_str(), values.as_slice()));
    }
    match select_token_table(&src) {
        None => Err("SPECIAL_TOKEN_COLLISION".to_owned()),
        Some(idx) => {
            proof {
                assert(wo[0] == res_view(wouts@[wstart as int]));
            }
            match &wouts[wstart] {
                Err(m) => Err(m.clone()),
                Ok(t) => finish_whole(&src, &chars_of(t.as_str()), idx, to_lang),
            }
        },
    }
}

/// `wo` and `lo` are what sending the whole-cell requests and then the
/// literal requests of the cells to `adapter` gives.
pub open spec fn whole_sent<A: TranslatorAdapter>(
    adapter: &A,
    label: Seq<char>,
    cells: Seq<LogicalCell>,
    pols: Seq<TranslationPolicyDecision>,
    max_items: nat,
    max_chars: nat,
    from_lang: Lang,
    to_lang: Lang,
    wo: Seq<Result<Seq<char>, Seq<char>>>,
    lo: Seq<Result<Seq<char>, Seq<char>>>,
) -> bool {
    &&& sent_in_batches(
        adapter,
        label,
        "-"@,
        "whole"@,
        req_texts(whole_all_reqs(cells, pols)),
        max_items,
        max_chars,
        from_lang,
        to_lang,
        wo,
    )
    &&& sent_in_batches(
        adapter,
        label,
        "-lit-"@,
        "literal"@,
        opt_req_texts(lit_all_reqs(cells, pols)),
        max_items,
        max_chars,
        from_lang,
        to_lang,
        lo,
    )
}

/// Whole-method candidates of all cells: a text cell is sent whole (its
/// line breaks protected); a formula cell sends only its string literals
/// and is rebuilt from the translated ones.
pub fn translate_whole_for_cells<A: TranslatorAdapter>(
    label: &str,
    logical_cells: &[LogicalCell],
    policies: &[TranslationPolicyDecision],
    adapter: &A,
    batch_max_items: usize,
    batch_max_chars: usize,
    from_lang: Lang,
    to_lang: Lang,
) -> (results: Vec<Result<String, String>>)
    requires
        logical_cells@.len() == policies@.len(),
    ensures
        results.len() == logical_cells@.len(),
        exists|wo: Seq<Result<Seq<char>, Seq<char>>>, lo: Seq<Result<Seq<char>, Seq<char>>>|
            #[trigger] whole_sent(
                adapter,
                label@,
                logical_cells@,
                policies@,
                batch_max_items as nat,
                batch_max_chars as nat,
                from_lang,
                to_lang,
                wo,
                lo,
            ) && wo.len() == whole_all_reqs(logical_cells@, policies@).len() && lo.len() == lit_all_reqs(
                logical_cells@,
                policies@,
            ).len() && res_views(results@) == spec_whole_results(logical_cells@, policies@, to_lang, wo, lo),
{
    let ghost cells = logical_cells@;
    let ghost pols = policies@;
    let mut wtexts: Vec<String> = Vec::new();
    let mut wtoks: Vec<usize> = Vec::new();
    let mut ltexts: Vec<String> = Vec::new();
    let mut ltoks: Vec<Option<usize>> = Vec::new();
    let mut wstarts: Vec<usize> = Vec::new();
    let mut lstarts: Vec<usize> = Vec::new();
    let mut i: usize = 0;
    while i < logical_cells.len()
        invariant
            i <= cells.len(),
            cells == logical_cells@,
            pols == policies@,
            cells.len() == pols.len(),
            wtexts.len() == wtoks.len(),
            ltexts.len() == ltoks.len(),
            wstarts.len() == i,
            lstarts.len() == i,
            req_views(wtexts@, wtoks@) == whole_all_reqs(cells.take(i as int), pols.take(i as int)),
            opt_req_views(ltexts@, ltoks@) == lit_all_reqs(cells.take(i as int), pols.take(i as int)),
            forall|x: int| 0 <= x < i ==> #[trigger] wstarts@[x] == whole_all_reqs(cells.take(x), pols.take(x)).len(),
            forall|x: int| 0 <= x < i ==> #[trigger] lstarts@[x] == lit_all_reqs(cells.take(x), pols.take(x)).len(),
            forall|x: int| 0 <= x < i ==> #[trigger] wstarts@[x] + whole_cell_reqs(cells[x], pols[x]).len() <= wtexts.len(),
            forall|x: int| 0 <= x < i ==> #[trigger] lstarts@[x] + lit_cell_reqs(cells[x], pols[x]).len() <= ltexts.len(),
        decreases cells.len() - i,
    {
        proof {
            assert(cells.take(i + 1).drop_last() =~= cells.take(i as int));
            assert(pols.take(i + 1).drop_last() =~= pols.take(i as int));
            assert(cells.take(i + 1).last() == cells[i as int]);
            assert(pols.take(i + 1).last() == pols[i as int]);
            assert(req_views(wtexts@, wtoks@).len() == wtexts.len());
            assert(opt_req_views(ltexts@, ltoks@).len() == ltexts.len());
        }
        wstarts.push(wtexts.len());
        lstarts.push(ltexts.len());
        plan_whole_cell(&logical_cells[i], &policies[i], &mut wtexts, &mut wtoks, &mut ltexts, &mut ltoks);
        proof {
            assert(req_views(wtexts@, wtoks@).len() == wtexts.len());
            assert(opt_req_views(ltexts@, ltoks@).len() == ltexts.len());
        }
        i += 1;
    }
    let wouts = run_batches(adapter, label, "-", "whole", &wtexts, batch_max_items, batch_max_chars, from_lang, to_lang);
    let louts = run_batches(adapter, label, "-lit-", "literal", &ltexts, batch_max_items, batch_max_chars, from_lang, to_lang);
    let ghost wo = res_views(wouts@);
    let ghost lo = res_views(louts@);
    proof {
        assert(cells.take(cells.len() as int) =~= cells);
        assert(pols.take(pols.len() as int) =~= pols);
        assert(req_views(wtexts@, wtoks@).len() == wtexts.len());
        assert(opt_req_views(ltexts@, ltoks@).len() == ltexts.len());
    }
    let mut results: Vec<Result<String, String>> = Vec::new();
    let mut j: usize = 0;
    while j < logical_cells.len()
        invariant
            j <= cells.len(),
            cells == logical_cells@,
            pols == policies@,
            cells.len() == pols.len(),
            wstarts.len() == cells.len(),
            lstarts.len() == cells.len(),
            wouts.len() == wtexts.len(),
            louts.len() == ltexts.len(),
            wo == res_views(wouts@),
            lo == res_views(louts@),
            forall|x: int| 0 <= x < cells.len() ==> #[trigger] wstarts@[x] == whole_all_reqs(cells.take(x), pols.take(x)).len(),
            forall|x: int| 0 <= x < cells.len() ==> #[trigger] lstarts@[x] == lit_all_reqs(cells.take(x), pols.take(x)).len(),
            forall|x: int| 0 <= x < cells.len() ==> #[trigger] wstarts@[x] + whole_cell_reqs(cells[x], pols[x]).len() <= wtexts.len(),
            forall|x: int| 0 <= x < cells.len() ==> #[trigger] lstarts@[x] + lit_cell_reqs(cells[x], pols[x]).len() <= ltexts.len(),
            res_views(results@) == spec_whole_results(cells, pols, to_lang, wo, lo).take(j as int),
        decreases cells.len() - j,
    {
        let ghost before = res_views(results@);
        let r = assemble_whole_cell(&logical_cells[j], &policies[j], to_lang, &wouts, wstarts[j], &louts, lstarts[j]);
        results.push(r);
        proof {
            let full = spec_whole_results(cells, pols, to_lang, wo, lo);
            assert(full[j as int] == res_view(r));
            assert(res_views(results@) =~= before.push(res_view(r)));
            assert(full.take(j + 1) =~= full.take(j as int).push(full[j as int]));
        }
        j += 1;
    }
    proof {
        let full = spec_whole_results(cells, pols, to_lang, wo, lo);
        assert(full.take(cells.len() as int) =~= full);
        assert(str_seq(wtexts@) =~= req_texts(whole_all_reqs(cells, pols)));
        assert(str_seq(ltexts@) =~= opt_req_texts(lit_all_reqs(cells, pols)));
        assert(whole_sent(
            adapter,
            label@,
            cells,
            pols,
            batch_max_items as nat,
            batch_max_chars as nat,
            from_lang,
            to_lang,
            wo,
            lo,
        ));
    }
    results
}

} // verus!
