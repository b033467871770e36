//! Grouping of translation requests into provider batches, bounded by a
//! number of items and a number of characters.
use vstd::prelude::*;

verus! {

#[derive(Debug, Clone, Copy, PartialEq, Eq, Structural)]
pub enum FlushReason {
    BatchLimit,
    CharLimit,
    EndOfInput,
}

impl FlushReason {
    pub fn as_label(self) -> (r: &'static str)
        ensures
            r@ == (match self {
                FlushReason::BatchLimit => "batch_limit"@,
                FlushReason::CharLimit => "char_limit"@,
                FlushReason::EndOfInput => "end_of_input"@,
            }),
    {
        match self {
            FlushReason::BatchLimit => "batch_limit",
            FlushReason::CharLimit => "char_limit",
            FlushReason::EndOfInput => "end_of_input",
        }
    }
}

/// Requests `start..end` form one batch, flushed for `reason`.
#[derive(Debug, Clone, Copy)]
pub struct BatchRange {
    pub start: usize,
    pub end: usize,
    pub reason: FlushReason,
}

/// A request counts as at least one character.
pub open spec fn weight(lens: Seq<usize>, i: int) -> nat {
    if lens[i] == 0 {
        1
    } else {
        lens[i] as nat
    }
}

/// Total weight of requests `a..b`.
pub open spec fn wsum(lens: Seq<usize>, a: int, b: int) -> nat
    decreases b - a,
{
    if a >= b {
        0
    } else {
        wsum(lens, a, b - 1) + weight(lens, b - 1)
    }
}

/// `out` is the greedy batching of requests with character counts `lens`:
/// consecutive ranges covering every request in order; a batch holds a single
/// request or stays within both limits; a batch is closed only when the next
/// request would break a limit (the item limit is reported first); the last
/// batch ends the input.
pub open spec fn is_batching(out: Seq<BatchRange>, lens: Seq<usize>, max_items: nat, max_chars: nat) -> bool {
    let n = lens.len();
    &&& (out.len() == 0 <==> n == 0)
    &&& out.len() > 0 ==> out[0].start == 0 && out.last().end == n && out.last().reason
        == FlushReason::EndOfInput
    &&& forall|k: int| 0 <= k < out.len() ==> #[trigger] out[k].start < out[k].end
    &&& forall|k: int| 0 <= k < out.len() - 1 ==> #[trigger] out[k].end == out[k + 1].start
    &&& forall|k: int|
        0 <= k < out.len() ==> (#[trigger] out[k].end - out[k].start == 1 || (out[k].end
            - out[k].start <= max_items && wsum(lens, out[k].start as int, out[k].end as int)
            <= max_chars))
    &&& forall|k: int|
        0 <= k < out.len() - 1 ==> {
            let size = out[k].end - out[k].start;
            let c = wsum(lens, out[k].start as int, out[k].end as int);
            &&& (size + 1 > max_items || c + weight(lens, out[k].end as int) > max_chars)
            &&& #[trigger] out[k].reason == if size + 1 > max_items {
                FlushReason::BatchLimit
            } else {
                FlushReason::CharLimit
            }
        }
}

/// Greedy batching of requests with the given character counts.
pub fn build_batches(lens: &Vec<usize>, batch_max_items: usize, batch_max_chars: usize) -> (out: Vec<BatchRange>)
    ensures
        is_batching(out@, lens@, batch_max_items as nat, batch_max_chars as nat),
{
    let mut out: Vec<BatchRange> = Vec::new();
    let mut start: usize = 0;
    let mut count: usize = 0;
    let mut chars: usize = 0;
    let mut idx: usize = 0;
    let ghost l = lens@;
    let ghost mi = batch_max_items as nat;
    let ghost mc = batch_max_chars as nat;
    while idx < lens.len()
        invariant
            l == lens@,
            mi == batch_max_items as nat,
            mc == batch_max_chars as nat,
            idx <= lens.len(),
            start + count == idx,
            chars == wsum(l, start as int, idx as int),
            count == 1 || (count <= mi && chars <= mc),
            out@.len() == 0 ==> start == 0,
            out@.len() > 0 ==> out@.last().end == start && count > 0,
            idx > 0 ==> count > 0,
            forall|k: int| 0 <= k < out@.len() ==> #[trigger] out@[k].start < out@[k].end,
            forall|k: int| 0 <= k < out@.len() - 1 ==> #[trigger] out@[k].end == out@[k + 1].start,
            out@.len() > 0 ==> out@[0].start == 0,
            forall|k: int|
                0 <= k < out@.len() ==> (#[trigger] out@[k].end - out@[k].start == 1 || (out@[k].end
                    - out@[k].start <= mi && wsum(l, out@[k].start as int, out@[k].end as int)
                    <= mc)),
            forall|k: int|
                0 <= k < out@.len() ==> {
                    let size = out@[k].end - out@[k].start;
                    let c = wsum(l, out@[k].start as int, out@[k].end as int);
                    &&& (size + 1 > mi || c + weight(l, out@[k].end as int) > mc)
                    &&& #[trigger] out@[k].reason == if size + 1 > mi {
                        FlushReason::BatchLimit
                    } else {
                        FlushReason::CharLimit
                    }
                },
        decreases lens.len() - idx,
    {
        let text_chars = if lens[idx] == 0 { 1 } else { lens[idx] };
        let would_exceed_items = count > 0 && count + 1 > batch_max_items;
        let would_exceed_chars = count > 0 && (chars > batch_max_chars || text_chars
            > batch_max_chars - chars);
        if would_exceed_items || would_exceed_chars {
            let reason = if would_exceed_items {
                FlushReason::BatchLimit
            } else {
                FlushReason::CharLimit
            };
            out.push(BatchRange { start, end: idx, reason });
            start = idx;
            count = 0;
            chars = 0;
        }
        proof {
            assert(wsum(l, start as int, idx + 1) == wsum(l, start as int, idx as int) + weight(l, idx as int));
        }
        count += 1;
        chars += text_chars;
        idx += 1;
    }
    if count > 0 {
        out.push(BatchRange { start, end: lens.len(), reason: FlushReason::EndOfInput });
    }
    out
}


/// The batches lie inside `0..n`, in order.
pub proof fn lemma_batching_bounds(out: Seq<BatchRange>, lens: Seq<usize>, mi: nat, mc: nat)
    requires
        is_batching(out, lens, mi, mc),
    ensures
        forall|k: int| 0 <= k < out.len() ==> #[trigger] out[k].end <= lens.len(),
        forall|k: int| 0 <= k < out.len() ==> #[trigger] out[k].start < out[k].end,
        forall|k: int| 0 <= k < out.len() - 1 ==> #[trigger] out[k].end == out[k + 1].start,
        out.len() > 0 ==> out[0].start == 0 && out.last().end == lens.len(),
        out.len() == 0 ==> lens.len() == 0,
{
    assert forall|k: int| 0 <= k < out.len() implies #[trigger] out[k].end <= lens.len() by {
        lemma_end_bound(out, lens, mi, mc, k);
    }
}

proof fn lemma_end_bound(out: Seq<BatchRange>, lens: Seq<usize>, mi: nat, mc: nat, k: int)
    requires
        is_batching(out, lens, mi, mc),
        0 <= k < out.len(),
    ensures
        out[k].end <= lens.len(),
    decreases out.len() - k,
{
    if k < out.len() - 1 {
        lemma_end_bound(out, lens, mi, mc, k + 1);
        assert(out[k].end == out[k + 1].start);
        assert(out[k + 1].start < out[k + 1].end);
    }
}

} // verus!
