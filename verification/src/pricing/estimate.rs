//! The billing estimate of a job: the metered price (by cells or by
//! characters, whichever is higher, in steps of 10 yen) with a minimum
//! price, and what each provider is planned to be sent.
use vstd::prelude::*;

use crate::adapters::types::{spec_provider_label, ProviderKind};
use crate::decimal::dec;
use crate::text::{chars_of, push_all, string_of};

verus! {

pub const MINIMUM_PRICE_YEN: u32 = 300;

/// What one candidate's provider is planned to be sent.
#[derive(Debug, Clone)]
pub struct ProviderEstimate {
    pub provider: String,
    pub candidate_no: u8,
    pub request_count: usize,
    pub sent_chars: usize,
}

/// What the estimate is made from.
#[derive(Debug, Clone)]
pub struct EstimateInput {
    pub mode: String,
    pub selected_sheets: Vec<String>,
    pub logical_cells: usize,
    pub translatable_cells: usize,
    pub candidate_units: usize,
    pub candidate1_provider: Option<ProviderKind>,
    pub candidate1_requests: usize,
    pub candidate1_chars: usize,
    pub candidate2_provider: Option<ProviderKind>,
    pub candidate2_requests: usize,
    pub candidate2_chars: usize,
    pub candidate3_provider: Option<ProviderKind>,
    pub candidate3_requests: usize,
    pub candidate3_chars: usize,
}

/// The prices of a job in yen.
#[derive(Debug, Clone)]
pub struct BillingPrices {
    pub planned_requests: usize,
    pub planned_sent_chars: usize,
    pub cell_based_price_yen: u32,
    pub char_based_price_yen: u32,
    pub metered_price_yen: u32,
    pub minimum_price_yen: u32,
    pub billing_price_yen: u32,
    pub minimum_applied: bool,
    pub message: String,
}

/// A price in whole yen rounded down to a multiple of 10.
pub open spec fn spec_floor_10(yen: nat) -> nat {
    (yen / 10) * 10
}

pub fn floor_to_10_yen(yen: u32) -> (r: u32)
    ensures
        r == spec_floor_10(yen as nat),
        r <= yen,
        r % 10 == 0,
{
    (yen / 10) * 10
}

pub open spec fn minimum_message(metered: nat, billing: nat) -> Seq<char> {
    "現在の翻訳対象の従量計算額は"@ + dec(metered) + "円です。最低料金は"@ + dec(300) + "円となるため、現在は"@
        + dec(billing) + "円でのご請求となります。翻訳対象を追加しても、従量計算額が"@ + dec(300)
        + "円以内であれば請求額は変わりません。このまま進めますか？ Y=続ける / N=翻訳対象を再検討する"@
}

pub open spec fn metered_message(metered: nat, billing: nat) -> Seq<char> {
    "現在の翻訳対象の従量計算額は"@ + dec(metered) + "円です。今回の請求確定額は"@ + dec(billing)
        + "円です。このまま進めますか？ Y=続ける / N=翻訳対象を再検討する"@
}

/// The totals of an input fit in a `usize`.
pub open spec fn totals_fit(input: EstimateInput) -> bool {
    &&& input.candidate1_requests + input.candidate2_requests + input.candidate3_requests <= usize::MAX
    &&& input.candidate1_chars + input.candidate2_chars + input.candidate3_chars <= usize::MAX
}

/// The prices of a job, given the cell-based and character-based amounts
/// in whole yen (before rounding to 10 yen): the metered price is the
/// higher one, and the price billed is at least the minimum.
pub fn billing_prices(input: &EstimateInput, cell_based_yen: u32, char_based_yen: u32) -> (p: BillingPrices)
    requires
        totals_fit(*input),
    ensures
        p.planned_requests == input.candidate1_requests + input.candidate2_requests + input.candidate3_requests,
        p.planned_sent_chars == input.candidate1_chars + input.candidate2_chars + input.candidate3_chars,
        p.cell_based_price_yen == spec_floor_10(cell_based_yen as nat),
        p.char_based_price_yen == spec_floor_10(char_based_yen as nat),
        p.metered_price_yen == if p.cell_based_price_yen >= p.char_based_price_yen {
            p.cell_based_price_yen
        } else {
            p.char_based_price_yen
        },
        p.minimum_price_yen == MINIMUM_PRICE_YEN,
        p.minimum_applied == (p.metered_price_yen < MINIMUM_PRICE_YEN),
        p.billing_price_yen == if p.minimum_applied {
            MINIMUM_PRICE_YEN
        } else {
            p.metered_price_yen
        },
        p.billing_price_yen >= MINIMUM_PRICE_YEN,
        p.billing_price_yen >= p.metered_price_yen,
        p.message@ == if p.minimum_applied {
            minimum_message(p.metered_price_yen as nat, p.billing_price_yen as nat)
        } else {
            metered_message(p.metered_price_yen as nat, p.billing_price_yen as nat)
        },
{
    let planned_requests = input.candidate1_requests + input.candidate2_requests + input.candidate3_requests;
    let planned_sent_chars = input.candidate1_chars + input.candidate2_chars + input.candidate3_chars;
    let cell_based_price_yen = floor_to_10_yen(cell_based_yen);
    let char_based_price_yen = floor_to_10_yen(char_based_yen);
    let metered_price_yen = if cell_based_price_yen >= char_based_price_yen {
        cell_based_price_yen
    } else {
        char_based_price_yen
    };
    let minimum_applied = metered_price_yen < MINIMUM_PRICE_YEN;
    let billing_price_yen = if minimum_applied {
        MINIMUM_PRICE_YEN
    } else {
        metered_price_yen
    };
    let mut m = chars_of("現在の翻訳対象の従量計算額は");
    push_all(&mut m, &crate::decimal::dec_chars_u64(metered_price_yen as u64));
    if minimum_applied {
        push_all(&mut m, &chars_of("円です。最低料金は"));
        push_all(&mut m, &crate::decimal::dec_chars_u64(MINIMUM_PRICE_YEN as u64));
        push_all(&mut m, &chars_of("円となるため、現在は"));
        push_all(&mut m, &crate::decimal::dec_chars_u64(billing_price_yen as u64));
        push_all(&mut m, &chars_of("円でのご請求となります。翻訳対象を追加しても、従量計算額が"));
        push_all(&mut m, &crate::decimal::dec_chars_u64(MINIMUM_PRICE_YEN as u64));
        push_all(&mut m, &chars_of("円以内であれば請求額は変わりません。このまま進めますか？ Y=続ける / N=翻訳対象を再検討する"));
    } else {
        push_all(&mut m, &chars_of("円です。今回の請求確定額は"));
        push_all(&mut m, &crate::decimal::dec_chars_u64(billing_price_yen as u64));
        push_all(&mut m, &chars_of("円です。このまま進めますか？ Y=続ける / N=翻訳対象を再検討する"));
    }
    BillingPrices {
        planned_requests,
        planned_sent_chars,
        cell_based_price_yen,
        char_based_price_yen,
        metered_price_yen,
        minimum_price_yen: MINIMUM_PRICE_YEN,
        billing_price_yen,
        minimum_applied,
        message: string_of(&m),
    }
}

pub open spec fn estimate_of(p: Option<ProviderKind>, no: u8, requests: usize, chars: usize) -> Seq<
    (Seq<char>, u8, usize, usize),
> {
    match p {
        Some(k) => seq![(spec_provider_label(k), no, requests, chars)],
        None => Seq::empty(),
    }
}

pub open spec fn estimate_views(v: Seq<ProviderEstimate>) -> Seq<(Seq<char>, u8, usize, usize)> {
    Seq::new(v.len(), |i: int| (v[i].provider@, v[i].candidate_no, v[i].request_count, v[i].sent_chars))
}

fn push_estimate(out: &mut Vec<ProviderEstimate>, p: Option<ProviderKind>, no: u8, requests: usize, chars: usize)
    ensures
        estimate_views(final(out)@) == estimate_views(old(out)@) + estimate_of(p, no, requests, chars),
{
    let ghost before = estimate_views(out@);
    if let Some(k) = p {
        out.push(
            ProviderEstimate {
                provider: string_of(&chars_of(k.as_label())),
                candidate_no: no,
                request_count: requests,
                sent_chars: chars,
            },
        );
        proof {
            assert(estimate_views(out@) =~= before + estimate_of(p, no, requests, chars));
        }
    } else {
        proof {
            assert(estimate_views(out@) =~= before + estimate_of(p, no, requests, chars));
        }
    }
}

/// One estimate per candidate that has a provider, in candidate order.
pub fn provider_estimates(input: &EstimateInput) -> (r: Vec<ProviderEstimate>)
    ensures
        estimate_views(r@) == estimate_of(input.candidate1_provider, 1, input.candidate1_requests, input.candidate1_chars)
            + estimate_of(input.candidate2_provider, 2, input.candidate2_requests, input.candidate2_chars)
            + estimate_of(input.candidate3_provider, 3, input.candidate3_requests, input.candidate3_chars),
{
    let mut out: Vec<ProviderEstimate> = Vec::new();
    proof {
        assert(estimate_views(out@) =~= Seq::<(Seq<char>, u8, usize, usize)>::empty());
    }
    push_estimate(&mut out, input.candidate1_provider, 1, input.candidate1_requests, input.candidate1_chars);
    push_estimate(&mut out, input.candidate2_provider, 2, input.candidate2_requests, input.candidate2_chars);
    push_estimate(&mut out, input.candidate3_provider, 3, input.candidate3_requests, input.candidate3_chars);
    proof {
        assert(Seq::<(Seq<char>, u8, usize, usize)>::empty() + estimate_of(
            input.candidate1_provider,
            1,
            input.candidate1_requests,
            input.candidate1_chars,
        ) =~= estimate_of(input.candidate1_provider, 1, input.candidate1_requests, input.candidate1_chars));
    }
    out
}

} // verus!
