//! The interface every translation provider implements.
use vstd::prelude::*;

use crate::adapters::types::{AdapterError, ProviderKind, TranslateRequest, TranslateResponse};

verus! {

/// A translation provider. What a provider answers is its own business, and
/// callers check the answers. A batch that succeeds answers each request, in
/// order, with one response that `translate_once` could give for it; a
/// batch of requests none of which `translate_once` can fail on succeeds.
pub trait TranslatorAdapter {
    fn provider_kind(&self) -> ProviderKind;

    fn translate_once(&self, request: &TranslateRequest) -> Result<TranslateResponse, AdapterError>;

    /// Translates the requests one by one, stopping at the first error.
    fn translate_batch(&self, requests: &[TranslateRequest]) -> (r: Result<Vec<TranslateResponse>, AdapterError>)
        ensures
            r matches Ok(v) ==> v@.len() == requests@.len() && forall|i: int|
                0 <= i < requests@.len() ==> call_ensures(
                    Self::translate_once,
                    (self, &requests@[i]),
                    Ok::<TranslateResponse, AdapterError>(#[trigger] v@[i]),
                ),
            requests@.len() > 0 && (forall|i: int, e: AdapterError|
                0 <= i < requests@.len() ==> !#[trigger] call_ensures(
                    Self::translate_once,
                    (self, &requests@[i]),
                    Err::<TranslateResponse, AdapterError>(e),
                )) ==> r is Ok,
    {
        let mut out = Vec::new();
        let mut i: usize = 0;
        while i < requests.len()
            invariant
                i <= requests.len(),
                out@.len() == i,
                forall|j: int|
                    0 <= j < i ==> call_ensures(
                        Self::translate_once,
                        (self, &requests@[j]),
                        Ok::<TranslateResponse, AdapterError>(#[trigger] out@[j]),
                    ),
            decreases requests.len() - i,
        {
            let r = self.translate_once(&requests[i])?;
            out.push(r);
            i += 1;
        }
        Ok(out)
    }
}

} // verus!
