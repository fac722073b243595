//! Error taxonomy of the validation pipeline.

use vstd::prelude::*;

verus! {

/// A failure surfaced to the caller of the pipeline. Transport failures
/// carry the underlying error rendered as text by the caller that performed
/// the network call.
#[derive(Debug)]
pub enum AppError {
    /// Transport failure talking to the deck-list source.
    MoxfieldApiError(String),
    /// Transport failure talking to the card-oracle-text provider.
    ScryfallApiError(String),
    /// Transport failure talking to the combo-discovery provider.
    SpellbookApiError(String),
    /// A required external setting was absent before any network call.
    EnvVarMissing(String),
    /// Persistence or serialization failure downstream of validation.
    Internal(String),
}

impl Clone for AppError {
    fn clone(&self) -> (res: Self)
        ensures
            res == self,
    {
        match self {
            AppError::MoxfieldApiError(s) => AppError::MoxfieldApiError(s.clone()),
            AppError::ScryfallApiError(s) => AppError::ScryfallApiError(s.clone()),
            AppError::SpellbookApiError(s) => AppError::SpellbookApiError(s.clone()),
            AppError::EnvVarMissing(s) => AppError::EnvVarMissing(s.clone()),
            AppError::Internal(s) => AppError::Internal(s.clone()),
        }
    }
}

/// The first error in a sequence of per-task outcomes, if any: the pipeline
/// reports a single descriptive failure, the first one encountered.
pub open spec fn first_error<T>(s: Seq<Result<T, AppError>>) -> Option<AppError>
    decreases s.len(),
{
    if s.len() == 0 {
        None
    } else {
        match s[0] {
            Result::Err(e) => Some(e),
            Result::Ok(_) => first_error(s.drop_first()),
        }
    }
}

/// Skipping a prefix of successes does not change the first error.
pub proof fn lemma_first_error_skip<T>(s: Seq<Result<T, AppError>>, k: int)
    requires
        0 <= k <= s.len(),
        forall|j: int| 0 <= j < k ==> s[j] is Ok,
    ensures
        first_error(s) == first_error(s.skip(k)),
    decreases k,
{
    if k > 0 {
        lemma_first_error_skip(s.drop_first(), k - 1);
        assert(s.drop_first().skip(k - 1) =~= s.skip(k));
    } else {
        assert(s.skip(0) =~= s);
    }
}

/// The first error of a concatenation: the left side's, if it has one, else
/// the right side's.
pub proof fn lemma_first_error_concat<T>(a: Seq<Result<T, AppError>>, b: Seq<Result<T, AppError>>)
    ensures
        first_error(a + b) == if first_error(a) is Some {
            first_error(a)
        } else {
            first_error(b)
        },
    decreases a.len(),
{
    if a.len() == 0 {
        assert(a + b =~= b);
    } else {
        lemma_first_error_concat(a.drop_first(), b);
        assert((a + b).drop_first() =~= a.drop_first() + b);
        assert((a + b)[0] == a[0]);
    }
}

} // verus!
