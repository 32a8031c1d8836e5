//! The public query service: four stateless read operations over one
//! snapshot. Every operation is a pure function of the snapshot it is
//! handed, so repeated invocation against the same snapshot yields
//! identical output.

use vstd::prelude::*;
use crate::address::derive_spec;
use crate::envelope::{ModelInfo, compose, compose_post};
use crate::schema::{Snapshot, model_lookup};
use crate::scores::{encode_scores, scores_enc};
use crate::types::{ApiError, Model};

verus! {

/// Query parameters for the model endpoints.
#[derive(Debug, Clone, Copy, PartialEq, Eq, Structural)]
pub struct ModelQuery {
    /// Version of the queried model.
    pub version: u32,
}

/// Public service API description.
#[derive(Debug, Clone, Copy)]
pub struct PublicApi;

/// What `model_info` returns: `NotFound` exactly when no key is
/// registered for the version; otherwise whatever the composer owes
/// for the derived address.
pub open spec fn model_info_post(s: Snapshot, version: u32, r: Result<ModelInfo, ApiError>) -> bool {
    match derive_spec(s.registry.entries@, version) {
        None => r == Err::<ModelInfo, ApiError>(ApiError::NotFound),
        Some(addr) => compose_post(s, addr, r),
    }
}

/// What `get_model` returns: the stored model exactly when the version
/// has a registered key and a model sits at the derived address, and
/// `NotFound` otherwise.
pub open spec fn get_model_post(s: Snapshot, version: u32, r: Result<Model, ApiError>) -> bool {
    match derive_spec(s.registry.entries@, version) {
        None => r == Err::<Model, ApiError>(ApiError::NotFound),
        Some(addr) => match model_lookup(s.models@, addr) {
            None => r == Err::<Model, ApiError>(ApiError::NotFound),
            Some(m) => r matches Ok(got) && got@ == m@,
        },
    }
}

/// The latest-version value: one less than the model count, and the
/// sentinel `-1` on an empty registry. A contractual value, not an
/// error.
pub open spec fn latest_model_spec(s: Snapshot) -> int {
    if s.models@.len() == 0 {
        -1
    } else {
        s.models@.len() - 1
    }
}

impl PublicApi {
    /// Endpoint for getting a single model with its full verifiable
    /// envelope: fails `NotFound` when no key is registered for the
    /// version; otherwise succeeds, with an exclusion proof and no
    /// history when the model is absent.
    pub fn model_info(snapshot: &Snapshot, query: ModelQuery) -> (r: Result<ModelInfo, ApiError>)
        ensures
            model_info_post(*snapshot, query.version, r),
    {
        let addr = match snapshot.registry.derive(query.version) {
            Ok(a) => a,
            Err(e) => {
                return Err(e);
            },
        };
        compose(snapshot, &addr)
    }

    /// Endpoint for reading the raw model value without any proof, for
    /// trusted callers: fails `NotFound` when the version has no
    /// registered key or no model sits at the derived address.
    pub fn get_model(snapshot: &Snapshot, query: ModelQuery) -> (r: Result<Model, ApiError>)
        ensures
            get_model_post(*snapshot, query.version, r),
    {
        let addr = match snapshot.registry.derive(query.version) {
            Ok(a) => a,
            Err(e) => {
                return Err(e);
            },
        };
        match snapshot.model_at(&addr) {
            Some(m) => Ok(m),
            None => Err(ApiError::NotFound),
        }
    }

    /// Endpoint for the latest model version: the model count less
    /// one, and `-1` in case of the absence of models.
    pub fn latest_model(snapshot: &Snapshot) -> (r: Result<i32, ApiError>)
        requires
            snapshot.wf(),
        ensures
            r matches Ok(v) && v == latest_model_spec(*snapshot),
    {
        let count = snapshot.model_count();
        Ok((count as i32) - 1)
    }

    /// Endpoint for the trainer score ledger, encoded as an ordered
    /// object from lowercase-hex identity to score string; renders as
    /// `{}` when the ledger is empty.
    pub fn get_trainers_scores(snapshot: &Snapshot) -> (r: Result<String, ApiError>)
        ensures
            r matches Ok(out) && out@ == scores_enc(snapshot.scores@),
    {
        Ok(encode_scores(snapshot.score_ledger()))
    }
}

/// Decimal digits between `0` and `9`.
pub open spec fn is_dec_digit(b: u8) -> bool {
    48 <= b <= 57
}

/// Holds when every byte is a decimal digit.
pub open spec fn all_dec_digits(s: Seq<u8>) -> bool {
    forall|i: int| 0 <= i < s.len() ==> is_dec_digit(#[trigger] s[i])
}

/// The numeric value of a decimal digit string, most significant
/// digit first.
pub open spec fn dec_value(s: Seq<u8>) -> int
    decreases s.len(),
{
    if s.len() == 0 {
        0
    } else {
        dec_value(s.drop_last()) * 10 + (s.last() - 48)
    }
}

/// A digit string's value is never negative.
proof fn lemma_dec_value_nonneg(s: Seq<u8>)
    requires
        all_dec_digits(s),
    ensures
        dec_value(s) >= 0,
    decreases s.len(),
{
    if s.len() > 0 {
        assert(forall|i: int|
            0 <= i < s.drop_last().len() ==> is_dec_digit(#[trigger] s.drop_last()[i]));
        lemma_dec_value_nonneg(s.drop_last());
    }
}

/// A digit string's value is at least the value of any of its
/// prefixes.
proof fn lemma_dec_value_mono(s: Seq<u8>, k: int)
    requires
        all_dec_digits(s),
        0 <= k <= s.len(),
    ensures
        0 <= dec_value(s.take(k)) <= dec_value(s),
    decreases s.len() - k,
{
    assert(forall|i: int| 0 <= i < s.take(k).len() ==> is_dec_digit(#[trigger] s.take(k)[i]));
    lemma_dec_value_nonneg(s.take(k));
    if k == s.len() {
        assert(s.take(k) =~= s);
    } else {
        lemma_dec_value_mono(s, k + 1);
        assert(s.take(k + 1).drop_last() =~= s.take(k));
        assert(s.take(k + 1).last() == s[k]);
        assert(dec_value(s.take(k + 1)) == dec_value(s.take(k)) * 10 + (s[k] - 48));
    }
}

/// What `parse_version` returns: the numeric value exactly when the
/// input is a non-empty string of decimal digits whose value fits the
/// version type, and `Malformed` otherwise.
pub open spec fn parse_version_post(s: Seq<u8>, r: Result<u32, ApiError>) -> bool {
    match r {
        Ok(v) => s.len() > 0 && all_dec_digits(s) && v == dec_value(s),
        Err(e) => {
            &&& e == ApiError::Malformed
            &&& (s.len() == 0 || !all_dec_digits(s) || dec_value(s) > u32::MAX)
        },
    }
}

/// Parses a version parameter from its decimal digits; a non-numeric
/// or out-of-range parameter is rejected as `Malformed`.
pub fn parse_version(digits: &[u8]) -> (r: Result<u32, ApiError>)
    ensures
        parse_version_post(digits@, r),
{
    if digits.len() == 0 {
        return Err(ApiError::Malformed);
    }
    let mut value: u32 = 0;
    let mut i: usize = 0;
    while i < digits.len()
        invariant
            0 < digits@.len(),
            i <= digits@.len(),
            all_dec_digits(digits@.take(i as int)),
            value == dec_value(digits@.take(i as int)),
        decreases digits@.len() - i,
    {
        let b = digits[i];
        if b < 48 || b > 57 {
            proof {
                assert(!is_dec_digit(digits@[i as int]));
            }
            return Err(ApiError::Malformed);
        }
        let d = (b - 48) as u32;
        proof {
            assert(digits@.take(i + 1).drop_last() =~= digits@.take(i as int));
            assert(digits@.take(i + 1).last() == digits@[i as int]);
            assert forall|j: int| 0 <= j < i + 1 implies is_dec_digit(
                #[trigger] digits@.take(i + 1)[j],
            ) by {
                if j < i {
                    assert(digits@.take(i + 1)[j] == digits@.take(i as int)[j]);
                }
            }
        }
        // The version type carries values up to 4294967295; one more
        // digit overflows exactly above 429496729, or at it with a
        // final digit above 5.
        if value > 429496729 || (value == 429496729 && d > 5) {
            proof {
                assert(dec_value(digits@.take(i + 1)) > u32::MAX);
                if all_dec_digits(digits@) {
                    lemma_dec_value_mono(digits@, i + 1);
                    assert(dec_value(digits@) > u32::MAX);
                }
            }
            return Err(ApiError::Malformed);
        }
        value = value * 10 + d;
        i += 1;
    }
    proof {
        assert(digits@.take(digits@.len() as int) =~= digits@);
    }
    Ok(value)
}

} // verus!
