//! The general laws of the query service, proved once and for all
//! snapshots from the contracts the operations publish.

use vstd::prelude::*;
use crate::address::derive_spec;
use crate::api::{get_model_post, latest_model_spec, model_info_post};
use crate::envelope::{
    ModelInfo, entry_proof_verifies, envelope_of, history_ok, range_proof_verifies,
    table_proof_verifies,
};
use crate::schema::{Snapshot, history_lookup, model_lookup, tx_lookup};
use crate::scores::scores_enc;
use crate::types::{ApiError, Model};

verus! {

/// Every model the raw read returns sits exactly at the address
/// derived for the queried version: a registered key and a stored
/// model exist, and the returned value is that model's.
pub proof fn lemma_got_model_sits_at_derived_address(
    s: Snapshot,
    version: u32,
    r: Result<Model, ApiError>,
)
    requires
        get_model_post(s, version, r),
        r is Ok,
    ensures
        derive_spec(s.registry.entries@, version) matches Some(addr) && (model_lookup(
            s.models@,
            addr,
        ) matches Some(m) && (r matches Ok(got) && got@ == m@)),
{
    match derive_spec(s.registry.entries@, version) {
        Some(addr) => {
            match model_lookup(s.models@, addr) {
                Some(_) => {
                },
                None => {
                    assert(false);
                },
            }
        },
        None => {
            assert(false);
        },
    }
}

/// A registered version whose model is absent yields a successful
/// envelope whose entry proof is an exclusion proof, verifies against
/// the table root chained from the block proof carried in the same
/// envelope, and carries no history.
pub proof fn lemma_absent_model_yields_exclusion(
    s: Snapshot,
    version: u32,
    r: Result<ModelInfo, ApiError>,
)
    requires
        model_info_post(s, version, r),
        derive_spec(s.registry.entries@, version) matches Some(addr) && model_lookup(
            s.models@,
            addr,
        ) is None,
    ensures
        derive_spec(s.registry.entries@, version) matches Some(addr) && (r matches Ok(info) && (
        {
            &&& info@.model_history is None
            &&& info@.model_proof.to_model.model is None
            &&& table_proof_verifies(info@.model_proof.to_table, info@.block_proof.state_hash)
            &&& entry_proof_verifies(
                info@.model_proof.to_model,
                info@.model_proof.to_table.table_root,
                addr,
            )
        })),
{
    match derive_spec(s.registry.entries@, version) {
        Some(addr) => {
            assert(history_ok(s, addr));
            match r {
                Ok(info) => {
                    assert(info@ == envelope_of(s, addr));
                },
                Err(_) => {
                    assert(false);
                },
            }
        },
        None => {
            assert(false);
        },
    }
}

/// For an existing model the envelope carries a history: its range
/// proof verifies against the committed root of that model's own log,
/// its hash sequence is exactly the committed one, and the returned
/// transactions correspond to the hashes one to one, in the same
/// order.
pub proof fn lemma_history_matches_committed_log(
    s: Snapshot,
    version: u32,
    r: Result<ModelInfo, ApiError>,
)
    requires
        model_info_post(s, version, r),
        derive_spec(s.registry.entries@, version) matches Some(addr) && (model_lookup(
            s.models@,
            addr,
        ) is Some && history_ok(s, addr)),
    ensures
        derive_spec(s.registry.entries@, version) matches Some(addr) && (r matches Ok(info) && (
        history_lookup(s.histories@, addr) matches Some(log) && (info@.model_history
            matches Some(h) && {
            &&& range_proof_verifies(h.proof, log.root@)
            &&& h.proof.hashes == log@.tx_hashes
            &&& h.transactions.len() == h.proof.hashes.len()
            &&& forall|j: int|
                0 <= j < h.proof.hashes.len() ==> (tx_lookup(
                    s.tx_index@,
                    #[trigger] h.proof.hashes[j],
                ) matches Some(t) && h.transactions[j] == t.payload@)
        }))),
{
    match derive_spec(s.registry.entries@, version) {
        Some(addr) => {
            match r {
                Ok(info) => {
                    assert(info@ == envelope_of(s, addr));
                    match history_lookup(s.histories@, addr) {
                        Some(log) => {
                            let h = envelope_of(s, addr).model_history.unwrap();
                            assert(log@.tx_hashes.len() == log.tx_hashes@.len());
                            assert forall|j: int| 0 <= j < h.proof.hashes.len() implies (tx_lookup(
                                s.tx_index@,
                                #[trigger] h.proof.hashes[j],
                            ) matches Some(t) && h.transactions[j] == t.payload@) by {
                                assert(h.proof.hashes[j] == log@.tx_hashes[j]);
                                assert(log@.tx_hashes[j] == log.tx_hashes@[j]@);
                            }
                        },
                        None => {
                            assert(false);
                        },
                    }
                },
                Err(_) => {
                    assert(false);
                },
            }
        },
        None => {
            assert(false);
        },
    }
}

/// The latest-version value is the model count less one, `-1` on an
/// empty registry; adding one model to the registry advances it by
/// exactly one, from `-1` to `0` for the first model.
pub proof fn lemma_latest_model_after_insert(s1: Snapshot, s2: Snapshot)
    requires
        s2.models@.len() == s1.models@.len() + 1,
    ensures
        latest_model_spec(s2) == latest_model_spec(s1) + 1,
        s1.models@.len() == 0 ==> latest_model_spec(s1) == -1 && latest_model_spec(s2) == 0,
{
}

/// Two runs of the envelope query against one snapshot agree: same
/// success, same envelope value, same error.
pub proof fn lemma_model_info_deterministic(
    s: Snapshot,
    version: u32,
    r1: Result<ModelInfo, ApiError>,
    r2: Result<ModelInfo, ApiError>,
)
    requires
        model_info_post(s, version, r1),
        model_info_post(s, version, r2),
    ensures
        match (r1, r2) {
            (Ok(a), Ok(b)) => a@ == b@,
            (Err(a), Err(b)) => a == b,
            _ => false,
        },
{
    match derive_spec(s.registry.entries@, version) {
        Some(addr) => {
        },
        None => {
        },
    }
}

/// Two runs of the raw model read against one snapshot agree.
pub proof fn lemma_get_model_deterministic(
    s: Snapshot,
    version: u32,
    r1: Result<Model, ApiError>,
    r2: Result<Model, ApiError>,
)
    requires
        get_model_post(s, version, r1),
        get_model_post(s, version, r2),
    ensures
        match (r1, r2) {
            (Ok(a), Ok(b)) => a@ == b@,
            (Err(a), Err(b)) => a == b,
            _ => false,
        },
{
}

/// Two runs of the latest-version query against one snapshot agree.
pub proof fn lemma_latest_model_deterministic(
    s: Snapshot,
    r1: Result<i32, ApiError>,
    r2: Result<i32, ApiError>,
)
    requires
        r1 matches Ok(v) && v == latest_model_spec(s),
        r2 matches Ok(v) && v == latest_model_spec(s),
    ensures
        r1 == r2,
{
}

/// Two runs of the score query against one snapshot agree byte for
/// byte.
pub proof fn lemma_trainer_scores_deterministic(
    s: Snapshot,
    r1: Result<String, ApiError>,
    r2: Result<String, ApiError>,
)
    requires
        r1 matches Ok(out) && out@ == scores_enc(s.scores@),
        r2 matches Ok(out) && out@ == scores_enc(s.scores@),
    ensures
        r1 matches Ok(a) && (r2 matches Ok(b) && a@ == b@),
{
}

} // verus!
