//! The nested proof envelope a query hands back, and its verification
//! semantics: a client walks block to table root to map entry to
//! history range, checking at each hop that the child proof speaks of
//! the commitment the parent established. The Merkle arithmetic inside
//! each hop belongs to the external authenticated store and is carried
//! opaquely; what the core owns, and what is stated here, is the
//! chaining of the layers and the claims each layer makes.

use vstd::prelude::*;
use crate::types::{
    Address, ApiError, Digest, Model, ModelView, Transaction, bytes_eq, clone_bytes,
    clone_digest_vec, opt_model_view,
};
use crate::schema::{HistoryLog, Snapshot, history_lookup, model_lookup, tx_lookup};

verus! {

/// The value of a [`BlockProof`].
#[verifier::ext_equal]
pub struct BlockProofView {
    pub state_hash: Seq<u8>,
    pub attestation: Seq<u8>,
}

/// The attestation binding a finalized block header to the root of all
/// committed containers at that height. Obtained from the external
/// certification service and threaded through unmodified; the core
/// reads only the state hash it commits to.
#[derive(Debug, PartialEq, Eq)]
pub struct BlockProof {
    pub state_hash: Digest,
    pub attestation: Vec<u8>,
}

impl View for BlockProof {
    type V = BlockProofView;

    open spec fn view(&self) -> BlockProofView {
        BlockProofView { state_hash: self.state_hash@, attestation: self.attestation@ }
    }
}

impl Clone for BlockProof {
    fn clone(&self) -> (r: Self)
        ensures
            r@ == self@,
    {
        BlockProof {
            state_hash: self.state_hash.clone(),
            attestation: clone_bytes(&self.attestation),
        }
    }
}

/// The value of a [`TableProof`].
#[verifier::ext_equal]
pub struct TableProofView {
    pub state_hash: Seq<u8>,
    pub table_root: Seq<u8>,
}

/// Whole-table index proof: under the given state commitment, the
/// models table has the given root.
#[derive(Debug, PartialEq, Eq)]
pub struct TableProof {
    pub state_hash: Digest,
    pub table_root: Digest,
}

impl View for TableProof {
    type V = TableProofView;

    open spec fn view(&self) -> TableProofView {
        TableProofView { state_hash: self.state_hash@, table_root: self.table_root@ }
    }
}

impl Clone for TableProof {
    fn clone(&self) -> (r: Self)
        ensures
            r@ == self@,
    {
        TableProof { state_hash: self.state_hash.clone(), table_root: self.table_root.clone() }
    }
}

/// A table proof verifies against a state commitment exactly when it
/// speaks of that commitment.
pub open spec fn table_proof_verifies(p: TableProofView, state_hash: Seq<u8>) -> bool {
    p.state_hash == state_hash
}

impl TableProof {
    /// Checks this proof against the state commitment a block proof
    /// established.
    pub fn verify(&self, state_hash: &Digest) -> (r: bool)
        ensures
            r == table_proof_verifies(self@, state_hash@),
    {
        bytes_eq(&self.state_hash.bytes, &state_hash.bytes)
    }
}

/// The value of an [`EntryProof`].
#[verifier::ext_equal]
pub struct EntryProofView {
    pub table_root: Seq<u8>,
    pub addr: Seq<u8>,
    pub model: Option<ModelView>,
}

/// Map proof for one address of the models table: an inclusion proof
/// carrying the model when it exists, an exclusion proof otherwise.
/// Absence is a valid, provable result, not an error.
#[derive(Debug, PartialEq, Eq)]
pub struct EntryProof {
    pub table_root: Digest,
    pub addr: Address,
    pub model: Option<Model>,
}

impl View for EntryProof {
    type V = EntryProofView;

    open spec fn view(&self) -> EntryProofView {
        EntryProofView {
            table_root: self.table_root@,
            addr: self.addr@,
            model: opt_model_view(self.model),
        }
    }
}

impl EntryProof {
    /// Holds when the proof shows the model present.
    pub open spec fn spec_is_inclusion(self) -> bool {
        self.model is Some
    }

    /// Says whether this proof shows the model present (inclusion) or
    /// absent (exclusion).
    pub fn is_inclusion(&self) -> (r: bool)
        ensures
            r == self.spec_is_inclusion(),
    {
        self.model.is_some()
    }

    /// Checks this proof against the table root a table proof
    /// established, for the queried address.
    pub fn verify(&self, table_root: &Digest, addr: &Address) -> (r: bool)
        ensures
            r == entry_proof_verifies(self@, table_root@, addr@),
    {
        bytes_eq(&self.table_root.bytes, &table_root.bytes) && bytes_eq(
            &self.addr.bytes,
            &addr.bytes,
        )
    }
}

/// An entry proof verifies against a table root exactly when it speaks
/// of that root and of the queried address.
pub open spec fn entry_proof_verifies(p: EntryProofView, table_root: Seq<u8>, addr: Seq<u8>) -> bool {
    p.table_root == table_root && p.addr == addr
}

/// The value of a [`RangeProof`].
#[verifier::ext_equal]
pub struct RangeProofView {
    pub list_root: Seq<u8>,
    pub hashes: Seq<Seq<u8>>,
}

/// Full-range proof over one model's append-only history log, covering
/// every recorded transaction hash in append order. An empty log yields
/// an empty but valid range proof.
#[derive(Debug, PartialEq, Eq)]
pub struct RangeProof {
    pub list_root: Digest,
    pub hashes: Vec<Digest>,
}

impl View for RangeProof {
    type V = RangeProofView;

    open spec fn view(&self) -> RangeProofView {
        RangeProofView {
            list_root: self.list_root@,
            hashes: Seq::new(self.hashes@.len(), |i: int| self.hashes@[i]@),
        }
    }
}

/// A range proof verifies against a committed list root exactly when
/// it speaks of that root.
pub open spec fn range_proof_verifies(p: RangeProofView, list_root: Seq<u8>) -> bool {
    p.list_root == list_root
}

impl RangeProof {
    /// Checks this proof against the committed root of the history log
    /// it covers.
    pub fn verify(&self, list_root: &Digest) -> (r: bool)
        ensures
            r == range_proof_verifies(self@, list_root@),
    {
        bytes_eq(&self.list_root.bytes, &list_root.bytes)
    }
}

/// Proof of existence or absence of one model: the whole-table proof
/// and the proof for the specific entry.
#[derive(Debug, PartialEq, Eq)]
pub struct ModelProof {
    /// Proof of the whole models table under the block's state hash.
    pub to_table: TableProof,
    /// Proof of the specific model inside this table.
    pub to_model: EntryProof,
}

/// The value of a [`ModelProof`].
#[verifier::ext_equal]
pub struct ModelProofView {
    pub to_table: TableProofView,
    pub to_model: EntryProofView,
}

impl View for ModelProof {
    type V = ModelProofView;

    open spec fn view(&self) -> ModelProofView {
        ModelProofView { to_table: self.to_table@, to_model: self.to_model@ }
    }
}

/// A model's mutation history: the range proof over its hash log and
/// the resolved transactions, one per hash, in the same order.
#[derive(Debug, PartialEq, Eq)]
pub struct ModelHistory {
    /// Proof of the list of transaction hashes.
    pub proof: RangeProof,
    /// The transactions those hashes resolve to, in append order.
    pub transactions: Vec<Transaction>,
}

/// The value of a [`ModelHistory`].
#[verifier::ext_equal]
pub struct ModelHistoryView {
    pub proof: RangeProofView,
    pub transactions: Seq<Seq<u8>>,
}

impl View for ModelHistory {
    type V = ModelHistoryView;

    open spec fn view(&self) -> ModelHistoryView {
        ModelHistoryView {
            proof: self.proof@,
            transactions: Seq::new(self.transactions@.len(), |i: int| self.transactions@[i]@),
        }
    }
}

/// The whole verifiable envelope for one model query.
#[derive(Debug, PartialEq, Eq)]
pub struct ModelInfo {
    /// Proof of the last block.
    pub block_proof: BlockProof,
    /// Proof of the appropriate model, or of its absence.
    pub model_proof: ModelProof,
    /// History of the model; present exactly when the model exists.
    pub model_history: Option<ModelHistory>,
}

/// The value of a [`ModelInfo`].
#[verifier::ext_equal]
pub struct ModelInfoView {
    pub block_proof: BlockProofView,
    pub model_proof: ModelProofView,
    pub model_history: Option<ModelHistoryView>,
}

impl View for ModelInfo {
    type V = ModelInfoView;

    open spec fn view(&self) -> ModelInfoView {
        ModelInfoView {
            block_proof: self.block_proof@,
            model_proof: self.model_proof@,
            model_history: match self.model_history {
                Some(h) => Some(h@),
                None => None,
            },
        }
    }
}

/// Holds when the committed containers let a present model's history
/// be assembled: the model owns a log and the global index resolves
/// every hash of it. An absent model asks nothing of the containers.
pub open spec fn history_ok(s: Snapshot, addr: Seq<u8>) -> bool {
    match model_lookup(s.models@, addr) {
        None => true,
        Some(_) => match history_lookup(s.histories@, addr) {
            None => false,
            Some(log) => forall|j: int|
                0 <= j < log.tx_hashes@.len() ==> tx_lookup(
                    s.tx_index@,
                    #[trigger] log.tx_hashes@[j]@,
                ) is Some,
        },
    }
}

/// The transactions a log's hashes resolve to, in the log's order.
pub open spec fn resolved_payloads(s: Snapshot, log: HistoryLog) -> Seq<Seq<u8>> {
    Seq::new(
        log.tx_hashes@.len(),
        |j: int|
            match tx_lookup(s.tx_index@, log.tx_hashes@[j]@) {
                Some(t) => t.payload@,
                None => Seq::empty(),
            },
    )
}

/// The one envelope the composer owes for an address against a
/// snapshot: the snapshot's block proof unmodified, the table proof
/// chained to the block's state commitment, the entry proof chained to
/// the table root — inclusion exactly when the model exists — and,
/// exactly then, the full-range history proof with its resolved
/// transactions.
pub open spec fn envelope_of(s: Snapshot, addr: Seq<u8>) -> ModelInfoView {
    ModelInfoView {
        block_proof: s.block@,
        model_proof: ModelProofView {
            to_table: TableProofView {
                state_hash: s.block.state_hash@,
                table_root: s.models_root@,
            },
            to_model: EntryProofView {
                table_root: s.models_root@,
                addr: addr,
                model: opt_model_view(model_lookup(s.models@, addr)),
            },
        },
        model_history: match model_lookup(s.models@, addr) {
            None => None,
            Some(_) => match history_lookup(s.histories@, addr) {
                None => None,
                Some(log) => Some(
                    ModelHistoryView {
                        proof: RangeProofView { list_root: log.root@, hashes: log@.tx_hashes },
                        transactions: resolved_payloads(s, log),
                    },
                ),
            },
        },
    }
}

/// What the composer returns: the owed envelope, or `Internal` exactly
/// when the committed containers themselves are inconsistent — a
/// present model without a log, or a history hash the global index
/// cannot resolve.
pub open spec fn compose_post(s: Snapshot, addr: Seq<u8>, r: Result<ModelInfo, ApiError>) -> bool {
    match r {
        Ok(info) => history_ok(s, addr) && info@ == envelope_of(s, addr),
        Err(e) => e == ApiError::Internal && !history_ok(s, addr),
    }
}

/// Builds the verifiable envelope for one address against one
/// snapshot: a pure tree walk, independent of any transport encoding.
/// Absence of the model is a valid result carrying an exclusion proof
/// and no history, never an error.
pub fn compose(s: &Snapshot, addr: &Address) -> (r: Result<ModelInfo, ApiError>)
    ensures
        compose_post(*s, addr@, r),
{
    let to_table = TableProof {
        state_hash: s.block.state_hash.clone(),
        table_root: s.models_root.clone(),
    };
    let model = s.model_at(addr);
    let is_present = model.is_some();
    let to_model = EntryProof {
        table_root: s.models_root.clone(),
        addr: addr.clone(),
        model,
    };
    let model_history = if is_present {
        proof {
            assert(model_lookup(s.models@, addr@) is Some);
        }
        let log = match s.history_of(addr) {
            Some(l) => l,
            None => {
                proof {
                    assert(!history_ok(*s, addr@));
                }
                return Err(ApiError::Internal);
            },
        };
        let mut txs: Vec<Transaction> = Vec::new();
        let mut j: usize = 0;
        while j < log.tx_hashes.len()
            invariant
                j <= log.tx_hashes@.len(),
                txs@.len() == j,
                model_lookup(s.models@, addr@) is Some,
                history_lookup(s.histories@, addr@) matches Some(l) && log@ == l@,
                forall|k: int|
                    0 <= k < j ==> tx_lookup(s.tx_index@, #[trigger] log@.tx_hashes[k]) is Some,
                forall|k: int|
                    0 <= k < j ==> (tx_lookup(s.tx_index@, log@.tx_hashes[k]) matches Some(t)
                        && #[trigger] txs@[k]@ == t@),
            decreases log.tx_hashes@.len() - j,
        {
            let tx = match s.resolve_transaction(&log.tx_hashes[j]) {
                Some(t) => t.clone(),
                None => {
                    proof {
                        match history_lookup(s.histories@, addr@) {
                            Some(l) => {
                                assert(log@ == l@);
                                assert(l@.tx_hashes.len() == l.tx_hashes@.len());
                                assert(j < l.tx_hashes@.len());
                                assert(l.tx_hashes@[j as int]@ == l@.tx_hashes[j as int]);
                                assert(l@.tx_hashes[j as int] == log@.tx_hashes[j as int]);
                                assert(!history_ok(*s, addr@));
                            },
                            None => {
                                assert(false);
                            },
                        }
                    }
                    return Err(ApiError::Internal);
                },
            };
            txs.push(tx);
            j += 1;
        }
        let mh = ModelHistory {
            proof: RangeProof {
                list_root: log.root.clone(),
                hashes: clone_digest_vec(&log.tx_hashes),
            },
            transactions: txs,
        };
        proof {
            match history_lookup(s.histories@, addr@) {
                Some(l) => {
                    assert(log@ == l@);
                    assert(l@.tx_hashes.len() == l.tx_hashes@.len());
                    assert forall|k: int| 0 <= k < l.tx_hashes@.len() implies tx_lookup(
                        s.tx_index@,
                        #[trigger] l.tx_hashes@[k]@,
                    ) is Some by {
                        assert(l.tx_hashes@[k]@ == l@.tx_hashes[k]);
                        assert(l@.tx_hashes[k] == log@.tx_hashes[k]);
                    }
                    assert(history_ok(*s, addr@));
                    match envelope_of(*s, addr@).model_history {
                        Some(owed) => {
                            assert(mh@.proof.hashes =~= owed.proof.hashes);
                            assert forall|k: int|
                                0 <= k < mh@.transactions.len() implies mh@.transactions[k]
                                == owed.transactions[k] by {
                                assert(l.tx_hashes@[k]@ == l@.tx_hashes[k]);
                                assert(l@.tx_hashes[k] == log@.tx_hashes[k]);
                            }
                            assert(mh@.transactions =~= owed.transactions);
                            assert(mh@ =~= owed);
                        },
                        None => {
                            assert(false);
                        },
                    }
                },
                None => {
                    assert(false);
                },
            }
        }
        Some(mh)
    } else {
        proof {
            assert(model_lookup(s.models@, addr@) is None);
            assert(history_ok(*s, addr@));
        }
        None
    };
    let info = ModelInfo {
        block_proof: s.block.clone(),
        model_proof: ModelProof { to_table, to_model },
        model_history,
    };
    proof {
        let env = envelope_of(*s, addr@);
        assert(info@.block_proof =~= env.block_proof);
        assert(info@.model_proof.to_table =~= env.model_proof.to_table);
        assert(info@.model_proof.to_model =~= env.model_proof.to_model);
        assert(info@ =~= env);
    }
    Ok(info)
}

} // verus!
