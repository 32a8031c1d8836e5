//! The typed, read-only projection of one committed state snapshot:
//! the model map, the per-model history logs, the trainer score ledger
//! and the global transaction index, together with the snapshot
//! invariant every query relies on.

use vstd::prelude::*;
use crate::address::KeyRegistry;
use crate::envelope::BlockProof;
use crate::types::{Address, Digest, Model, Transaction, bytes_eq, clone_bytes, opt_model_view};

verus! {

/// The value of a [`HistoryLog`].
#[verifier::ext_equal]
pub struct HistoryLogView {
    pub root: Seq<u8>,
    pub tx_hashes: Seq<Seq<u8>>,
}

/// One model's append-only history: the committed root of the
/// underlying authenticated list, and its transaction hashes in append
/// order. Entries are only ever appended, by the external transaction
/// execution path.
#[derive(Debug, PartialEq, Eq)]
pub struct HistoryLog {
    pub root: Digest,
    pub tx_hashes: Vec<Digest>,
}

impl View for HistoryLog {
    type V = HistoryLogView;

    open spec fn view(&self) -> HistoryLogView {
        HistoryLogView {
            root: self.root@,
            tx_hashes: Seq::new(self.tx_hashes@.len(), |i: int| self.tx_hashes@[i]@),
        }
    }
}

/// The model stored at an address: the first entry carrying the
/// address, or nothing.
pub open spec fn model_lookup(s: Seq<(Address, Model)>, addr: Seq<u8>) -> Option<Model>
    decreases s.len(),
{
    if s.len() == 0 {
        None
    } else if s[0].0@ == addr {
        Some(s[0].1)
    } else {
        model_lookup(s.drop_first(), addr)
    }
}

/// The history log kept for an address, when one exists.
pub open spec fn history_lookup(s: Seq<(Address, HistoryLog)>, addr: Seq<u8>) -> Option<HistoryLog>
    decreases s.len(),
{
    if s.len() == 0 {
        None
    } else if s[0].0@ == addr {
        Some(s[0].1)
    } else {
        history_lookup(s.drop_first(), addr)
    }
}

/// The transaction the global index resolves a hash to, when any.
pub open spec fn tx_lookup(s: Seq<(Digest, Transaction)>, hash: Seq<u8>) -> Option<Transaction>
    decreases s.len(),
{
    if s.len() == 0 {
        None
    } else if s[0].0@ == hash {
        Some(s[0].1)
    } else {
        tx_lookup(s.drop_first(), hash)
    }
}

/// Skipping entries whose address differs leaves the model lookup
/// unchanged.
pub proof fn lemma_model_lookup_skip(s: Seq<(Address, Model)>, addr: Seq<u8>, i: int)
    requires
        0 <= i <= s.len(),
        forall|j: int| 0 <= j < i ==> s[j].0@ != addr,
    ensures
        model_lookup(s, addr) == model_lookup(s.skip(i), addr),
    decreases i,
{
    if i == 0 {
        assert(s.skip(0) =~= s);
    } else {
        assert(s.drop_first() =~= s.skip(1));
        lemma_model_lookup_skip(s.skip(1), addr, i - 1);
        assert(s.skip(1).skip(i - 1) =~= s.skip(i));
    }
}

/// Skipping entries whose address differs leaves the history lookup
/// unchanged.
pub proof fn lemma_history_lookup_skip(s: Seq<(Address, HistoryLog)>, addr: Seq<u8>, i: int)
    requires
        0 <= i <= s.len(),
        forall|j: int| 0 <= j < i ==> s[j].0@ != addr,
    ensures
        history_lookup(s, addr) == history_lookup(s.skip(i), addr),
    decreases i,
{
    if i == 0 {
        assert(s.skip(0) =~= s);
    } else {
        assert(s.drop_first() =~= s.skip(1));
        lemma_history_lookup_skip(s.skip(1), addr, i - 1);
        assert(s.skip(1).skip(i - 1) =~= s.skip(i));
    }
}

/// Skipping entries whose hash differs leaves the transaction lookup
/// unchanged.
pub proof fn lemma_tx_lookup_skip(s: Seq<(Digest, Transaction)>, hash: Seq<u8>, i: int)
    requires
        0 <= i <= s.len(),
        forall|j: int| 0 <= j < i ==> s[j].0@ != hash,
    ensures
        tx_lookup(s, hash) == tx_lookup(s.skip(i), hash),
    decreases i,
{
    if i == 0 {
        assert(s.skip(0) =~= s);
    } else {
        assert(s.drop_first() =~= s.skip(1));
        lemma_tx_lookup_skip(s.skip(1), hash, i - 1);
        assert(s.skip(1).skip(i - 1) =~= s.skip(i));
    }
}

/// Says whether no two models sit at one address.
fn model_addrs_distinct(models: &Vec<(Address, Model)>) -> (r: bool)
    ensures
        r == (forall|i: int, j: int|
            0 <= i < j < models@.len() ==> models@[i].0@ != models@[j].0@),
{
    let mut i: usize = 0;
    while i < models.len()
        invariant
            i <= models@.len(),
            forall|a: int, b: int|
                0 <= a < b < models@.len() && a < i ==> models@[a].0@ != models@[b].0@,
        decreases models@.len() - i,
    {
        let mut j: usize = i + 1;
        while j < models.len()
            invariant
                i < models@.len(),
                i + 1 <= j <= models@.len(),
                forall|a: int, b: int|
                    0 <= a < b < models@.len() && a < i ==> models@[a].0@ != models@[b].0@,
                forall|b: int| i < b < j ==> models@[i as int].0@ != models@[b].0@,
            decreases models@.len() - j,
        {
            if bytes_eq(&models[i].0.bytes, &models[j].0.bytes) {
                return false;
            }
            j += 1;
        }
        i += 1;
    }
    true
}

/// Says whether no address owns two history logs.
fn history_addrs_distinct(histories: &Vec<(Address, HistoryLog)>) -> (r: bool)
    ensures
        r == (forall|i: int, j: int|
            0 <= i < j < histories@.len() ==> histories@[i].0@ != histories@[j].0@),
{
    let mut i: usize = 0;
    while i < histories.len()
        invariant
            i <= histories@.len(),
            forall|a: int, b: int|
                0 <= a < b < histories@.len() && a < i ==> histories@[a].0@ != histories@[b].0@,
        decreases histories@.len() - i,
    {
        let mut j: usize = i + 1;
        while j < histories.len()
            invariant
                i < histories@.len(),
                i + 1 <= j <= histories@.len(),
                forall|a: int, b: int|
                    0 <= a < b < histories@.len() && a < i ==> histories@[a].0@ != histories@[b].0@,
                forall|b: int| i < b < j ==> histories@[i as int].0@ != histories@[b].0@,
            decreases histories@.len() - j,
        {
            if bytes_eq(&histories[i].0.bytes, &histories[j].0.bytes) {
                return false;
            }
            j += 1;
        }
        i += 1;
    }
    true
}

/// Says whether no hash indexes two transactions.
fn tx_hashes_distinct(tx_index: &Vec<(Digest, Transaction)>) -> (r: bool)
    ensures
        r == (forall|i: int, j: int|
            0 <= i < j < tx_index@.len() ==> tx_index@[i].0@ != tx_index@[j].0@),
{
    let mut i: usize = 0;
    while i < tx_index.len()
        invariant
            i <= tx_index@.len(),
            forall|a: int, b: int|
                0 <= a < b < tx_index@.len() && a < i ==> tx_index@[a].0@ != tx_index@[b].0@,
        decreases tx_index@.len() - i,
    {
        let mut j: usize = i + 1;
        while j < tx_index.len()
            invariant
                i < tx_index@.len(),
                i + 1 <= j <= tx_index@.len(),
                forall|a: int, b: int|
                    0 <= a < b < tx_index@.len() && a < i ==> tx_index@[a].0@ != tx_index@[b].0@,
                forall|b: int| i < b < j ==> tx_index@[i as int].0@ != tx_index@[b].0@,
            decreases tx_index@.len() - j,
        {
            if bytes_eq(&tx_index[i].0.bytes, &tx_index[j].0.bytes) {
                return false;
            }
            j += 1;
        }
        i += 1;
    }
    true
}

/// One immutable, point-in-time view of the committed state, bound at
/// query entry. All reads of one query go against one snapshot, so the
/// three containers are mutually consistent for its duration; the core
/// never writes.
pub struct Snapshot {
    /// The injected version-to-public-key registry.
    pub registry: KeyRegistry,
    /// The model map, keyed by derived address.
    pub models: Vec<(Address, Model)>,
    /// The committed root of the models table.
    pub models_root: Digest,
    /// Each model's own history log, keyed by the model's address.
    pub histories: Vec<(Address, HistoryLog)>,
    /// The global transaction index, hash to full transaction.
    pub tx_index: Vec<(Digest, Transaction)>,
    /// The trainer score ledger: (identity hash, score) pairs in ledger
    /// order.
    pub scores: Vec<(Digest, String)>,
    /// The block proof certifying this snapshot's state commitment.
    pub block: BlockProof,
}

impl Snapshot {
    /// Models are keyed uniquely.
    pub open spec fn models_unique(self) -> bool {
        forall|i: int, j: int|
            0 <= i < j < self.models@.len() ==> self.models@[i].0@ != self.models@[j].0@
    }

    /// Each address owns at most one history log.
    pub open spec fn histories_unique(self) -> bool {
        forall|i: int, j: int|
            0 <= i < j < self.histories@.len() ==> self.histories@[i].0@ != self.histories@[j].0@
    }

    /// The transaction index is keyed uniquely.
    pub open spec fn txs_unique(self) -> bool {
        forall|i: int, j: int|
            0 <= i < j < self.tx_index@.len() ==> self.tx_index@[i].0@ != self.tx_index@[j].0@
    }

    /// Every model owns a history log of its own, possibly empty.
    pub open spec fn histories_cover_models(self) -> bool {
        forall|i: int|
            0 <= i < self.models@.len() ==> history_lookup(
                self.histories@,
                #[trigger] self.models@[i].0@,
            ) is Some
    }

    /// The snapshot invariant: unique keys throughout, a history log
    /// for every model, and a model count that the reported 32-bit
    /// value can carry.
    pub open spec fn wf(self) -> bool {
        &&& self.registry.wf()
        &&& self.models_unique()
        &&& self.histories_unique()
        &&& self.txs_unique()
        &&& self.histories_cover_models()
        &&& self.models@.len() <= 0x7fff_ffff
    }

    /// The model stored at an address, or nothing: a pure projection of
    /// this snapshot.
    pub fn model_at(&self, addr: &Address) -> (r: Option<Model>)
        ensures
            opt_model_view(r) == opt_model_view(model_lookup(self.models@, addr@)),
    {
        let mut i: usize = 0;
        while i < self.models.len()
            invariant
                i <= self.models@.len(),
                forall|j: int| 0 <= j < i ==> self.models@[j].0@ != addr@,
            decreases self.models@.len() - i,
        {
            if bytes_eq(&self.models[i].0.bytes, &addr.bytes) {
                proof {
                    lemma_model_lookup_skip(self.models@, addr@, i as int);
                    assert(self.models@.skip(i as int)[0] == self.models@[i as int]);
                }
                return Some(self.models[i].1.clone());
            }
            i += 1;
        }
        proof {
            lemma_model_lookup_skip(self.models@, addr@, self.models@.len() as int);
        }
        None
    }

    /// The history log kept for an address. A model's log exists even
    /// when empty; an address that owns no log yields nothing.
    pub fn history_of(&self, addr: &Address) -> (r: Option<&HistoryLog>)
        ensures
            match r {
                Some(log) => history_lookup(self.histories@, addr@) matches Some(l) && log@ == l@,
                None => history_lookup(self.histories@, addr@) is None,
            },
    {
        let mut i: usize = 0;
        while i < self.histories.len()
            invariant
                i <= self.histories@.len(),
                forall|j: int| 0 <= j < i ==> self.histories@[j].0@ != addr@,
            decreases self.histories@.len() - i,
        {
            if bytes_eq(&self.histories[i].0.bytes, &addr.bytes) {
                proof {
                    lemma_history_lookup_skip(self.histories@, addr@, i as int);
                    assert(self.histories@.skip(i as int)[0] == self.histories@[i as int]);
                }
                return Some(&self.histories[i].1);
            }
            i += 1;
        }
        proof {
            lemma_history_lookup_skip(self.histories@, addr@, self.histories@.len() as int);
        }
        None
    }

    /// The transaction a hash resolves to through the global index.
    pub fn resolve_transaction(&self, hash: &Digest) -> (r: Option<&Transaction>)
        ensures
            match r {
                Some(tx) => tx_lookup(self.tx_index@, hash@) matches Some(t) && tx@ == t@,
                None => tx_lookup(self.tx_index@, hash@) is None,
            },
    {
        let mut i: usize = 0;
        while i < self.tx_index.len()
            invariant
                i <= self.tx_index@.len(),
                forall|j: int| 0 <= j < i ==> self.tx_index@[j].0@ != hash@,
            decreases self.tx_index@.len() - i,
        {
            if bytes_eq(&self.tx_index[i].0.bytes, &hash.bytes) {
                proof {
                    lemma_tx_lookup_skip(self.tx_index@, hash@, i as int);
                    assert(self.tx_index@.skip(i as int)[0] == self.tx_index@[i as int]);
                }
                return Some(&self.tx_index[i].1);
            }
            i += 1;
        }
        proof {
            lemma_tx_lookup_skip(self.tx_index@, hash@, self.tx_index@.len() as int);
        }
        None
    }

    /// The trainer score ledger, in ledger order.
    pub fn score_ledger(&self) -> (r: &Vec<(Digest, String)>)
        ensures
            r@ == self.scores@,
    {
        &self.scores
    }

    /// Decides whether this snapshot satisfies its invariant, so that
    /// unverified surroundings can test it before querying.
    pub fn is_well_formed(&self) -> (r: bool)
        ensures
            r == self.wf(),
    {
        if !self.registry.check_wf() {
            return false;
        }
        if !model_addrs_distinct(&self.models) {
            return false;
        }
        if !history_addrs_distinct(&self.histories) {
            return false;
        }
        if !tx_hashes_distinct(&self.tx_index) {
            return false;
        }
        if self.models.len() > 0x7fff_ffff {
            return false;
        }
        let mut i: usize = 0;
        while i < self.models.len()
            invariant
                i <= self.models@.len(),
                forall|k: int|
                    0 <= k < i ==> history_lookup(
                        self.histories@,
                        #[trigger] self.models@[k].0@,
                    ) is Some,
            decreases self.models@.len() - i,
        {
            match self.history_of(&self.models[i].0) {
                Some(_) => {
                },
                None => {
                    return false;
                },
            }
            i += 1;
        }
        true
    }

    /// How many models the registry holds.
    pub fn model_count(&self) -> (r: u32)
        requires
            self.wf(),
        ensures
            r == self.models@.len(),
    {
        self.models.len() as u32
    }
}

} // verus!
