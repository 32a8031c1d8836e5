//! End-to-end checks of the query service against in-memory snapshot
//! fixtures.

use model_registry::address::KeyRegistry;
use model_registry::api::{ModelQuery, PublicApi, parse_version};
use model_registry::envelope::BlockProof;
use model_registry::schema::{HistoryLog, Snapshot};
use model_registry::types::{Address, ApiError, Digest, Model, PublicKey, Transaction};

fn digest(bytes: &[u8]) -> Digest {
    Digest { bytes: bytes.to_vec() }
}

fn addr_of(key: &[u8]) -> Address {
    Address { bytes: key.to_vec() }
}

/// Registry with keys for versions 0, 1 and 2; models at versions 0
/// and 1 only. Version 0's history holds two transactions, version
/// 1's holds one.
fn fixture() -> Snapshot {
    let key0: &[u8] = &[0x10, 0x11];
    let key1: &[u8] = &[0x20, 0x21];
    let key2: &[u8] = &[0x30, 0x31];
    Snapshot {
        registry: KeyRegistry {
            entries: vec![
                (0, PublicKey { bytes: key0.to_vec() }),
                (1, PublicKey { bytes: key1.to_vec() }),
                (2, PublicKey { bytes: key2.to_vec() }),
            ],
        },
        models: vec![
            (addr_of(key0), Model { version: 0, payload: vec![0xaa] }),
            (addr_of(key1), Model { version: 1, payload: vec![0xbb] }),
        ],
        models_root: digest(&[0x42]),
        histories: vec![
            (
                addr_of(key0),
                HistoryLog {
                    root: digest(&[0xa0]),
                    tx_hashes: vec![digest(&[0x01]), digest(&[0x02])],
                },
            ),
            (addr_of(key1), HistoryLog { root: digest(&[0xa1]), tx_hashes: vec![digest(&[0x03])] }),
        ],
        tx_index: vec![
            (digest(&[0x01]), Transaction { payload: vec![0xd1] }),
            (digest(&[0x02]), Transaction { payload: vec![0xd2] }),
            (digest(&[0x03]), Transaction { payload: vec![0xd3] }),
        ],
        scores: vec![],
        block: BlockProof { state_hash: digest(&[0x51]), attestation: vec![0x99] },
    }
}

fn empty_snapshot() -> Snapshot {
    Snapshot {
        registry: KeyRegistry { entries: vec![] },
        models: vec![],
        models_root: digest(&[0x42]),
        histories: vec![],
        tx_index: vec![],
        scores: vec![],
        block: BlockProof { state_hash: digest(&[0x51]), attestation: vec![0x99] },
    }
}

#[test]
fn fixture_is_well_formed() {
    assert!(fixture().is_well_formed());
    assert!(empty_snapshot().is_well_formed());
}

#[test]
fn duplicate_model_address_is_not_well_formed() {
    let mut snap = fixture();
    snap.models.push((addr_of(&[0x10, 0x11]), Model { version: 7, payload: vec![] }));
    assert!(!snap.is_well_formed());
}

#[test]
fn latest_model_empty_registry_is_minus_one() {
    assert_eq!(PublicApi::latest_model(&empty_snapshot()), Ok(-1));
}

#[test]
fn latest_model_counts_up_with_inserts() {
    let full = fixture();
    let mut one = fixture();
    one.models.truncate(1);
    assert_eq!(PublicApi::latest_model(&one), Ok(0));
    assert_eq!(PublicApi::latest_model(&full), Ok(1));
}

#[test]
fn get_model_returns_model_at_derived_address() {
    let snap = fixture();
    let model = PublicApi::get_model(&snap, ModelQuery { version: 0 }).unwrap();
    assert_eq!(model, Model { version: 0, payload: vec![0xaa] });
    let derived = snap.registry.derive(0).unwrap();
    let stored = snap.model_at(&derived).unwrap();
    assert_eq!(model, stored);
}

#[test]
fn get_model_unregistered_version_is_not_found() {
    let snap = fixture();
    assert_eq!(PublicApi::get_model(&snap, ModelQuery { version: 9 }), Err(ApiError::NotFound));
}

#[test]
fn get_model_absent_model_is_not_found() {
    let snap = fixture();
    assert_eq!(PublicApi::get_model(&snap, ModelQuery { version: 2 }), Err(ApiError::NotFound));
}

#[test]
fn model_info_existing_model_carries_inclusion_and_history() {
    let snap = fixture();
    let info = PublicApi::model_info(&snap, ModelQuery { version: 0 }).unwrap();
    assert_eq!(info.block_proof, snap.block);
    assert!(info.model_proof.to_table.verify(&info.block_proof.state_hash));
    let derived = snap.registry.derive(0).unwrap();
    assert!(info.model_proof.to_model.verify(&info.model_proof.to_table.table_root, &derived));
    assert!(info.model_proof.to_model.is_inclusion());
    assert_eq!(info.model_proof.to_model.model, Some(Model { version: 0, payload: vec![0xaa] }));
    let history = info.model_history.expect("existing model must carry history");
    assert!(history.proof.verify(&digest(&[0xa0])));
    assert_eq!(history.proof.hashes, vec![digest(&[0x01]), digest(&[0x02])]);
    assert_eq!(
        history.transactions,
        vec![Transaction { payload: vec![0xd1] }, Transaction { payload: vec![0xd2] }],
    );
}

#[test]
fn model_info_absent_model_carries_exclusion_and_no_history() {
    let snap = fixture();
    let info = PublicApi::model_info(&snap, ModelQuery { version: 2 }).unwrap();
    assert!(info.model_proof.to_table.verify(&info.block_proof.state_hash));
    let derived = snap.registry.derive(2).unwrap();
    assert!(info.model_proof.to_model.verify(&info.model_proof.to_table.table_root, &derived));
    assert!(!info.model_proof.to_model.is_inclusion());
    assert_eq!(info.model_proof.to_model.model, None);
    assert!(info.model_history.is_none());
}

#[test]
fn model_info_unregistered_version_is_not_found() {
    let snap = fixture();
    assert_eq!(PublicApi::model_info(&snap, ModelQuery { version: 9 }), Err(ApiError::NotFound));
}

#[test]
fn model_info_unresolvable_history_hash_is_internal() {
    let mut snap = fixture();
    snap.tx_index.remove(1);
    assert_eq!(PublicApi::model_info(&snap, ModelQuery { version: 0 }), Err(ApiError::Internal));
}

#[test]
fn model_info_empty_history_is_valid() {
    let mut snap = fixture();
    snap.histories[0].1.tx_hashes.clear();
    let info = PublicApi::model_info(&snap, ModelQuery { version: 0 }).unwrap();
    let history = info.model_history.expect("existing model must carry history");
    assert!(history.proof.verify(&digest(&[0xa0])));
    assert!(history.proof.hashes.is_empty());
    assert!(history.transactions.is_empty());
}

#[test]
fn queries_are_deterministic_on_one_snapshot() {
    let snap = fixture();
    assert_eq!(
        PublicApi::model_info(&snap, ModelQuery { version: 0 }),
        PublicApi::model_info(&snap, ModelQuery { version: 0 }),
    );
    assert_eq!(
        PublicApi::model_info(&snap, ModelQuery { version: 2 }),
        PublicApi::model_info(&snap, ModelQuery { version: 2 }),
    );
    assert_eq!(
        PublicApi::get_model(&snap, ModelQuery { version: 1 }),
        PublicApi::get_model(&snap, ModelQuery { version: 1 }),
    );
    assert_eq!(PublicApi::latest_model(&snap), PublicApi::latest_model(&snap));
    assert_eq!(PublicApi::get_trainers_scores(&snap), PublicApi::get_trainers_scores(&snap));
}

#[test]
fn scenario_two_models_one_absent() {
    let snap = fixture();
    assert!(snap.is_well_formed());

    assert_eq!(PublicApi::latest_model(&snap), Ok(1));

    let info0 = PublicApi::model_info(&snap, ModelQuery { version: 0 }).unwrap();
    assert!(info0.model_proof.to_model.is_inclusion());
    let history = info0.model_history.expect("version 0 exists, so history is owed");
    assert_eq!(history.proof.hashes, vec![digest(&[0x01]), digest(&[0x02])]);
    assert_eq!(
        history.transactions,
        vec![Transaction { payload: vec![0xd1] }, Transaction { payload: vec![0xd2] }],
    );

    let info2 = PublicApi::model_info(&snap, ModelQuery { version: 2 }).unwrap();
    assert!(!info2.model_proof.to_model.is_inclusion());
    assert!(info2.model_history.is_none());
}

#[test]
fn parse_version_accepts_decimal_digits() {
    assert_eq!(parse_version(b"0"), Ok(0));
    assert_eq!(parse_version(b"42"), Ok(42));
    assert_eq!(parse_version(b"4294967295"), Ok(4294967295));
}

#[test]
fn parse_version_rejects_malformed_input() {
    assert_eq!(parse_version(b""), Err(ApiError::Malformed));
    assert_eq!(parse_version(b"12a"), Err(ApiError::Malformed));
    assert_eq!(parse_version(b"-1"), Err(ApiError::Malformed));
    assert_eq!(parse_version(b"4294967296"), Err(ApiError::Malformed));
}
