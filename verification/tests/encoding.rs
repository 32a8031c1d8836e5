//! Checks of the hexadecimal and score-ledger encodings.

use model_registry::address::KeyRegistry;
use model_registry::api::PublicApi;
use model_registry::envelope::BlockProof;
use model_registry::hex::to_hex;
use model_registry::schema::Snapshot;
use model_registry::types::Digest;

fn snapshot_with_scores(scores: Vec<(Digest, String)>) -> Snapshot {
    Snapshot {
        registry: KeyRegistry { entries: vec![] },
        models: vec![],
        models_root: Digest { bytes: vec![0x42] },
        histories: vec![],
        tx_index: vec![],
        scores,
        block: BlockProof { state_hash: Digest { bytes: vec![0x51] }, attestation: vec![] },
    }
}

#[test]
fn to_hex_renders_lowercase_pairs() {
    assert_eq!(to_hex(&vec![]), "");
    assert_eq!(to_hex(&vec![0x00, 0xab, 0xff]), "00abff");
    assert_eq!(to_hex(&vec![0x1a, 0x2b, 0x3c, 0x4d]), "1a2b3c4d");
}

#[test]
fn trainer_scores_empty_ledger_renders_empty_object() {
    let snap = snapshot_with_scores(vec![]);
    assert_eq!(PublicApi::get_trainers_scores(&snap), Ok("{}".to_string()));
}

#[test]
fn trainer_scores_single_row() {
    let snap = snapshot_with_scores(vec![(
        Digest { bytes: vec![0x00, 0xab] },
        "12.5".to_string(),
    )]);
    assert_eq!(
        PublicApi::get_trainers_scores(&snap),
        Ok("{\"00ab\":\"12.5\"}".to_string()),
    );
}

#[test]
fn trainer_scores_many_rows_keep_ledger_order() {
    let snap = snapshot_with_scores(vec![
        (Digest { bytes: vec![0xff, 0x01] }, "7".to_string()),
        (Digest { bytes: vec![0x00, 0xab] }, "12.5".to_string()),
        (Digest { bytes: vec![0x0a, 0x0b] }, "0".to_string()),
    ]);
    assert_eq!(
        PublicApi::get_trainers_scores(&snap),
        Ok("{\"ff01\":\"7\",\"00ab\":\"12.5\",\"0a0b\":\"0\"}".to_string()),
    );
}
