//! Tests for the stored-view data model.

use std::collections::{BTreeMap, BTreeSet};

use qcert::data::{
    AggregateSignature, AssembledSignature, Commitment, EncodedPublicKey, QuorumCertificate,
};
use qcert::storage::{StorageError, StorageState, StoredView, ViewAppend, ViewEntry};

fn qc(view: u64) -> QuorumCertificate {
    QuorumCertificate {
        leaf_commitment: Commitment { bytes: b"leaf".to_vec() },
        view_number: view,
        signatures: AssembledSignature::Yes(AggregateSignature(vec![1, 2, 3])),
        is_genesis: false,
    }
}

#[test]
fn into_deltas_returns_the_block() {
    let append: ViewAppend<u32> = ViewAppend::Block { block: 77 };
    assert_eq!(append.into_deltas(), 77);
}

#[test]
fn view_append_from_block() {
    let append: ViewAppend<&str> = ViewAppend::from("block");
    assert_eq!(append, ViewAppend::Block { block: "block" });
}

#[test]
fn from_qc_block_and_state_pins_every_field() {
    let view: StoredView<u8, u32, u16> = StoredView::from_qc_block_and_state(
        qc(9),
        42u32,
        7u8,
        Commitment { bytes: b"parent".to_vec() },
        vec![3u16, 4u16],
        EncodedPublicKey(vec![1]),
    );
    assert_eq!(view.view_number, 9);
    assert_eq!(view.parent, Commitment { bytes: b"parent".to_vec() });
    assert_eq!(view.justify_qc, qc(9));
    assert_eq!(view.state, 7);
    assert_eq!(view.append, ViewAppend::Block { block: 42 });
    assert_eq!(view.rejected, vec![3, 4]);
    assert_eq!(view.proposer_id, EncodedPublicKey(vec![1]));
}

#[test]
fn view_entry_from_stored_view() {
    let view: StoredView<u8, u32, u16> = StoredView::from_qc_block_and_state(
        qc(2),
        1u32,
        0u8,
        Commitment { bytes: vec![] },
        vec![],
        EncodedPublicKey(vec![]),
    );
    let reference: StoredView<u8, u32, u16> = StoredView::from_qc_block_and_state(
        qc(2),
        1u32,
        0u8,
        Commitment { bytes: vec![] },
        vec![],
        EncodedPublicKey(vec![]),
    );
    match ViewEntry::from(view) {
        ViewEntry::Success(inner) => {
            assert_eq!(inner.view_number, reference.view_number);
            assert_eq!(inner.append, reference.append);
        }
        ViewEntry::Failed(_) => panic!("a stored view converts to a success entry"),
    }
}

#[test]
fn storage_state_holds_views() {
    let view: StoredView<u8, u32, u16> = StoredView::from_qc_block_and_state(
        qc(5),
        1u32,
        0u8,
        Commitment { bytes: vec![] },
        vec![],
        EncodedPublicKey(vec![]),
    );
    let mut stored = BTreeMap::new();
    stored.insert(5u64, view);
    let mut failed = BTreeSet::new();
    failed.insert(6u64);
    let state = StorageState { stored, failed };
    assert!(state.stored.contains_key(&5));
    assert!(state.failed.contains(&6));
}

#[test]
fn storage_error_is_the_missing_genesis() {
    let err = StorageError::NoGenesisView;
    assert_eq!(err, StorageError::NoGenesisView);
}
