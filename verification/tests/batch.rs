use unstaking::batch::Batch;
use unstaking::chunk::{
    ChunkAction, ChunkEvent, ChunkFailure, ChunkOutcome, ChunkPhase,
};
use unstaking::keys::{CustodianKeySet, KeyError};
use unstaking::sweep::{SweepPolicy, Utxo};

fn hex_bytes(text: &str) -> Vec<u8> {
    (0..text.len() / 2).map(|i| u8::from_str_radix(&text[2 * i..2 * i + 2], 16).unwrap()).collect()
}

fn key_encodings() -> Vec<Vec<u8>> {
    vec![
        hex_bytes("0279be667ef9dcbbac55a06295ce870b07029bfcdb2dce28d959f2815b16f81798"),
        hex_bytes("02c6047f9441ed7d6d3045406e95c07cd85c778e4b8cef3ca7abac09b95c709ee5"),
        hex_bytes("02f9308a019258c31049344f85f89d5229b531c845836f99b08601f113bce036f9"),
    ]
}

fn outputs(count: u32, amount: u64) -> Vec<Utxo> {
    (0..count)
        .map(|n| {
            let mut txid = [0u8; 32];
            txid[..4].copy_from_slice(&n.to_le_bytes());
            Utxo { txid, vout: 1, amount, height: n as u64 }
        })
        .collect()
}

fn planned(count: u32, policy: &SweepPolicy, signers: usize) -> (Batch, Vec<ChunkAction>) {
    Batch::start(
        &outputs(count, 10_000),
        &vec![0x51, 0x20],
        &vec![0x00, 0x14],
        &key_encodings(),
        2,
        policy,
        signers,
    )
    .unwrap()
}

/// Answers every request of one chunk with success until the chunk ends.
fn drive_to_the_end(batch: &mut Batch, chunk: usize, first: ChunkEvent) -> ChunkOutcome {
    let mut action = batch.deliver(chunk, first);
    loop {
        let event = match action {
            ChunkAction::Sign { .. } => ChunkEvent::Signed { ok: true },
            ChunkAction::Extract => ChunkEvent::Extracted { transaction: Some(vec![chunk as u8]) },
            ChunkAction::Broadcast { .. } => ChunkEvent::Broadcasted { ok: true },
            ChunkAction::Finish(outcome) => return outcome,
            other => panic!("unexpected action {:?}", other),
        };
        action = batch.deliver(chunk, event);
    }
}

#[test]
fn twelve_hundred_outputs_are_swept_in_two_transactions() {
    let (mut batch, actions) = planned(1200, &SweepPolicy::standard(), 3);
    assert_eq!(batch.len(), 2);
    assert_eq!(actions.len(), 2);
    assert_eq!(batch.task(0).unwrap().utxo_count(), 500);
    assert_eq!(batch.task(1).unwrap().utxo_count(), 200);
    assert_eq!(batch.task(0).unwrap().amount(), Some(5_000_000));
    assert_eq!(batch.task(1).unwrap().amount(), Some(2_000_000));
    assert_eq!(batch.task(1).unwrap().index(), 1);
    match (&actions[0], &actions[1]) {
        (ChunkAction::Build(first), ChunkAction::Build(second)) => {
            assert_eq!(first.inputs().len(), 500);
            assert_eq!(first.outputs()[0].amount(), 5_000_000);
            assert_eq!(second.inputs().len(), 200);
            assert_eq!(second.outputs()[0].amount(), 2_000_000);
        }
        other => panic!("unexpected actions {:?}", other),
    }
    assert!(!batch.is_complete());
    assert_eq!(batch.pending(), 2);
    // The second chunk resolves first.
    assert_eq!(
        drive_to_the_end(&mut batch, 1, ChunkEvent::Built { ok: true }),
        ChunkOutcome::Sent
    );
    assert!(!batch.is_complete());
    assert_eq!(batch.pending(), 1);
    assert_eq!(
        drive_to_the_end(&mut batch, 0, ChunkEvent::Built { ok: true }),
        ChunkOutcome::Sent
    );
    assert!(batch.is_complete());
    assert_eq!(batch.pending(), 0);
}

#[test]
fn sweep_completes_whichever_chunk_resolves_first() {
    for order in [[0usize, 1], [1, 0]] {
        let (mut batch, _) = planned(1200, &SweepPolicy::standard(), 3);
        for chunk in order {
            assert!(!batch.is_complete());
            drive_to_the_end(&mut batch, chunk, ChunkEvent::Built { ok: true });
        }
        assert!(batch.is_complete());
        assert_eq!(batch.task(0).unwrap().outcome(), Some(ChunkOutcome::Sent));
        assert_eq!(batch.task(1).unwrap().outcome(), Some(ChunkOutcome::Sent));
    }
}

#[test]
fn one_failed_build_does_not_stop_the_other_chunks() {
    let policy = SweepPolicy::new(0, 10, 2).unwrap();
    let (mut batch, actions) = planned(35, &policy, 3);
    assert_eq!(batch.len(), 4);
    assert_eq!(actions.len(), 4);
    let failed = ChunkOutcome::Failed(ChunkFailure::BuildFailed);
    assert!(matches!(
        batch.deliver(2, ChunkEvent::Built { ok: false }),
        ChunkAction::Finish(outcome) if outcome == failed
    ));
    for other in [0usize, 1, 3] {
        assert_eq!(batch.task(other).unwrap().phase(), ChunkPhase::Building);
    }
    assert!(!batch.is_complete());
    assert_eq!(batch.pending(), 3);
    for other in [3usize, 0, 1] {
        assert_eq!(
            drive_to_the_end(&mut batch, other, ChunkEvent::Built { ok: true }),
            ChunkOutcome::Sent
        );
        assert_eq!(batch.task(2).unwrap().outcome(), Some(failed));
    }
    assert!(batch.is_complete());
}

#[test]
fn interleaved_events_reach_only_their_own_chunk() {
    let policy = SweepPolicy::new(0, 10, 2).unwrap();
    let (mut batch, _) = planned(30, &policy, 2);
    assert!(matches!(batch.deliver(0, ChunkEvent::Built { ok: true }), ChunkAction::Sign { key: 0 }));
    assert!(matches!(batch.deliver(1, ChunkEvent::Built { ok: true }), ChunkAction::Sign { key: 0 }));
    assert!(matches!(batch.deliver(0, ChunkEvent::Signed { ok: false }), ChunkAction::Sign { key: 1 }));
    assert!(matches!(batch.deliver(1, ChunkEvent::Signed { ok: true }), ChunkAction::Sign { key: 1 }));
    assert!(matches!(
        batch.deliver(0, ChunkEvent::Signed { ok: true }),
        ChunkAction::Finish(ChunkOutcome::Failed(ChunkFailure::InsufficientSignatures))
    ));
    assert!(matches!(batch.deliver(1, ChunkEvent::Signed { ok: true }), ChunkAction::Extract));
    assert_eq!(batch.task(2).unwrap().phase(), ChunkPhase::Building);
    assert!(matches!(
        batch.deliver(1, ChunkEvent::Extracted { transaction: None }),
        ChunkAction::Finish(ChunkOutcome::Failed(ChunkFailure::ExtractionFailed))
    ));
    assert_eq!(batch.pending(), 1);
    assert_eq!(
        drive_to_the_end(&mut batch, 2, ChunkEvent::Built { ok: true }),
        ChunkOutcome::Sent
    );
    assert!(batch.is_complete());
}

#[test]
fn event_for_a_missing_chunk_is_ignored() {
    let (mut batch, _) = planned(1200, &SweepPolicy::standard(), 3);
    assert!(matches!(batch.deliver(2, ChunkEvent::Built { ok: true }), ChunkAction::Ignore));
    assert!(matches!(batch.deliver(usize::MAX, ChunkEvent::Built { ok: true }), ChunkAction::Ignore));
    assert!(batch.task(2).is_none());
    assert_eq!(batch.task(0).unwrap().phase(), ChunkPhase::Building);
    assert_eq!(batch.task(1).unwrap().phase(), ChunkPhase::Building);
}

#[test]
fn short_listing_completes_with_no_transaction() {
    for count in [0u32, 1, 499, 500] {
        let (batch, actions) = planned(count, &SweepPolicy::standard(), 3);
        assert_eq!(batch.len(), 0);
        assert!(actions.is_empty());
        assert!(batch.is_complete());
        assert_eq!(batch.pending(), 0);
    }
}

#[test]
fn sweep_is_not_planned_with_bad_keys() {
    let mut keys = key_encodings();
    keys[1] = vec![0x02; 10];
    let policy = SweepPolicy::standard();
    let all = outputs(1200, 1);
    let result = Batch::start(&all, &vec![0x51], &vec![0x52], &keys, 2, &policy, 3);
    assert_eq!(result.err(), Some(KeyError::Malformed));
    let result = Batch::start(&all, &vec![0x51], &vec![0x52], &key_encodings(), 4, &policy, 3);
    assert_eq!(result.err(), Some(KeyError::QuorumOutOfRange));
}

#[test]
fn plan_with_a_validated_key_set_matches_start() {
    let set = CustodianKeySet::from_encodings(&key_encodings(), 2).unwrap();
    let policy = SweepPolicy::standard();
    let (batch, actions) =
        Batch::plan(&outputs(1001, 3), &vec![0x51], &vec![0x52], &set, &policy, 3);
    assert_eq!(batch.len(), 2);
    assert_eq!(actions.len(), 2);
    assert_eq!(batch.task(0).unwrap().utxo_count(), 500);
    assert_eq!(batch.task(1).unwrap().utxo_count(), 1);
    assert_eq!(batch.task(1).unwrap().amount(), Some(3));
    assert_eq!(batch.task(1).unwrap().threshold(), 2);
}
