use unstaking::chunk::{
    ChunkAction, ChunkEvent, ChunkFailure, ChunkOutcome, ChunkPhase, ChunkTask,
};
use unstaking::keys::CustodianKeySet;
use unstaking::sweep::{ChunkError, SweepPolicy, Utxo};

fn parse_hex(text: &str) -> Vec<u8> {
    (0..text.len() / 2).map(|i| u8::from_str_radix(&text[2 * i..2 * i + 2], 16).unwrap()).collect()
}

fn custodian_set(quorum: u8) -> CustodianKeySet {
    let keys = vec![
        parse_hex("0279be667ef9dcbbac55a06295ce870b07029bfcdb2dce28d959f2815b16f81798"),
        parse_hex("02c6047f9441ed7d6d3045406e95c07cd85c778e4b8cef3ca7abac09b95c709ee5"),
        parse_hex("02f9308a019258c31049344f85f89d5229b531c845836f99b08601f113bce036f9"),
    ];
    CustodianKeySet::from_encodings(&keys, quorum).unwrap()
}

fn chunk_of(amounts: &[u64]) -> Vec<Utxo> {
    amounts
        .iter()
        .enumerate()
        .map(|(i, amount)| Utxo { txid: [i as u8; 32], vout: 1, amount: *amount, height: 7 })
        .collect()
}

fn started(quorum: u8, signers: usize) -> ChunkTask {
    let (task, action) = ChunkTask::start(
        4,
        &chunk_of(&[10_000, 20_000]),
        &vec![0x51],
        &vec![0x52],
        &custodian_set(quorum),
        &SweepPolicy::standard(),
        signers,
    );
    assert!(matches!(action, ChunkAction::Build(_)));
    task
}

fn failed(failure: ChunkFailure) -> ChunkPhase {
    ChunkPhase::Done(ChunkOutcome::Failed(failure))
}

#[test]
fn task_starts_with_the_request_for_its_chunk() {
    let (task, action) = ChunkTask::start(
        4,
        &chunk_of(&[10_000, 20_000]),
        &vec![0x51],
        &vec![0x52],
        &custodian_set(2),
        &SweepPolicy::standard(),
        3,
    );
    assert_eq!(task.index(), 4);
    assert_eq!(task.utxo_count(), 2);
    assert_eq!(task.amount(), Some(30_000));
    assert_eq!(task.signer_count(), 3);
    assert_eq!(task.threshold(), 2);
    assert_eq!(task.phase(), ChunkPhase::Building);
    assert_eq!(task.outcome(), None);
    assert!(!task.is_done());
    match action {
        ChunkAction::Build(request) => {
            assert_eq!(request.inputs().len(), 2);
            assert_eq!(request.outputs().len(), 1);
            assert_eq!(request.outputs()[0].amount(), 30_000);
            assert_eq!(request.fee_rate(), 2);
            assert!(!request.rbf());
        }
        other => panic!("unexpected action {:?}", other),
    }
}

#[test]
fn task_without_amount_ends_before_it_begins() {
    let (task, action) = ChunkTask::start(
        0,
        &chunk_of(&[0, 0]),
        &vec![0x51],
        &vec![0x52],
        &custodian_set(2),
        &SweepPolicy::standard(),
        3,
    );
    let failure = ChunkFailure::RequestRejected(ChunkError::NothingToSpend);
    assert_eq!(task.phase(), failed(failure));
    assert_eq!(task.amount(), Some(0));
    assert!(task.is_done());
    assert!(matches!(action, ChunkAction::Finish(ChunkOutcome::Failed(f)) if f == failure));
}

#[test]
fn task_with_overflowing_amount_ends_before_it_begins() {
    let (task, action) = ChunkTask::start(
        0,
        &chunk_of(&[u64::MAX, 1]),
        &vec![0x51],
        &vec![0x52],
        &custodian_set(2),
        &SweepPolicy::standard(),
        3,
    );
    let failure = ChunkFailure::RequestRejected(ChunkError::AmountOverflow);
    assert_eq!(task.outcome(), Some(ChunkOutcome::Failed(failure)));
    assert_eq!(task.amount(), None);
    assert!(matches!(action, ChunkAction::Finish(ChunkOutcome::Failed(f)) if f == failure));
}

#[test]
fn chunk_runs_from_build_to_broadcast() {
    let mut task = started(2, 3);
    assert!(matches!(
        task.advance(ChunkEvent::Built { ok: true }),
        ChunkAction::Sign { key: 0 }
    ));
    assert_eq!(task.phase(), ChunkPhase::Signing { next_key: 0, valid: 0 });
    assert!(matches!(
        task.advance(ChunkEvent::Signed { ok: true }),
        ChunkAction::Sign { key: 1 }
    ));
    assert!(matches!(
        task.advance(ChunkEvent::Signed { ok: true }),
        ChunkAction::Sign { key: 2 }
    ));
    assert_eq!(task.phase(), ChunkPhase::Signing { next_key: 2, valid: 2 });
    assert!(matches!(task.advance(ChunkEvent::Signed { ok: true }), ChunkAction::Extract));
    assert_eq!(task.phase(), ChunkPhase::Extracting);
    let action = task.advance(ChunkEvent::Extracted { transaction: Some(vec![0x02, 0x00, 0xab]) });
    assert!(matches!(action, ChunkAction::Broadcast { ref payload } if payload == "0200ab"));
    assert_eq!(task.phase(), ChunkPhase::Broadcasting);
    assert!(!task.is_done());
    assert!(matches!(
        task.advance(ChunkEvent::Broadcasted { ok: true }),
        ChunkAction::Finish(ChunkOutcome::Sent)
    ));
    assert_eq!(task.outcome(), Some(ChunkOutcome::Sent));
    assert!(task.is_done());
}

#[test]
fn build_failure_ends_the_chunk() {
    let mut task = started(2, 3);
    assert!(matches!(
        task.advance(ChunkEvent::Built { ok: false }),
        ChunkAction::Finish(ChunkOutcome::Failed(ChunkFailure::BuildFailed))
    ));
    assert_eq!(task.phase(), failed(ChunkFailure::BuildFailed));
}

#[test]
fn failed_signature_does_not_stop_the_signing() {
    let mut task = started(2, 3);
    task.advance(ChunkEvent::Built { ok: true });
    assert!(matches!(
        task.advance(ChunkEvent::Signed { ok: false }),
        ChunkAction::Sign { key: 1 }
    ));
    assert_eq!(task.phase(), ChunkPhase::Signing { next_key: 1, valid: 0 });
    assert!(matches!(
        task.advance(ChunkEvent::Signed { ok: true }),
        ChunkAction::Sign { key: 2 }
    ));
    assert!(matches!(task.advance(ChunkEvent::Signed { ok: true }), ChunkAction::Extract));
}

#[test]
fn one_signature_short_of_the_quorum_is_not_extracted() {
    // Threshold 3, two keys sign.
    let mut task = started(3, 3);
    task.advance(ChunkEvent::Built { ok: true });
    task.advance(ChunkEvent::Signed { ok: true });
    task.advance(ChunkEvent::Signed { ok: false });
    assert!(matches!(
        task.advance(ChunkEvent::Signed { ok: true }),
        ChunkAction::Finish(ChunkOutcome::Failed(ChunkFailure::InsufficientSignatures))
    ));
    assert_eq!(task.phase(), failed(ChunkFailure::InsufficientSignatures));

    // Threshold 2, only one signing key at hand.
    let mut task = started(2, 1);
    task.advance(ChunkEvent::Built { ok: true });
    assert!(matches!(
        task.advance(ChunkEvent::Signed { ok: true }),
        ChunkAction::Finish(ChunkOutcome::Failed(ChunkFailure::InsufficientSignatures))
    ));
}

#[test]
fn quorum_is_met_exactly_at_the_threshold() {
    for threshold in 1..=3u8 {
        for pattern in 0..8u8 {
            let signed: Vec<bool> = (0..3).map(|k| pattern & (1 << k) != 0).collect();
            let valid = signed.iter().filter(|ok| **ok).count();
            let mut task = started(threshold, 3);
            task.advance(ChunkEvent::Built { ok: true });
            task.advance(ChunkEvent::Signed { ok: signed[0] });
            task.advance(ChunkEvent::Signed { ok: signed[1] });
            task.advance(ChunkEvent::Signed { ok: signed[2] });
            if valid >= threshold as usize {
                assert_eq!(task.phase(), ChunkPhase::Extracting);
            } else {
                assert_eq!(task.phase(), failed(ChunkFailure::InsufficientSignatures));
            }
        }
    }
}

#[test]
fn no_signing_key_means_no_quorum() {
    let mut task = started(1, 0);
    assert!(matches!(
        task.advance(ChunkEvent::Built { ok: true }),
        ChunkAction::Finish(ChunkOutcome::Failed(ChunkFailure::InsufficientSignatures))
    ));
}

#[test]
fn extraction_failure_ends_the_chunk() {
    let mut task = started(1, 1);
    task.advance(ChunkEvent::Built { ok: true });
    assert!(matches!(task.advance(ChunkEvent::Signed { ok: true }), ChunkAction::Extract));
    assert!(matches!(
        task.advance(ChunkEvent::Extracted { transaction: None }),
        ChunkAction::Finish(ChunkOutcome::Failed(ChunkFailure::ExtractionFailed))
    ));
    assert_eq!(task.phase(), failed(ChunkFailure::ExtractionFailed));
}

#[test]
fn broadcast_failure_ends_the_chunk() {
    let mut task = started(1, 1);
    task.advance(ChunkEvent::Built { ok: true });
    task.advance(ChunkEvent::Signed { ok: true });
    task.advance(ChunkEvent::Extracted { transaction: Some(vec![1]) });
    assert!(matches!(
        task.advance(ChunkEvent::Broadcasted { ok: false }),
        ChunkAction::Finish(ChunkOutcome::Failed(ChunkFailure::BroadcastFailed))
    ));
    assert_eq!(task.outcome(), Some(ChunkOutcome::Failed(ChunkFailure::BroadcastFailed)));
}

#[test]
fn unexpected_events_are_ignored() {
    let mut task = started(1, 2);
    assert!(matches!(task.advance(ChunkEvent::Signed { ok: true }), ChunkAction::Ignore));
    assert!(matches!(
        task.advance(ChunkEvent::Extracted { transaction: Some(vec![1]) }),
        ChunkAction::Ignore
    ));
    assert!(matches!(task.advance(ChunkEvent::Broadcasted { ok: true }), ChunkAction::Ignore));
    assert_eq!(task.phase(), ChunkPhase::Building);
    task.advance(ChunkEvent::Built { ok: true });
    assert!(matches!(task.advance(ChunkEvent::Built { ok: false }), ChunkAction::Ignore));
    assert_eq!(task.phase(), ChunkPhase::Signing { next_key: 0, valid: 0 });
}

#[test]
fn ended_chunk_stays_ended() {
    let mut task = started(1, 1);
    task.advance(ChunkEvent::Built { ok: false });
    for _ in 0..3 {
        assert!(matches!(task.advance(ChunkEvent::Built { ok: true }), ChunkAction::Ignore));
        assert!(matches!(task.advance(ChunkEvent::Signed { ok: true }), ChunkAction::Ignore));
        assert!(matches!(task.advance(ChunkEvent::Broadcasted { ok: true }), ChunkAction::Ignore));
    }
    assert_eq!(task.phase(), failed(ChunkFailure::BuildFailed));
}

#[test]
fn chunk_ends_within_its_bound_of_events() {
    for signers in 0..5usize {
        let mut task = started(1, signers);
        let mut events = 0;
        let mut action = task.advance(ChunkEvent::Built { ok: true });
        events += 1;
        while !task.is_done() {
            let event = match action {
                ChunkAction::Sign { .. } => ChunkEvent::Signed { ok: true },
                ChunkAction::Extract => ChunkEvent::Extracted { transaction: Some(vec![9]) },
                ChunkAction::Broadcast { .. } => ChunkEvent::Broadcasted { ok: true },
                other => panic!("unexpected action {:?}", other),
            };
            action = task.advance(event);
            events += 1;
            assert!(events <= signers + 3);
        }
        if signers == 0 {
            assert_eq!(task.outcome(), Some(ChunkOutcome::Failed(ChunkFailure::InsufficientSignatures)));
        } else {
            assert_eq!(task.outcome(), Some(ChunkOutcome::Sent));
            assert_eq!(events, signers + 3);
        }
    }
}
