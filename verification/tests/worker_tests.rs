use hash_finder::{calculate_hash, hash_worker, WorkerAction, WorkerEvent};

#[test]
fn worker_claims_after_start() {
    assert!(matches!(hash_worker(WorkerEvent::Started, 3), WorkerAction::Claim));
}

#[test]
fn worker_claims_after_delivery() {
    assert!(matches!(hash_worker(WorkerEvent::Delivered, 3), WorkerAction::Claim));
}

#[test]
fn worker_leaves_when_disconnected() {
    assert!(matches!(hash_worker(WorkerEvent::Disconnected, 0), WorkerAction::Exit));
    assert!(matches!(hash_worker(WorkerEvent::Disconnected, 64), WorkerAction::Exit));
}

#[test]
fn worker_sends_a_match_with_its_digest() {
    match hash_worker(WorkerEvent::Claimed(23), 1) {
        WorkerAction::Send(candidate, digest) => {
            assert_eq!(candidate, 23);
            assert_eq!(
                digest,
                "535fa30d7e25dd8a49f1536779734ec8286108d115da5045d77f3b4185d8f790"
            );
        }
        other => panic!("expected a send, got {:?}", other),
    }
}

#[test]
fn worker_passes_over_a_candidate_that_is_no_match() {
    assert!(matches!(hash_worker(WorkerEvent::Claimed(23), 2), WorkerAction::Claim));
    assert!(matches!(hash_worker(WorkerEvent::Claimed(1), 1), WorkerAction::Claim));
}

#[test]
fn worker_sends_every_candidate_when_no_zeros_are_asked_for() {
    for candidate in [0u64, 1, 2, 3, 1000, u64::MAX] {
        match hash_worker(WorkerEvent::Claimed(candidate), 0) {
            WorkerAction::Send(sent, digest) => {
                assert_eq!(sent, candidate);
                assert_eq!(digest, calculate_hash(candidate));
            }
            other => panic!("expected a send, got {:?}", other),
        }
    }
}

#[test]
fn worker_finds_the_first_matches_in_order() {
    let mut found = Vec::new();
    for candidate in 1..=150u64 {
        if let WorkerAction::Send(sent, _) = hash_worker(WorkerEvent::Claimed(candidate), 1) {
            found.push(sent);
        }
    }
    assert_eq!(found, vec![23, 38, 76, 105, 133, 144]);
}
