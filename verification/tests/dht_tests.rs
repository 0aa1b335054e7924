use hotstuff_core::dht::{GetOutcome, GetSession, PutSession};
use hotstuff_core::handle::NetworkNodeHandleError;

#[test]
fn get_accepts_after_two_identical_responses() {
    let mut s = GetSession::new(b"peer/0".to_vec(), 3);
    let value = b"peer_id_0".to_vec();
    assert_eq!(s.on_response(value.clone()), None);
    // A different record does not help the quorum.
    assert_eq!(s.on_response(b"other".to_vec()), None);
    // The second byte-identical copy completes the get.
    assert_eq!(s.on_response(value.clone()), Some(value));
}

#[test]
fn get_needs_byte_identical_copies() {
    let mut s = GetSession::new(b"k".to_vec(), 0);
    assert_eq!(s.on_response(b"aa".to_vec()), None);
    assert_eq!(s.on_response(b"ab".to_vec()), None);
    assert_eq!(s.on_response(b"ba".to_vec()), None);
    assert_eq!(s.on_response(b"ab".to_vec()), Some(b"ab".to_vec()));
}

#[test]
fn get_retries_then_fails_with_dht_error() {
    let mut s = GetSession::new(b"peer/0".to_vec(), 2);
    assert_eq!(s.on_response(b"v".to_vec()), None);
    // Each failed round clears the partial responses and burns one retry.
    assert_eq!(s.on_round_failed(), GetOutcome::Retry);
    assert_eq!(s.responses.len(), 0);
    assert_eq!(s.retries_left, 1);
    assert_eq!(s.on_round_failed(), GetOutcome::Retry);
    assert_eq!(s.on_round_failed(), GetOutcome::Fail(NetworkNodeHandleError::Dht));
}

#[test]
fn put_requires_at_least_two_acks() {
    let mut p = PutSession::new(0);
    assert_eq!(p.required, 2);
    assert!(!p.on_ack());
    assert!(p.on_ack());

    let mut p3 = PutSession::new(3);
    assert!(!p3.on_ack());
    assert!(!p3.on_ack());
    assert!(p3.on_ack());
}

#[test]
fn put_then_get_round_trip_with_two_holders() {
    // A publisher stores a record; two holders answer the query with the
    // byte-identical value, and the get returns it.
    let mut put = PutSession::new(2);
    assert!(!put.on_ack());
    assert!(put.on_ack());
    let stored = b"peer_id_0".to_vec();
    let mut get = GetSession::new(b"peer/0".to_vec(), 1);
    assert_eq!(get.on_response(stored.clone()), None);
    assert_eq!(get.on_response(stored.clone()), Some(stored));
}

#[test]
fn get_fails_when_only_one_holder_remains() {
    // With two of three holders gone, only one response ever arrives:
    // every round times out until the retries are exhausted.
    let mut get = GetSession::new(b"peer/0".to_vec(), 2);
    assert_eq!(get.on_response(b"peer_id_0".to_vec()), None);
    assert_eq!(get.on_round_failed(), GetOutcome::Retry);
    assert_eq!(get.on_response(b"peer_id_0".to_vec()), None);
    assert_eq!(get.on_round_failed(), GetOutcome::Retry);
    assert_eq!(get.on_response(b"peer_id_0".to_vec()), None);
    assert_eq!(get.on_round_failed(), GetOutcome::Fail(NetworkNodeHandleError::Dht));
}
