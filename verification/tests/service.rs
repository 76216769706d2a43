use ed25519_dalek::{Signature, Verifier, VerifyingKey};
use nautilus_oracle::audit::AuditLog;
use nautilus_oracle::codec::ResolutionRecord;
use nautilus_oracle::digest::{compute_hash, fingerprint};
use nautilus_oracle::hexcode::to_hex;
use nautilus_oracle::identity::{verify, SigningIdentity};
use nautilus_oracle::service::{
    attest, check_timing, status_is_success, step, Action, Event, MediaReply, ResolutionRequest,
    ResolveError, SignedAttestation, SourceReply, Stage, MEDIA_TIMEOUT_SECS, NO_SOURCE,
    SOURCE_TIMEOUT_SECS,
};

fn identity() -> SigningIdentity {
    SigningIdentity::from_secret([42; 32])
}

fn request(source: Option<&str>, image: Option<&str>) -> ResolutionRequest {
    ResolutionRequest {
        market_id: 7,
        market_question: "Will BTC reach $100k?".to_string(),
        market_end_time: 1_000,
        data_source_url: source.map(|s| s.to_string()),
        image_url: image.map(|s| s.to_string()),
    }
}

fn source(status: u16, body: &str) -> Event {
    Event::Source { reply: Some(SourceReply { status, body: body.to_string() }) }
}

fn media(status: u16, bytes: &[u8]) -> Event {
    Event::Media { reply: Some(MediaReply { status, bytes: bytes.to_vec() }) }
}

fn persisted(action: Action) -> SignedAttestation {
    match action {
        Action::Persist { attestation } => attestation,
        other => panic!("expected Persist, got {:?}", other),
    }
}

fn check(attestation: &SignedAttestation) {
    let bytes = attestation.record.encode().unwrap();
    assert!(verify(&attestation.public_key, &bytes, &attestation.signature));
    // and by the signature crate itself
    let key = VerifyingKey::from_bytes(&attestation.public_key).unwrap();
    assert!(key.verify(&bytes, &Signature::from_bytes(&attestation.signature)).is_ok());
}

#[test]
fn timing_gate() {
    let r = request(None, None);
    assert_eq!(check_timing(&r, 999), Err(ResolveError::EarlyResolutionAttempt));
    assert_eq!(check_timing(&r, 1_000), Ok(()));
    assert_eq!(check_timing(&r, 1_001), Ok(()));
}

#[test]
fn early_request_is_rejected_before_any_fetch() {
    let r = request(Some("http://source"), Some("http://image"));
    let (stage, action) = step(&identity(), &r, Stage::Received, Event::Clock { now: 999 });
    assert_eq!(stage, Stage::RejectedEarlyClose);
    assert_eq!(action, Action::Reject { error: ResolveError::EarlyResolutionAttempt });
    // nothing moves a rejected request
    let events = [
        Event::Clock { now: 2_000 },
        source(200, "{\"outcome\": true}"),
        media(200, &[1]),
        Event::Persisted { stored: true },
    ];
    for event in events {
        let (stage, action) = step(&identity(), &r, Stage::RejectedEarlyClose, event);
        assert_eq!(stage, Stage::RejectedEarlyClose);
        assert_eq!(action, Action::Nothing);
    }
}

#[test]
fn market_may_be_resolved_at_its_end_time() {
    let r = request(Some("http://source"), None);
    let (stage, action) = step(&identity(), &r, Stage::Received, Event::Clock { now: 1_000 });
    assert_eq!(stage, Stage::TimingValidated { now: 1_000 });
    assert_eq!(
        action,
        Action::FetchSource { url: "http://source".to_string(), timeout_secs: 10 }
    );
    assert_eq!(SOURCE_TIMEOUT_SECS, 10);
}

#[test]
fn no_data_source_resolves_to_false() {
    let r = request(None, None);
    let (stage, action) = step(&identity(), &r, Stage::Received, Event::Clock { now: 1_500 });
    let attestation = persisted(action);
    assert_eq!(stage, Stage::Signed { attestation: attestation.clone() });
    assert_eq!(
        attestation.record,
        ResolutionRecord {
            market_id: 7,
            outcome: false,
            source_data: "No external data source provided".to_string(),
            source_data_hash: compute_hash(NO_SOURCE),
            resolution_timestamp: 1_500,
            media_hash: [0; 32],
        }
    );
    assert_eq!(attestation.public_key, identity().public_key());
    check(&attestation);
}

#[test]
fn full_run_with_source_and_image() {
    let r = request(Some("http://source"), Some("http://image"));
    let id = identity();
    let (stage, action) = step(&id, &r, Stage::Received, Event::Clock { now: 2_000 });
    assert!(matches!(action, Action::FetchSource { .. }));
    let (stage, action) = step(&id, &r, stage, source(200, "{\"price\": 105000}"));
    assert_eq!(
        action,
        Action::FetchMedia { url: "http://image".to_string(), timeout_secs: 10 }
    );
    assert_eq!(MEDIA_TIMEOUT_SECS, 10);
    assert_eq!(
        stage,
        Stage::OutcomeInferred {
            now: 2_000,
            outcome: true,
            source_data: "Price: $105000.00, Target: $100000.00".to_string(),
        }
    );
    let image = vec![0x89, 0x50, 0x4E, 0x47];
    let (stage, action) = step(&id, &r, stage, media(200, &image));
    let attestation = persisted(action);
    assert!(attestation.record.outcome);
    assert_eq!(attestation.record.resolution_timestamp, 2_000);
    assert_eq!(attestation.record.media_hash, fingerprint(&image));
    assert_eq!(
        attestation.record.source_data_hash,
        compute_hash("Price: $105000.00, Target: $100000.00")
    );
    check(&attestation);
    let (stage, action) = step(&id, &r, stage, Event::Persisted { stored: true });
    assert_eq!(stage, Stage::Responded);
    assert_eq!(action, Action::Respond { attestation });
}

#[test]
fn failed_fetch_signs_nothing() {
    let r = request(Some("http://source"), Some("http://image"));
    let id = identity();
    let (stage, _) = step(&id, &r, Stage::Received, Event::Clock { now: 2_000 });
    let (stage, action) = step(&id, &r, stage, Event::Source { reply: None });
    assert_eq!(stage, Stage::InferenceFailed);
    assert_eq!(action, Action::Reject { error: ResolveError::DataSourceUnavailable });
    let (stage, action) = step(&id, &r, stage, Event::Media { reply: None });
    assert_eq!(stage, Stage::InferenceFailed);
    assert_eq!(action, Action::Nothing);
}

#[test]
fn failed_image_leaves_the_zero_digest() {
    let r = request(Some("http://source"), Some("http://image"));
    let id = identity();
    let (stage, _) = step(&id, &r, Stage::Received, Event::Clock { now: 2_000 });
    let (stage, _) = step(&id, &r, stage, source(200, "The event was cancelled"));
    let (_, action) = step(&id, &r, stage, Event::Media { reply: None });
    let attestation = persisted(action);
    assert!(!attestation.record.outcome);
    assert_eq!(attestation.record.source_data, "The event was cancelled");
    assert_eq!(attestation.record.media_hash, [0; 32]);
    check(&attestation);
}

#[test]
fn status_that_is_no_success_is_a_failed_fetch() {
    let r = request(Some("http://source"), None);
    let id = identity();
    for status in [100, 199, 300, 301, 404, 500, 503] {
        let (stage, _) = step(&id, &r, Stage::Received, Event::Clock { now: 2_000 });
        // the body says yes, but it is the body of an error
        let (stage, action) = step(&id, &r, stage, source(status, "{\"outcome\": true}"));
        assert_eq!(stage, Stage::InferenceFailed, "{}", status);
        assert_eq!(action, Action::Reject { error: ResolveError::DataSourceUnavailable });
    }
    for status in [200, 201, 204, 299] {
        let (stage, _) = step(&id, &r, Stage::Received, Event::Clock { now: 2_000 });
        let (_, action) = step(&id, &r, stage, source(status, "{\"outcome\": true}"));
        assert!(persisted(action).record.outcome, "{}", status);
    }
}

#[test]
fn image_with_a_status_that_is_no_success_is_not_hashed() {
    let r = request(None, Some("http://image"));
    let id = identity();
    let (stage, action) = step(&id, &r, Stage::Received, Event::Clock { now: 2_000 });
    assert!(matches!(action, Action::FetchMedia { .. }));
    let (_, action) = step(&id, &r, stage.clone(), media(404, b"not found"));
    assert_eq!(persisted(action).record.media_hash, [0; 32]);
    let (_, action) = step(&id, &r, stage, media(200, b"not found"));
    assert_eq!(persisted(action).record.media_hash, fingerprint(b"not found"));
}

#[test]
fn success_is_a_status_in_the_two_hundreds() {
    assert!(!status_is_success(0));
    assert!(!status_is_success(199));
    assert!(status_is_success(200));
    assert!(status_is_success(299));
    assert!(!status_is_success(300));
    assert!(!status_is_success(u16::MAX));
}

#[test]
fn failed_persistence_does_not_fail_the_response() {
    let r = request(None, None);
    let id = identity();
    let (stage, action) = step(&id, &r, Stage::Received, Event::Clock { now: 2_000 });
    let attestation = persisted(action);
    let (stage, action) = step(&id, &r, stage, Event::Persisted { stored: false });
    assert_eq!(stage, Stage::Responded);
    assert_eq!(action, Action::Respond { attestation });
}

#[test]
fn event_out_of_turn_changes_nothing() {
    let r = request(Some("http://source"), None);
    let id = identity();
    let (stage, action) = step(&id, &r, Stage::Received, Event::Persisted { stored: true });
    assert_eq!(stage, Stage::Received);
    assert_eq!(action, Action::Nothing);
    let waiting = Stage::TimingValidated { now: 5 };
    let (stage, action) = step(&id, &r, waiting.clone(), Event::Media { reply: None });
    assert_eq!(stage, waiting);
    assert_eq!(action, Action::Nothing);
    let (stage, action) = step(&id, &r, Stage::Responded, Event::Clock { now: 5_000 });
    assert_eq!(stage, Stage::Responded);
    assert_eq!(action, Action::Nothing);
}

#[test]
fn attest_builds_and_signs_the_record() {
    let id = identity();
    let attestation = attest(&id, 9, true, "evidence".to_string(), 77, Some(&[1, 2, 3])).unwrap();
    assert_eq!(
        attestation.record,
        ResolutionRecord {
            market_id: 9,
            outcome: true,
            source_data: "evidence".to_string(),
            source_data_hash: compute_hash("evidence"),
            resolution_timestamp: 77,
            media_hash: fingerprint(&[1, 2, 3]),
        }
    );
    assert_eq!(attestation.signature, id.sign(&attestation.record.encode().unwrap()));
    assert_eq!(attestation.public_key, id.public_key());
    assert_eq!(attestation.duplicate(), attestation);
    check(&attestation);
}

#[test]
fn altered_record_does_not_verify() {
    let id = identity();
    let attestation = attest(&id, 9, true, "evidence".to_string(), 77, None).unwrap();
    let bytes = attestation.record.encode().unwrap();
    for i in 0..bytes.len() {
        let mut altered = bytes.clone();
        altered[i] ^= 0x01;
        assert!(!verify(&attestation.public_key, &altered, &attestation.signature));
    }
    let mut flipped = attestation.record.clone();
    flipped.outcome = false;
    assert!(!verify(&attestation.public_key, &flipped.encode().unwrap(), &attestation.signature));
}

#[test]
fn response_carries_hex_text() {
    let id = identity();
    let attestation = attest(&id, 9, true, "evidence".to_string(), 77, None).unwrap();
    let response = attestation.to_response();
    assert_eq!(response.market_id, 9);
    assert!(response.outcome);
    assert_eq!(response.source_data, "evidence");
    assert_eq!(response.source_data_hash, to_hex(&compute_hash("evidence")));
    assert_eq!(response.resolution_timestamp, 77);
    assert_eq!(response.media_hash, "0".repeat(64));
    assert_eq!(response.signature, to_hex(&attestation.signature));
    assert_eq!(response.signature.len(), 128);
    assert_eq!(response.public_key, to_hex(&id.public_key()));
}

#[test]
fn errors_map_to_statuses() {
    assert_eq!(ResolveError::EarlyResolutionAttempt.http_status(), 400);
    assert_eq!(ResolveError::DataSourceUnavailable.http_status(), 500);
    assert_eq!(ResolveError::SourceDataTooLong.http_status(), 500);
}

#[test]
fn replay_gives_two_valid_signatures_and_one_row() {
    let r = request(None, None);
    let id = identity();
    let mut log = AuditLog::new();
    let first = persisted(step(&id, &r, Stage::Received, Event::Clock { now: 3_000 }).1);
    let second = persisted(step(&id, &r, Stage::Received, Event::Clock { now: 3_000 }).1);
    check(&first);
    check(&second);
    assert_eq!(first.signature, second.signature);
    assert!(log.append(first.duplicate()));
    assert!(!log.append(second));
    assert_eq!(log.len(), 1);
    assert_eq!(log.get(0), Some(&first));
    assert!(log.contains(7, 3_000));
}

#[test]
fn audit_log_keeps_the_first_entry_under_a_key() {
    let id = identity();
    let mut log = AuditLog::new();
    assert_eq!(log.len(), 0);
    assert_eq!(log.get(0), None);
    let a = attest(&id, 1, true, "first".to_string(), 10, None).unwrap();
    let b = attest(&id, 1, false, "second".to_string(), 10, None).unwrap();
    let c = attest(&id, 1, false, "later".to_string(), 11, None).unwrap();
    let d = attest(&id, 2, true, "other market".to_string(), 10, None).unwrap();
    assert!(log.append(a.duplicate()));
    assert!(!log.append(b));
    assert!(log.append(c.duplicate()));
    assert!(log.append(d.duplicate()));
    assert_eq!(log.len(), 3);
    assert_eq!(log.get(0), Some(&a));
    assert_eq!(log.get(1), Some(&c));
    assert_eq!(log.get(2), Some(&d));
    assert_eq!(log.get(3), None);
    assert!(log.contains(1, 10));
    assert!(log.contains(1, 11));
    assert!(!log.contains(2, 11));
}
