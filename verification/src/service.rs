//! Resolution of a market: the steps from an inbound request to a signed
//! attestation.
//!
//! The service decides; its caller acts. Each call of [`step`] takes the
//! stage that a request has reached and what has just happened, and gives
//! the next stage and the one thing to do next: fetch the data source, fetch
//! the image, persist, respond or reject.

use vstd::prelude::*;
use vstd::utf8::encode_utf8;
use crate::codec::{RecordView, ResolutionRecord};
use crate::digest::{compute_hash, media_hash, sha256, zero_digest};
use crate::hexcode::{hex_encode, hex_text};
use crate::identity::{ed25519_accepts, ed25519_public_key, ed25519_signature, SigningIdentity};
use crate::inference::{infer, inferred};
use crate::json::json_document;

verus! {

/// Seconds after which a fetch of the data source is given up.
pub const SOURCE_TIMEOUT_SECS: u64 = 10;

/// Seconds after which a fetch of the image is given up.
pub const MEDIA_TIMEOUT_SECS: u64 = 10;

/// The justification of a resolution that had no data source to consult.
pub const NO_SOURCE: &'static str = "No external data source provided";

/// An inbound request to resolve a market.
#[derive(Debug, Clone, PartialEq, Eq)]
pub struct ResolutionRequest {
    pub market_id: u64,
    pub market_question: String,
    pub market_end_time: u64,
    pub data_source_url: Option<String>,
    pub image_url: Option<String>,
}

/// A resolution record with the signature over its canonical bytes and the
/// key that verifies it.
#[derive(Debug, Clone, PartialEq, Eq)]
pub struct SignedAttestation {
    pub record: ResolutionRecord,
    pub signature: [u8; 64],
    pub public_key: [u8; 32],
}

/// A signed attestation as a mathematical value.
pub struct AttestationView {
    pub record: RecordView,
    pub signature: Seq<u8>,
    pub public_key: Seq<u8>,
}

impl View for SignedAttestation {
    type V = AttestationView;

    open spec fn view(&self) -> AttestationView {
        AttestationView {
            record: self.record@,
            signature: self.signature@,
            public_key: self.public_key@,
        }
    }
}

/// An attestation as it is sent and stored: digests, signature and key as
/// hexadecimal text.
#[derive(Debug, Clone, PartialEq, Eq)]
pub struct ResolutionResponse {
    pub market_id: u64,
    pub outcome: bool,
    pub source_data: String,
    pub source_data_hash: String,
    pub resolution_timestamp: u64,
    pub media_hash: String,
    pub signature: String,
    pub public_key: String,
}

/// Why a request got no attestation.
#[derive(Debug, Clone, Copy, PartialEq, Eq)]
pub enum ResolveError {
    /// The market has not ended yet.
    EarlyResolutionAttempt,
    /// The data source gave no usable response.
    DataSourceUnavailable,
    /// The justification does not fit the record's length field.
    SourceDataTooLong,
}

impl ResolveError {
    /// The HTTP status that reports the error: 400 for a request that came
    /// too early, which is the caller's fault, and 500 for the others.
    pub fn http_status(self) -> (out: u16)
        ensures
            out == if self == ResolveError::EarlyResolutionAttempt {
                400u16
            } else {
                500u16
            },
    {
        match self {
            ResolveError::EarlyResolutionAttempt => 400,
            ResolveError::DataSourceUnavailable => 500,
            ResolveError::SourceDataTooLong => 500,
        }
    }
}

/// The record of a resolution.
pub open spec fn record_of(
    market_id: u64,
    outcome: bool,
    source_data: Seq<char>,
    now: u64,
    media: Option<Seq<u8>>,
) -> RecordView {
    RecordView {
        market_id,
        outcome,
        source_data,
        source_data_hash: sha256(encode_utf8(source_data)),
        resolution_timestamp: now,
        media_hash: match media {
            Some(bytes) => sha256(bytes),
            None => zero_digest(),
        },
    }
}

/// The attestation that a key gives a record: the signature is over the
/// record's canonical bytes.
pub open spec fn attestation_of(secret: Seq<u8>, record: RecordView) -> AttestationView {
    AttestationView {
        record,
        signature: ed25519_signature(secret, record.encoded()),
        public_key: ed25519_public_key(secret),
    }
}

impl AttestationView {
    /// The signature is accepted under the public key for the record's
    /// canonical bytes.
    pub open spec fn verifies(self) -> bool {
        ed25519_accepts(self.public_key, self.record.encoded(), self.signature)
    }
}

fn copy_text(s: &String) -> (out: String)
    ensures
        out@ == s@,
{
    s.clone()
}

impl SignedAttestation {
    /// A copy of the attestation.
    pub fn duplicate(&self) -> (out: SignedAttestation)
        ensures
            out@ == self@,
    {
        SignedAttestation {
            record: ResolutionRecord {
                market_id: self.record.market_id,
                outcome: self.record.outcome,
                source_data: copy_text(&self.record.source_data),
                source_data_hash: self.record.source_data_hash,
                resolution_timestamp: self.record.resolution_timestamp,
                media_hash: self.record.media_hash,
            },
            signature: self.signature,
            public_key: self.public_key,
        }
    }

    /// The attestation as it is sent and stored.
    pub fn to_response(&self) -> (out: ResolutionResponse)
        ensures
            out.market_id == self@.record.market_id,
            out.outcome == self@.record.outcome,
            out.source_data@ == self@.record.source_data,
            out.source_data_hash@ == hex_text(self@.record.source_data_hash),
            out.resolution_timestamp == self@.record.resolution_timestamp,
            out.media_hash@ == hex_text(self@.record.media_hash),
            out.signature@ == hex_text(self@.signature),
            out.public_key@ == hex_text(self@.public_key),
    {
        ResolutionResponse {
            market_id: self.record.market_id,
            outcome: self.record.outcome,
            source_data: copy_text(&self.record.source_data),
            source_data_hash: hex_encode(self.record.source_data_hash.as_slice()),
            resolution_timestamp: self.record.resolution_timestamp,
            media_hash: hex_encode(self.record.media_hash.as_slice()),
            signature: hex_encode(self.signature.as_slice()),
            public_key: hex_encode(self.public_key.as_slice()),
        }
    }
}

/// Builds, encodes and signs the record of a resolution. `media` is the
/// retrieved image, if there was one to retrieve and it came.
pub fn attest(
    identity: &SigningIdentity,
    market_id: u64,
    outcome: bool,
    source_data: String,
    now: u64,
    media: Option<&[u8]>,
) -> (out: Result<SignedAttestation, ResolveError>)
    ensures
        out is Ok <==> encode_utf8(source_data@).len() <= u32::MAX,
        out matches Ok(a) ==> a@ == attestation_of(
            identity.secret(),
            record_of(
                market_id,
                outcome,
                source_data@,
                now,
                match media {
                    Some(bytes) => Some(bytes@),
                    None => None,
                },
            ),
        ) && a@.verifies() && a@.record.valid(),
        out matches Err(e) ==> e == ResolveError::SourceDataTooLong,
{
    let source_data_hash = compute_hash(source_data.as_str());
    let media_hash = media_hash(media);
    let record = ResolutionRecord {
        market_id,
        outcome,
        source_data,
        source_data_hash,
        resolution_timestamp: now,
        media_hash,
    };
    match record.encode() {
        Ok(bytes) => {
            let signature = identity.sign(bytes.as_slice());
            let public_key = identity.public_key();
            Ok(SignedAttestation { record, signature, public_key })
        },
        Err(_) => Err(ResolveError::SourceDataTooLong),
    }
}

/// What a fetch of the data source brought: the status of the response and
/// its body.
#[derive(Debug, Clone, PartialEq, Eq)]
pub struct SourceReply {
    pub status: u16,
    pub body: String,
}

/// What a fetch of the image brought: the status of the response and its
/// bytes.
#[derive(Debug, Clone, PartialEq, Eq)]
pub struct MediaReply {
    pub status: u16,
    pub bytes: Vec<u8>,
}

/// A status that reports success: 200 to 299.
pub open spec fn is_success(status: u16) -> bool {
    200 <= status <= 299
}

/// Whether a status reports success.
pub fn status_is_success(status: u16) -> (out: bool)
    ensures
        out == is_success(status),
{
    200 <= status && status <= 299
}

/// The body that a fetch of the data source gave: none where no response
/// came, on a network error or a timeout, and none where the response came
/// with a status that is not a success.
pub open spec fn usable_source(reply: Option<SourceReply>) -> Option<Seq<char>> {
    match reply {
        Some(r) => if is_success(r.status) {
            Some(r.body@)
        } else {
            None
        },
        None => None,
    }
}

/// The bytes that a fetch of the image gave, under the same conditions.
pub open spec fn usable_media(reply: Option<MediaReply>) -> Option<Seq<u8>> {
    match reply {
        Some(r) => if is_success(r.status) {
            Some(r.bytes@)
        } else {
            None
        },
        None => None,
    }
}

/// Whether the market may be resolved at `now`.
pub fn check_timing(request: &ResolutionRequest, now: u64) -> (out: Result<(), ResolveError>)
    ensures
        out is Ok <==> now >= request.market_end_time,
        out matches Err(e) ==> e == ResolveError::EarlyResolutionAttempt,
{
    if now < request.market_end_time {
        Err(ResolveError::EarlyResolutionAttempt)
    } else {
        Ok(())
    }
}

/// How far a request has come. A stage is where the request waits for
/// something from outside; hashing, encoding and signing wait for nothing
/// and are done within the step that has all they need.
#[derive(Debug, Clone, PartialEq, Eq)]
pub enum Stage {
    /// Nothing has been done yet.
    Received,
    /// The market has ended; the data source is being fetched.
    TimingValidated { now: u64 },
    /// The outcome is known; the image is being fetched.
    OutcomeInferred { now: u64, outcome: bool, source_data: String },
    /// The record is encoded and signed; it is being persisted.
    Signed { attestation: SignedAttestation },
    /// The attestation has been handed out.
    Responded,
    /// The market had not ended.
    RejectedEarlyClose,
    /// The data source could not be had.
    InferenceFailed,
    /// The justification was too long to encode.
    EncodingFailed,
}

/// What has just happened.
#[derive(Debug, Clone, PartialEq, Eq)]
pub enum Event {
    /// The request came in and the clock was read.
    Clock { now: u64 },
    /// The fetch of the data source ended: with a response, or without one
    /// on a network error or a timeout.
    Source { reply: Option<SourceReply> },
    /// The fetch of the image ended, with a response or without.
    Media { reply: Option<MediaReply> },
    /// The write of the audit copy ended, well or not.
    Persisted { stored: bool },
}

/// What to do next.
#[derive(Debug, Clone, PartialEq, Eq)]
pub enum Action {
    /// Fetch the data source, giving up after the timeout.
    FetchSource { url: String, timeout_secs: u64 },
    /// Fetch the image, giving up after the timeout.
    FetchMedia { url: String, timeout_secs: u64 },
    /// Write the audit copy; a failure is reported and goes no further.
    Persist { attestation: SignedAttestation },
    /// Hand the attestation to the caller.
    Respond { attestation: SignedAttestation },
    /// Refuse the request.
    Reject { error: ResolveError },
    /// The event does not belong to the stage: do nothing.
    Nothing,
}

impl Action {
    /// The action asks for something to be fetched.
    pub open spec fn is_fetch(self) -> bool {
        self is FetchSource || self is FetchMedia
    }
}

/// The record is sealed: signed and due to be persisted, or refused because
/// its justification is too long.
pub open spec fn sealed(
    secret: Seq<u8>,
    record: RecordView,
    next: Stage,
    action: Action,
) -> bool {
    if encode_utf8(record.source_data).len() <= u32::MAX {
        &&& next matches Stage::Signed { attestation: kept }
        &&& kept@ == attestation_of(secret, record)
        &&& action matches Action::Persist { attestation: sent }
        &&& sent@ == attestation_of(secret, record)
    } else {
        &&& next is EncodingFailed
        &&& action == (Action::Reject { error: ResolveError::SourceDataTooLong })
    }
}

/// With the outcome known, the image is fetched where the request names
/// one; else the record is sealed with the zero digest.
pub open spec fn proceeds(
    secret: Seq<u8>,
    request: ResolutionRequest,
    now: u64,
    outcome: bool,
    source_data: Seq<char>,
    next: Stage,
    action: Action,
) -> bool {
    match request.image_url {
        Some(wanted) => {
            &&& next matches Stage::OutcomeInferred { now: n, outcome: o, source_data: s }
            &&& n == now
            &&& o == outcome
            &&& s@ == source_data
            &&& action matches Action::FetchMedia { url, timeout_secs }
            &&& url@ == wanted@
            &&& timeout_secs == MEDIA_TIMEOUT_SECS
        },
        None => sealed(
            secret,
            record_of(request.market_id, outcome, source_data, now, None),
            next,
            action,
        ),
    }
}

/// The transition relation of a resolution.
pub open spec fn steps(
    secret: Seq<u8>,
    request: ResolutionRequest,
    stage: Stage,
    event: Event,
    next: Stage,
    action: Action,
) -> bool {
    match (stage, event) {
        (Stage::Received, Event::Clock { now }) => {
            if now < request.market_end_time {
                &&& next is RejectedEarlyClose
                &&& action == (Action::Reject { error: ResolveError::EarlyResolutionAttempt })
            } else {
                match request.data_source_url {
                    Some(wanted) => {
                        &&& next == (Stage::TimingValidated { now })
                        &&& action matches Action::FetchSource { url, timeout_secs }
                        &&& url@ == wanted@
                        &&& timeout_secs == SOURCE_TIMEOUT_SECS
                    },
                    None => proceeds(secret, request, now, false, NO_SOURCE@, next, action),
                }
            }
        },
        (Stage::TimingValidated { now }, Event::Source { reply }) => {
            match usable_source(reply) {
                Some(raw) => {
                    let verdict = inferred(json_document(raw), raw, request.market_question@);
                    proceeds(secret, request, now, verdict.0, verdict.1, next, action)
                },
                None => {
                    &&& next is InferenceFailed
                    &&& action == (Action::Reject { error: ResolveError::DataSourceUnavailable })
                },
            }
        },
        (Stage::OutcomeInferred { now, outcome, source_data }, Event::Media { reply }) => sealed(
            secret,
            record_of(request.market_id, outcome, source_data@, now, usable_media(reply)),
            next,
            action,
        ),
        (Stage::Signed { attestation }, Event::Persisted { stored }) => {
            &&& next is Responded
            &&& action matches Action::Respond { attestation: sent }
            &&& sent@ == attestation@
        },
        _ => next == stage && action is Nothing,
    }
}

fn seal(
    identity: &SigningIdentity,
    market_id: u64,
    outcome: bool,
    source_data: String,
    now: u64,
    media: Option<&[u8]>,
) -> (out: (Stage, Action))
    ensures
        sealed(
            identity.secret(),
            record_of(
                market_id,
                outcome,
                source_data@,
                now,
                match media {
                    Some(bytes) => Some(bytes@),
                    None => None,
                },
            ),
            out.0,
            out.1,
        ),
{
    match attest(identity, market_id, outcome, source_data, now, media) {
        Ok(attestation) => {
            let sent = attestation.duplicate();
            (Stage::Signed { attestation }, Action::Persist { attestation: sent })
        },
        Err(_) => (
            Stage::EncodingFailed,
            Action::Reject { error: ResolveError::SourceDataTooLong },
        ),
    }
}

fn proceed(
    identity: &SigningIdentity,
    request: &ResolutionRequest,
    now: u64,
    outcome: bool,
    source_data: String,
) -> (out: (Stage, Action))
    ensures
        proceeds(identity.secret(), *request, now, outcome, source_data@, out.0, out.1),
{
    match &request.image_url {
        Some(url) => (
            Stage::OutcomeInferred { now, outcome, source_data },
            Action::FetchMedia { url: copy_text(url), timeout_secs: MEDIA_TIMEOUT_SECS },
        ),
        None => seal(identity, request.market_id, outcome, source_data, now, None),
    }
}

/// Takes a request one step further.
///
/// A request starts at [`Stage::Received`] with [`Event::Clock`]. A market
/// that has not ended is rejected at once. Else the data source is fetched,
/// if the request names one, and the outcome inferred from its body; with
/// no data source the outcome is `false`. A fetch that brings no response,
/// or one whose status is not a success, ends the request: nothing is
/// signed. Then the image is fetched, if the request names one; its failure
/// only leaves the media hash zero. The record is
/// encoded, signed and handed over to be persisted, and whether or not that
/// went well the attestation is the response.
pub fn step(identity: &SigningIdentity, request: &ResolutionRequest, stage: Stage, event: Event) -> (out:
    (Stage, Action))
    ensures
        steps(identity.secret(), *request, stage, event, out.0, out.1),
{
    match (stage, event) {
        (Stage::Received, Event::Clock { now }) => {
            match check_timing(request, now) {
                Err(error) => (Stage::RejectedEarlyClose, Action::Reject { error }),
                Ok(()) => match &request.data_source_url {
                    Some(url) => (
                        Stage::TimingValidated { now },
                        Action::FetchSource { url: copy_text(url), timeout_secs: SOURCE_TIMEOUT_SECS },
                    ),
                    None => proceed(identity, request, now, false, NO_SOURCE.to_owned()),
                },
            }
        },
        (Stage::TimingValidated { now }, Event::Source { reply }) => {
            match reply {
                Some(r) if status_is_success(r.status) => {
                    let (outcome, source_data) = infer(
                        r.body.as_str(),
                        request.market_question.as_str(),
                    );
                    proceed(identity, request, now, outcome, source_data)
                },
                _ => (
                    Stage::InferenceFailed,
                    Action::Reject { error: ResolveError::DataSourceUnavailable },
                ),
            }
        },
        (Stage::OutcomeInferred { now, outcome, source_data }, Event::Media { reply }) => {
            match reply {
                Some(r) if status_is_success(r.status) => seal(
                    identity,
                    request.market_id,
                    outcome,
                    source_data,
                    now,
                    Some(r.bytes.as_slice()),
                ),
                _ => seal(identity, request.market_id, outcome, source_data, now, None),
            }
        },
        (Stage::Signed { attestation }, Event::Persisted { stored }) => (
            Stage::Responded,
            Action::Respond { attestation },
        ),
        (stage, event) => (stage, Action::Nothing),
    }
}

/// A request for a market that has not ended is rejected at the first step,
/// and from there no event leads to a fetch: none before the rejection, as
/// it is the first action, and none after it.
pub proof fn lemma_early_request_never_fetches(
    secret: Seq<u8>,
    request: ResolutionRequest,
    now: u64,
    first: Stage,
    rejection: Action,
    event: Event,
    next: Stage,
    action: Action,
)
    requires
        now < request.market_end_time,
        steps(secret, request, Stage::Received, Event::Clock { now }, first, rejection),
        steps(secret, request, first, event, next, action),
    ensures
        rejection == (Action::Reject { error: ResolveError::EarlyResolutionAttempt }),
        first is RejectedEarlyClose,
        next is RejectedEarlyClose,
        action is Nothing,
        !rejection.is_fetch(),
        !action.is_fetch(),
{
}

/// Nothing is signed for a request whose data source could not be had,
/// because no response came or because its status was not a success: the
/// request ends there, and no later event brings an attestation.
pub proof fn lemma_failed_fetch_signs_nothing(
    secret: Seq<u8>,
    request: ResolutionRequest,
    now: u64,
    reply: Option<SourceReply>,
    failed: Stage,
    rejection: Action,
    event: Event,
    next: Stage,
    action: Action,
)
    requires
        usable_source(reply) is None,
        steps(
            secret,
            request,
            Stage::TimingValidated { now },
            Event::Source { reply },
            failed,
            rejection,
        ),
        steps(secret, request, failed, event, next, action),
    ensures
        rejection == (Action::Reject { error: ResolveError::DataSourceUnavailable }),
        failed is InferenceFailed,
        next is InferenceFailed,
        action is Nothing,
{
}

/// The attestation is the response whether or not the audit copy could be
/// written.
pub proof fn lemma_response_ignores_persistence(
    secret: Seq<u8>,
    request: ResolutionRequest,
    attestation: SignedAttestation,
    stored: bool,
    next: Stage,
    action: Action,
)
    requires
        steps(
            secret,
            request,
            Stage::Signed { attestation },
            Event::Persisted { stored },
            next,
            action,
        ),
    ensures
        action matches Action::Respond { attestation: sent } && sent@ == attestation@,
{
}

/// Signing is deterministic: the same key and the same record give the same
/// attestation, signature included.
pub proof fn lemma_attestation_is_deterministic(
    secret: Seq<u8>,
    a: RecordView,
    b: RecordView,
)
    requires
        a == b,
    ensures
        attestation_of(secret, a) == attestation_of(secret, b),
        attestation_of(secret, a).signature == ed25519_signature(secret, a.encoded()),
{
}

} // verus!
