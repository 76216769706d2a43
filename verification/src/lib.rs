//! Attestation oracle core.
//!
//! The oracle decides the boolean outcome of a prediction-market question
//! from what an external data source says, signs that decision together with
//! provenance hashes, and hands out the signed attestation.
//!
//! - [`inference`] decides the outcome from a response, JSON or text;
//!   [`json`], [`numeral`] and [`text`] hold what it works on.
//! - [`digest`] fingerprints source data and media.
//! - [`codec`] fixes the canonical bytes of a resolution record.
//! - [`identity`] holds the signing key pair and its store; [`hexcode`] the
//!   hexadecimal text that keys and digests are stored and sent as.
//! - [`service`] takes a request step by step to its attestation, and
//!   [`audit`] keeps the trail of what was attested.

pub mod digest;
pub mod text;
pub mod numeral;
pub mod json;
pub mod inference;
pub mod codec;
pub mod hexcode;
pub mod identity;
pub mod service;
pub mod audit;
