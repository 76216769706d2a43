//! The oracle's signing identity: an Ed25519 key pair that is loaded from
//! its store or created once, and the signatures made with it.

use vstd::prelude::*;
use crate::codec::read_digest;
use crate::hexcode::{hex_bytes, hex_decode, hex_encode, hex_text, is_hex_text, lemma_hex_round_trip};

verus! {

/// Width of a secret key and of a public key.
pub const KEY_LEN: usize = 32;

/// The public key that belongs to a secret key.
pub uninterp spec fn ed25519_public_key(secret: Seq<u8>) -> Seq<u8>;

/// The signature that a secret key gives a message.
pub uninterp spec fn ed25519_signature(secret: Seq<u8>, message: Seq<u8>) -> Seq<u8>;

/// Whether a signature on a message is accepted under a public key.
pub uninterp spec fn ed25519_accepts(
    public_key: Seq<u8>,
    message: Seq<u8>,
    signature: Seq<u8>,
) -> bool;

/// Calls `SigningKey::from_bytes` and `SigningKey::verifying_key` of
/// `ed25519_dalek`: the public key is derived from the secret alone.
#[verifier::external_body]
fn derive_public_key(secret: &[u8; 32]) -> (out: [u8; 32])
    ensures
        out@ == ed25519_public_key(secret@),
{
    ed25519_dalek::SigningKey::from_bytes(secret).verifying_key().to_bytes()
}

/// Calls `Signer::sign` on the `ed25519_dalek::SigningKey` of the secret.
/// Ed25519 signing draws no randomness, so the signature is a function of
/// secret and message; and the crate documents that a signature so made
/// verifies under the public half of the key.
#[verifier::external_body]
fn sign_message(secret: &[u8; 32], message: &[u8]) -> (out: [u8; 64])
    ensures
        out@ == ed25519_signature(secret@, message@),
        ed25519_accepts(ed25519_public_key(secret@), message@, out@),
{
    ed25519_dalek::Signer::sign(&ed25519_dalek::SigningKey::from_bytes(secret), message).to_bytes()
}

/// Calls `VerifyingKey::from_bytes` and `Verifier::verify` of
/// `ed25519_dalek`. Bytes that are no public key accept nothing.
#[verifier::external_body]
fn signature_accepted(public_key: &[u8; 32], message: &[u8], signature: &[u8; 64]) -> (out: bool)
    ensures
        out == ed25519_accepts(public_key@, message@, signature@),
{
    match ed25519_dalek::VerifyingKey::from_bytes(public_key) {
        Ok(key) => {
            let signature = ed25519_dalek::Signature::from_bytes(signature);
            ed25519_dalek::Verifier::verify(&key, message, &signature).is_ok()
        },
        Err(_) => false,
    }
}

/// Draws 32 bytes from the operating system's generator through
/// `rand::rngs::OsRng`; `None` where it gives none. Nothing is known of the
/// bytes.
#[verifier::external_body]
fn fresh_secret() -> (out: Option<[u8; 32]>) {
    let mut secret = [0u8; 32];
    rand::RngCore::try_fill_bytes(&mut rand::rngs::OsRng, &mut secret).ok().map(|_| secret)
}

/// Why no identity could be had from the store.
#[derive(Debug, Clone, Copy, PartialEq, Eq)]
pub enum KeyStoreError {
    /// The stored secret is not hexadecimal text.
    NotHex,
    /// The stored secret does not have 32 bytes.
    WrongLength,
    /// A new secret was needed and the system gave no random bytes.
    NoEntropy,
}

/// The stored form of an identity: both keys as hexadecimal text.
#[derive(Debug, Clone, PartialEq, Eq)]
pub struct KeyRecord {
    pub private_key: String,
    pub public_key: String,
}

/// The single record of the key store, if it has been written.
#[derive(Debug, Clone, PartialEq, Eq)]
pub struct KeyStore {
    pub record: Option<KeyRecord>,
}

/// The secret that a stored text holds.
pub open spec fn stored_secret(private_key: Seq<char>) -> Result<Seq<u8>, KeyStoreError> {
    if !is_hex_text(private_key) {
        Err(KeyStoreError::NotHex)
    } else if hex_bytes(private_key).len() != KEY_LEN {
        Err(KeyStoreError::WrongLength)
    } else {
        Ok(hex_bytes(private_key))
    }
}

/// The record under which an identity with this secret is stored.
pub open spec fn record_of(secret: Seq<u8>) -> (Seq<char>, Seq<char>) {
    (hex_text(secret), hex_text(ed25519_public_key(secret)))
}

impl KeyStore {
    /// The stored texts of private and public key.
    pub open spec fn texts(&self) -> Option<(Seq<char>, Seq<char>)> {
        match self.record {
            Some(r) => Some((r.private_key@, r.public_key@)),
            None => None,
        }
    }
}

/// What loading or creating does: with a record in the store, its secret is
/// read or found corrupt, and the store stays as it is; without one, the
/// fresh secret becomes the identity and its record is stored.
pub open spec fn load_or_create_spec(stored: Option<(Seq<char>, Seq<char>)>, fresh: Seq<u8>) -> (
    Result<Seq<u8>, KeyStoreError>,
    Option<(Seq<char>, Seq<char>)>,
) {
    match stored {
        Some(texts) => (stored_secret(texts.0), stored),
        None => (Ok(fresh), Some(record_of(fresh))),
    }
}

/// The oracle's key pair. The public key is always the one that belongs to
/// the secret.
pub struct SigningIdentity {
    secret: [u8; 32],
    public: [u8; 32],
}

impl SigningIdentity {
    #[verifier::type_invariant]
    spec fn paired(self) -> bool {
        self.public@ == ed25519_public_key(self.secret@)
    }

    /// The secret key.
    pub closed spec fn secret(&self) -> Seq<u8> {
        self.secret@
    }

    /// The public key.
    pub closed spec fn public(&self) -> Seq<u8> {
        self.public@
    }

    /// The identity of a secret key.
    pub fn from_secret(secret: [u8; 32]) -> (out: SigningIdentity)
        ensures
            out.secret() == secret@,
            out.public() == ed25519_public_key(secret@),
    {
        let public = derive_public_key(&secret);
        SigningIdentity { secret, public }
    }

    /// The secret key's bytes.
    pub fn secret_key(&self) -> (out: [u8; 32])
        ensures
            out@ == self.secret(),
    {
        self.secret
    }

    /// The verifying key's bytes.
    pub fn public_key(&self) -> (out: [u8; 32])
        ensures
            out@ == self.public(),
            out@ == ed25519_public_key(self.secret()),
    {
        proof {
            use_type_invariant(self);
        }
        self.public
    }

    /// The record to store for this identity.
    pub fn record(&self) -> (out: KeyRecord)
        ensures
            (out.private_key@, out.public_key@) == record_of(self.secret()),
    {
        proof {
            use_type_invariant(self);
        }
        KeyRecord {
            private_key: hex_encode(self.secret.as_slice()),
            public_key: hex_encode(self.public.as_slice()),
        }
    }

    /// Signs a message. The signature depends on key and message alone, and
    /// is accepted under this identity's public key.
    pub fn sign(&self, message: &[u8]) -> (out: [u8; 64])
        ensures
            out@ == ed25519_signature(self.secret(), message@),
            ed25519_accepts(self.public(), message@, out@),
    {
        proof {
            use_type_invariant(self);
        }
        sign_message(&self.secret, message)
    }

    /// Reads the identity that a stored private key holds.
    pub fn load(private_key: &str) -> (out: Result<SigningIdentity, KeyStoreError>)
        ensures
            out matches Ok(id) ==> stored_secret(private_key@) == Ok::<Seq<u8>, KeyStoreError>(
                id.secret(),
            ),
            out matches Err(e) ==> stored_secret(private_key@) == Err::<Seq<u8>, KeyStoreError>(e),
    {
        match hex_decode(private_key) {
            None => Err(KeyStoreError::NotHex),
            Some(bytes) => {
                if bytes.len() != KEY_LEN {
                    Err(KeyStoreError::WrongLength)
                } else {
                    let secret = read_digest(bytes.as_slice(), 0);
                    assert(secret@ =~= bytes@);
                    Ok(SigningIdentity::from_secret(secret))
                }
            },
        }
    }

    /// Loads the identity from the store, or makes the one of `fresh` and
    /// stores its record where the store is empty.
    pub fn load_or_create_with(store: &mut KeyStore, fresh: [u8; 32]) -> (out: Result<
        SigningIdentity,
        KeyStoreError,
    >)
        ensures
            load_or_create_spec(old(store).texts(), fresh@) == (
                match out {
                    Ok(id) => Ok(id.secret()),
                    Err(e) => Err(e),
                },
                final(store).texts(),
            ),
            old(store).record is Some ==> *final(store) == *old(store),
    {
        match &store.record {
            Some(record) => SigningIdentity::load(record.private_key.as_str()),
            None => {
                let identity = SigningIdentity::from_secret(fresh);
                store.record = Some(identity.record());
                Ok(identity)
            },
        }
    }

    /// Loads the identity from the store, or creates one from fresh random
    /// bytes and stores its record where the store is empty. A record in
    /// the store is never replaced: a corrupt one is an error.
    pub fn load_or_create(store: &mut KeyStore) -> (out: Result<SigningIdentity, KeyStoreError>)
        ensures
            old(store).record is Some ==> *final(store) == *old(store),
            old(store).texts() matches Some(texts) ==> (match out {
                Ok(id) => Ok(id.secret()),
                Err(e) => Err(e),
            }) == stored_secret(texts.0),
            old(store).record is None ==> match out {
                Ok(id) => final(store).texts() == Some(record_of(id.secret())),
                Err(e) => e == KeyStoreError::NoEntropy && *final(store) == *old(store),
            },
    {
        if store.record.is_some() {
            return SigningIdentity::load_or_create_with(store, [0u8; 32]);
        }
        match fresh_secret() {
            Some(fresh) => SigningIdentity::load_or_create_with(store, fresh),
            None => Err(KeyStoreError::NoEntropy),
        }
    }
}

/// Whether a signature on a message is accepted under a public key.
pub fn verify(public_key: &[u8; 32], message: &[u8], signature: &[u8; 64]) -> (out: bool)
    ensures
        out == ed25519_accepts(public_key@, message@, signature@),
{
    signature_accepted(public_key, message, signature)
}

/// Loading or creating a second time, against the store that the first time
/// left, gives the same identity and leaves the store as it is, whatever
/// fresh secrets were at hand.
pub proof fn lemma_load_or_create_idempotent(
    stored: Option<(Seq<char>, Seq<char>)>,
    fresh1: Seq<u8>,
    fresh2: Seq<u8>,
)
    requires
        fresh1.len() == KEY_LEN,
    ensures
        load_or_create_spec(stored, fresh1).0 is Ok ==> load_or_create_spec(
            load_or_create_spec(stored, fresh1).1,
            fresh2,
        ) == load_or_create_spec(stored, fresh1),
{
    lemma_hex_round_trip(fresh1);
}

/// Two identities with the same secret give the same message the same
/// signature, and have the same public key.
pub proof fn lemma_signing_is_deterministic(a: SigningIdentity, b: SigningIdentity, message: Seq<u8>)
    requires
        a.secret() == b.secret(),
    ensures
        ed25519_signature(a.secret(), message) == ed25519_signature(b.secret(), message),
{
}

} // verus!
