//! API keys and the keys of the key agreement.

use crate::bytes;
use crate::crypto;
use crate::text;
use vstd::prelude::*;

verus! {

/// The bytes of a session key.
pub const KEY_SIZE: usize = 32;

/// The bytes of a nonce.
pub const NONCE_SIZE: usize = 12;

/// The bytes of an authentication tag.
pub const TAG_SIZE: usize = 16;

/// The bytes of a public key.
pub const PUB_KEY_SIZE: usize = 32;

/// A key that a server hands out to a client: its name, and the secret that
/// both hold.
#[derive(Debug)]
pub struct ApiKey {
    pub id: String,
    pub secret: Vec<u8>,
}

impl ApiKey {
    /// The key with the given secret whose name is `id_bytes` in hexadecimal.
    pub fn from_parts(id_bytes: &[u8], secret: Vec<u8>) -> (key: ApiKey)
        ensures
            key.id@ == text::hex(id_bytes@),
            key.secret@ == secret@,
    {
        ApiKey { id: crypto::hex_encode(id_bytes), secret }
    }

    /// A new random key: a name of 16 hexadecimal digits and a secret of 32
    /// bytes.
    pub fn generate() -> (key: ApiKey)
        ensures
            exists|id_bytes: Seq<u8>|
                crypto::drawn(id_bytes) && id_bytes.len() == 8 && key.id@ == #[trigger] text::hex(
                    id_bytes,
                ),
            crypto::drawn(key.secret@),
            key.id@.len() == 16,
            key.secret@.len() == 32,
    {
        let secret = crypto::random_bytes(32);
        let id_bytes = crypto::random_bytes(8);
        ApiKey::from_parts(id_bytes.as_slice(), secret)
    }
}

/// An X25519 secret key for one key agreement.
pub struct EphemeralSecret {
    bytes: [u8; 32],
}

/// An X25519 secret key for many key agreements.
#[derive(Clone, Copy)]
pub struct StaticSecret {
    bytes: [u8; 32],
}

/// An X25519 public key.
#[derive(Debug, Clone, Copy)]
pub struct PublicKey {
    bytes: [u8; 32],
}

/// The outcome of a key agreement.
pub struct SharedSecret {
    bytes: [u8; 32],
}

impl View for EphemeralSecret {
    type V = Seq<u8>;

    closed spec fn view(&self) -> Seq<u8> {
        self.bytes@
    }
}

impl View for StaticSecret {
    type V = Seq<u8>;

    closed spec fn view(&self) -> Seq<u8> {
        self.bytes@
    }
}

impl View for PublicKey {
    type V = Seq<u8>;

    closed spec fn view(&self) -> Seq<u8> {
        self.bytes@
    }
}

impl View for SharedSecret {
    type V = Seq<u8>;

    closed spec fn view(&self) -> Seq<u8> {
        self.bytes@
    }
}

/// `shared` is what the holder of `secret` agrees on with the holder of
/// `public`, and what whoever holds the secret behind `public` agrees on with
/// the holder of `secret`.
pub open spec fn agreed(secret: Seq<u8>, public: Seq<u8>, shared: Seq<u8>) -> bool {
    &&& shared == crypto::x25519_shared(secret, public)
    &&& forall|other: Seq<u8>|
        #![trigger crypto::x25519_public(other)]
        other.len() == 32 && public == crypto::x25519_public(other) ==> shared
            == crypto::x25519_shared(other, crypto::x25519_public(secret))
}

/// Two parties that know each other's public keys agree on the same secret.
pub proof fn law_agreement(
    mine: Seq<u8>,
    theirs: Seq<u8>,
    my_shared: Seq<u8>,
    their_shared: Seq<u8>,
)
    requires
        mine.len() == 32,
        theirs.len() == 32,
        agreed(mine, crypto::x25519_public(theirs), my_shared),
        agreed(theirs, crypto::x25519_public(mine), their_shared),
    ensures
        my_shared == their_shared,
{
}

/// What is agreed on is the X25519 shared secret of one's own secret key and the
/// other party's public key.
pub proof fn law_agreed(secret: Seq<u8>, public: Seq<u8>, shared: Seq<u8>)
    requires
        agreed(secret, public, shared),
    ensures
        shared == crypto::x25519_shared(secret, public),
{
}

impl EphemeralSecret {
    /// The secret key with the given bytes.
    pub fn from_bytes(bytes: [u8; 32]) -> (s: EphemeralSecret)
        ensures
            s@ == bytes@,
    {
        EphemeralSecret { bytes }
    }

    /// The public key that belongs to this secret.
    pub fn public_key(&self) -> (p: PublicKey)
        ensures
            p@ == crypto::x25519_public(self@),
            p@.len() == 32,
    {
        PublicKey { bytes: crypto::x25519_public_key(&self.bytes) }
    }
}

impl StaticSecret {
    /// The secret key with the given bytes.
    pub fn from_bytes(bytes: [u8; 32]) -> (s: StaticSecret)
        ensures
            s@ == bytes@,
    {
        StaticSecret { bytes }
    }

    /// The bytes of the secret key.
    pub fn to_bytes(&self) -> (bytes: [u8; 32])
        ensures
            bytes@ == self@,
    {
        self.bytes
    }

    /// The public key that belongs to this secret.
    pub fn public_key(&self) -> (p: PublicKey)
        ensures
            p@ == crypto::x25519_public(self@),
            p@.len() == 32,
    {
        PublicKey { bytes: crypto::x25519_public_key(&self.bytes) }
    }
}

impl PublicKey {
    /// The public key with the given bytes.
    pub fn from_bytes(bytes: [u8; 32]) -> (p: PublicKey)
        ensures
            p@ == bytes@,
    {
        PublicKey { bytes }
    }

    /// The bytes of the public key.
    pub fn to_bytes(&self) -> (bytes: [u8; 32])
        ensures
            bytes@ == self@,
    {
        self.bytes
    }
}

impl SharedSecret {
    /// The bytes of the shared secret.
    pub fn as_bytes(&self) -> (bytes: &[u8; 32])
        ensures
            bytes@ == self@,
    {
        &self.bytes
    }
}

/// A new random secret key and its public key.
pub fn generate_key_pair() -> (pair: (EphemeralSecret, PublicKey))
    ensures
        crypto::drawn(pair.0@),
        pair.0@.len() == 32,
        pair.1@.len() == 32,
        pair.1@ == crypto::x25519_public(pair.0@),
{
    let random = crypto::random_bytes(32);
    let secret = EphemeralSecret { bytes: bytes::to_array(random.as_slice()) };
    let public = secret.public_key();
    (secret, public)
}

/// What this secret key and another party's public key agree on. The secret is
/// used up.
pub fn shared_secret(priv_key: EphemeralSecret, pub_key: &PublicKey) -> (shared: SharedSecret)
    ensures
        agreed(priv_key@, pub_key@, shared@),
        shared@ == crypto::x25519_shared(priv_key@, pub_key@),
        shared@.len() == 32,
{
    SharedSecret { bytes: crypto::x25519_diffie_hellman(&priv_key.bytes, &pub_key.bytes) }
}

/// A new random secret key for long use.
pub fn generate_static_key() -> (secret: StaticSecret)
    ensures
        crypto::drawn(secret@),
        secret@.len() == 32,
{
    let random = crypto::random_bytes(32);
    StaticSecret::from_bytes(bytes::to_array(random.as_slice()))
}

/// What this secret key and another party's public key agree on.
pub fn shared_secret_static(priv_key: &StaticSecret, pub_key: &PublicKey) -> (shared: SharedSecret)
    ensures
        agreed(priv_key@, pub_key@, shared@),
        shared@ == crypto::x25519_shared(priv_key@, pub_key@),
        shared@.len() == 32,
{
    SharedSecret { bytes: crypto::x25519_diffie_hellman(&priv_key.bytes, &pub_key.bytes) }
}

} // verus!
