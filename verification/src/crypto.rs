//! The cryptographic functions that the protocol calls: authenticated
//! encryption, key agreement, key derivation, and random bytes.
//!
//! Each function here hands its arguments to an outside crate. What it returns
//! is given a name where it depends on the arguments alone.

use crate::text;
use aes_gcm::aead::Aead;
use aes_gcm::aead::KeyInit;
use rand::RngCore;
use vstd::prelude::*;
use vstd::utf8;

verus! {

/// The longest plaintext that AES-GCM seals.
pub const MAX_PLAINTEXT: u64 = 0x10_0000_0000;

/// The most bytes that HKDF-SHA256 gives out: 255 blocks of 32.
pub const MAX_DERIVED: usize = 8160;

/// Why a cipher did not do its work.
#[derive(Debug, Clone, Copy, PartialEq, Eq, Structural)]
pub enum CipherFault {
    /// The key has not 32 bytes.
    KeyLength,
    /// The data was not accepted.
    Rejected,
}

/// What AES-256-GCM makes of a plaintext: the ciphertext, then the tag.
pub uninterp spec fn aes256_gcm_sealed(
    key: Seq<u8>,
    nonce: Seq<u8>,
    plaintext: Seq<u8>,
) -> Seq<u8>;

/// The plaintext that AES-256-GCM finds in a ciphertext with its tag, if the
/// tag is right.
pub uninterp spec fn aes256_gcm_opened(
    key: Seq<u8>,
    nonce: Seq<u8>,
    sealed: Seq<u8>,
) -> Option<Seq<u8>>;

/// `Aes256Gcm::new_from_slice` and then `Aead::encrypt`, without associated
/// data. A key that has not 32 bytes is refused, and then a plaintext over the
/// limit. Otherwise the result is a function of key, nonce and plaintext, is 16
/// bytes longer than the plaintext, and opens to the plaintext under the same
/// key and nonce.
#[verifier::external_body]
pub(crate) fn aes256_gcm_seal(key: &[u8], nonce: &[u8], plaintext: &[u8]) -> (r: Result<
    Vec<u8>,
    CipherFault,
>)
    requires
        nonce@.len() == 12,
    ensures
        match r {
            Ok(sealed) => {
                &&& key@.len() == 32
                &&& plaintext@.len() <= MAX_PLAINTEXT
                &&& sealed@ == aes256_gcm_sealed(key@, nonce@, plaintext@)
                &&& sealed@.len() == plaintext@.len() + 16
                &&& aes256_gcm_opened(key@, nonce@, sealed@) == Some(plaintext@)
            },
            Err(CipherFault::KeyLength) => key@.len() != 32,
            Err(CipherFault::Rejected) => key@.len() == 32 && plaintext@.len() > MAX_PLAINTEXT,
        },
{
    let cipher = aes_gcm::Aes256Gcm::new_from_slice(key).map_err(|_| CipherFault::KeyLength)?;
    cipher
        .encrypt(aes_gcm::Nonce::from_slice(nonce), plaintext)
        .map_err(|_| CipherFault::Rejected)
}

/// `Aes256Gcm::new_from_slice` and then `Aead::decrypt`, without associated
/// data. A key that has not 32 bytes is refused. Otherwise the result is a
/// function of key, nonce and data; a plaintext is 16 bytes shorter than what
/// it was found in.
#[verifier::external_body]
pub(crate) fn aes256_gcm_open(key: &[u8], nonce: &[u8], sealed: &[u8]) -> (r: Result<
    Vec<u8>,
    CipherFault,
>)
    requires
        nonce@.len() == 12,
    ensures
        match r {
            Ok(plaintext) => {
                &&& key@.len() == 32
                &&& aes256_gcm_opened(key@, nonce@, sealed@) == Some(plaintext@)
                &&& plaintext@.len() + 16 == sealed@.len()
            },
            Err(CipherFault::KeyLength) => key@.len() != 32,
            Err(CipherFault::Rejected) => key@.len() == 32 && aes256_gcm_opened(
                key@,
                nonce@,
                sealed@,
            ) is None,
        },
{
    let cipher = aes_gcm::Aes256Gcm::new_from_slice(key).map_err(|_| CipherFault::KeyLength)?;
    cipher
        .decrypt(aes_gcm::Nonce::from_slice(nonce), sealed)
        .map_err(|_| CipherFault::Rejected)
}

/// The X25519 public key of a secret key.
pub uninterp spec fn x25519_public(secret: Seq<u8>) -> Seq<u8>;

/// The X25519 shared secret of a secret key and another party's public key.
pub uninterp spec fn x25519_shared(secret: Seq<u8>, public: Seq<u8>) -> Seq<u8>;

/// `x25519_dalek::PublicKey::from` a secret key: a function of the secret. The
/// ephemeral secrets of that crate compute the same as the static ones.
#[verifier::external_body]
pub(crate) fn x25519_public_key(secret: &[u8; 32]) -> (public: [u8; 32])
    ensures
        public@ == x25519_public(secret@),
{
    x25519_dalek::PublicKey::from(&x25519_dalek::StaticSecret::from(*secret)).to_bytes()
}

/// `x25519_dalek::StaticSecret::diffie_hellman`: a function of the secret key
/// and the public key. Where the public key is that of another secret, the
/// other party gets the same from its secret and this party's public key.
#[verifier::external_body]
pub(crate) fn x25519_diffie_hellman(secret: &[u8; 32], public: &[u8; 32]) -> (shared: [u8; 32])
    ensures
        shared@ == x25519_shared(secret@, public@),
        forall|other: Seq<u8>|
            #![trigger x25519_public(other)]
            other.len() == 32 && public@ == x25519_public(other) ==> shared@ == x25519_shared(
                other,
                x25519_public(secret@),
            ),
{
    x25519_dalek::StaticSecret::from(*secret)
        .diffie_hellman(&x25519_dalek::PublicKey::from(*public))
        .to_bytes()
}

/// The error of HKDF for an output that is too long.
#[verifier::external_type_specification]
#[verifier::external_body]
pub struct ExInvalidLength(hkdf::InvalidLength);

/// The `len` bytes that HKDF-SHA256 derives.
pub uninterp spec fn hkdf_sha256(
    salt: Seq<u8>,
    material: Seq<u8>,
    info: Seq<u8>,
    len: nat,
) -> Seq<u8>;

/// `Hkdf::<Sha256>::new` with a salt, and then `expand`: the bytes asked for
/// are a function of salt, key material, info and their number, and only a
/// number over the limit is refused.
#[verifier::external_body]
pub(crate) fn hkdf_sha256_expand(salt: &[u8], material: &[u8], info: &[u8], len: usize) -> (r:
    Result<Vec<u8>, hkdf::InvalidLength>)
    requires
        len <= 0x1_0000,
    ensures
        match r {
            Ok(derived) => {
                &&& len <= MAX_DERIVED
                &&& derived@ == hkdf_sha256(salt@, material@, info@, len as nat)
                &&& derived@.len() == len
            },
            Err(_) => len > MAX_DERIVED,
        },
{
    let mut derived = vec![0u8; len];
    hkdf::Hkdf::<sha2::Sha256>::new(Some(salt), material).expand(info, &mut derived)?;
    Ok(derived)
}

/// The bytes were drawn, all at once, from the random numbers of the system.
pub uninterp spec fn drawn(bytes: Seq<u8>) -> bool;

/// `rand::rngs::OsRng`, through `RngCore::fill_bytes`: what it returns was drawn,
/// and is as many bytes as asked for. Which bytes is chance.
#[verifier::external_body]
pub(crate) fn random_bytes(len: usize) -> (r: Vec<u8>)
    requires
        len <= 0x1_0000,
    ensures
        drawn(r@),
        r@.len() == len,
{
    let mut bytes = vec![0u8; len];
    rand::rngs::OsRng.fill_bytes(&mut bytes);
    bytes
}

/// `hex::encode`: two lower-case hexadecimal digits for each byte.
#[verifier::external_body]
pub(crate) fn hex_encode(bytes: &[u8]) -> (s: String)
    ensures
        s@ == text::hex(bytes@),
{
    hex::encode(bytes)
}

/// The text that bytes stand for, with what is not UTF-8 in them replaced.
pub uninterp spec fn utf8_lossy(bytes: Seq<u8>) -> Seq<char>;

/// `String::from_utf8_lossy`: a function of the bytes, and the text that they
/// encode where they are valid UTF-8.
#[verifier::external_body]
pub(crate) fn string_from_utf8_lossy(bytes: &[u8]) -> (s: String)
    ensures
        s@ == utf8_lossy(bytes@),
        utf8::valid_utf8(bytes@) ==> s@ == utf8::decode_utf8(bytes@),
{
    String::from_utf8_lossy(bytes).into_owned()
}

} // verus!
