//! Session keys, and data encrypted under them.

use crate::bytes;
use crate::crypto;
use crate::crypto::CipherFault;
use crate::session::error::{SessionError, SessionFault};
use crate::session::keys::{KEY_SIZE, NONCE_SIZE, TAG_SIZE};
use vstd::prelude::*;
use vstd::slice::slice_subrange;
use vstd::utf8;

verus! {

/// The session key that follows from a shared secret and the secret of an API
/// key: HKDF-SHA256 over the latter, salted with the former.
pub open spec fn session_key(shared: Seq<u8>, api_key_secret: Seq<u8>) -> Seq<u8> {
    crypto::hkdf_sha256(shared, api_key_secret, utf8::encode_utf8("hush-v1-key"@), 32)
}

/// Whoever has the shared secret and the secret of the API key derives the session
/// key: the shared secret is the salt of HKDF-SHA256, the secret of the API key is
/// its key material, the text `hush-v1-key` is its info, and 32 bytes are taken.
pub proof fn law_session_key(salt: Seq<u8>, material: Seq<u8>)
    ensures
        session_key(salt, material) == crypto::hkdf_sha256(
            salt,
            material,
            utf8::encode_utf8("hush-v1-key"@),
            32,
        ),
{
}

/// Derive the session key. This never fails.
pub fn derive_session_key(shared_secret: &[u8], api_key_secret: &[u8]) -> (r: Result<
    Vec<u8>,
    SessionError,
>)
    ensures
        r matches Ok(key) && key@ == session_key(shared_secret@, api_key_secret@) && key@.len()
            == 32,
        r matches Ok(key) && key@ == crypto::hkdf_sha256(
            shared_secret@,
            api_key_secret@,
            utf8::encode_utf8("hush-v1-key"@),
            32,
        ),
{
    match crypto::hkdf_sha256_expand(
        shared_secret,
        api_key_secret,
        "hush-v1-key".as_bytes(),
        KEY_SIZE,
    ) {
        Ok(key) => Ok(key),
        Err(_) => Err(SessionError::Hkdf("hkdf expand failed")),
    }
}

/// What encrypting under a nonce gives: the nonce and the sealed plaintext.
pub open spec fn sealed(key: Seq<u8>, nonce: Seq<u8>, plaintext: Seq<u8>) -> Result<
    Seq<u8>,
    SessionFault,
> {
    if key.len() != 32 {
        Err(SessionFault::Aes("invalid key length"@))
    } else if plaintext.len() > crypto::MAX_PLAINTEXT {
        Err(SessionFault::Crypto("aes-gcm encrypt: aead::Error"@))
    } else {
        Ok(nonce + crypto::aes256_gcm_sealed(key, nonce, plaintext))
    }
}

/// What decrypting gives.
pub open spec fn opened(key: Seq<u8>, data: Seq<u8>) -> Result<Seq<u8>, SessionFault> {
    if data.len() < 28 {
        Err(SessionFault::Crypto("ciphertext too short"@))
    } else if key.len() != 32 {
        Err(SessionFault::Aes("invalid key length"@))
    } else {
        match crypto::aes256_gcm_opened(key, data.take(12), data.skip(12)) {
            Some(plaintext) => Ok(plaintext),
            None => Err(SessionFault::Crypto("gcm decrypt: message authentication failed"@)),
        }
    }
}

/// Encrypt under a given nonce. What comes out decrypts to the plaintext.
pub fn encrypt_with_nonce(key: &[u8], nonce: &[u8], plaintext: &[u8]) -> (r: Result<
    Vec<u8>,
    SessionError,
>)
    requires
        nonce@.len() == NONCE_SIZE,
    ensures
        match r {
            Ok(out) => {
                &&& out@ == nonce@ + crypto::aes256_gcm_sealed(key@, nonce@, plaintext@)
                &&& sealed(key@, nonce@, plaintext@) == Ok::<Seq<u8>, SessionFault>(out@)
                &&& out@.len() == 12 + plaintext@.len() + 16
                &&& opened(key@, out@) == Ok::<Seq<u8>, SessionFault>(plaintext@)
            },
            Err(e) => sealed(key@, nonce@, plaintext@) == Err::<Seq<u8>, SessionFault>(e@),
        },
{
    match crypto::aes256_gcm_seal(key, nonce, plaintext) {
        Err(CipherFault::KeyLength) => Err(SessionError::Aes("invalid key length")),
        Err(CipherFault::Rejected) => Err(
            SessionError::Crypto("aes-gcm encrypt: aead::Error".to_owned()),
        ),
        Ok(ciphertext) => {
            let mut out = bytes::to_vec(nonce);
            bytes::push_all(&mut out, ciphertext.as_slice());
            proof {
                assert(out@.take(12) =~= nonce@);
                assert(out@.skip(12) =~= ciphertext@);
            }
            Ok(out)
        },
    }
}

/// Encrypt under a random nonce, which goes before the ciphertext. What comes
/// out decrypts to the plaintext.
pub fn encrypt(key: &[u8], plaintext: &[u8]) -> (r: Result<Vec<u8>, SessionError>)
    ensures
        match r {
            Ok(out) => {
                &&& crypto::drawn(out@.take(12))
                &&& out@.skip(12) == crypto::aes256_gcm_sealed(
                    key@,
                    out@.take(12),
                    plaintext@,
                )
                &&& sealed(key@, out@.take(12), plaintext@) == Ok::<Seq<u8>, SessionFault>(out@)
                &&& out@.len() == 12 + plaintext@.len() + 16
                &&& opened(key@, out@) == Ok::<Seq<u8>, SessionFault>(plaintext@)
            },
            Err(e) => forall|nonce: Seq<u8>| #[trigger]
                sealed(key@, nonce, plaintext@) == Err::<Seq<u8>, SessionFault>(e@),
        },
        r is Ok <==> key@.len() == 32 && plaintext@.len() <= crypto::MAX_PLAINTEXT,
{
    let nonce = crypto::random_bytes(NONCE_SIZE);
    let r = encrypt_with_nonce(key, nonce.as_slice(), plaintext);
    proof {
        if r is Ok {
            assert(r->Ok_0@.take(12) =~= nonce@);
            assert(r->Ok_0@.skip(12) =~= crypto::aes256_gcm_sealed(key@, nonce@, plaintext@));
        }
    }
    r
}

/// A plaintext is sealed under every key of 32 bytes, where it is not over the
/// limit: the nonce as it is, and then what AES-256-GCM makes of the plaintext.
pub proof fn law_sealed(key: Seq<u8>, nonce: Seq<u8>, plaintext: Seq<u8>)
    requires
        nonce.len() == 12,
    ensures
        sealed(key, nonce, plaintext) is Ok <==> key.len() == 32 && plaintext.len()
            <= 0x10_0000_0000,
        sealed(key, nonce, plaintext) matches Ok(out) ==> out.take(12) == nonce && out.skip(12)
            == crypto::aes256_gcm_sealed(key, nonce, plaintext),
        sealed(key, nonce, plaintext) matches Err(fault) ==> fault == if key.len() != 32 {
            SessionFault::Aes("invalid key length"@)
        } else {
            SessionFault::Crypto("aes-gcm encrypt: aead::Error"@)
        },
{
    let out = nonce + crypto::aes256_gcm_sealed(key, nonce, plaintext);
    assert(out.take(12) =~= nonce);
    assert(out.skip(12) =~= crypto::aes256_gcm_sealed(key, nonce, plaintext));
}

/// What was encrypted opens under a key of 32 bytes exactly when AES-256-GCM opens
/// it under the nonce in its first 12 bytes, and then to the same plaintext. Less
/// than a nonce and a tag never opens.
pub proof fn law_opened(key: Seq<u8>, nonce: Seq<u8>, ciphertext: Seq<u8>, short: Seq<u8>)
    requires
        nonce.len() == 12,
        ciphertext.len() >= 16,
        short.len() < 28,
    ensures
        key.len() == 32 ==> match crypto::aes256_gcm_opened(key, nonce, ciphertext) {
            Some(plaintext) => opened(key, nonce + ciphertext) == Ok::<Seq<u8>, SessionFault>(
                plaintext,
            ),
            None => opened(key, nonce + ciphertext) == Err::<Seq<u8>, SessionFault>(
                SessionFault::Crypto("gcm decrypt: message authentication failed"@),
            ),
        },
        key.len() != 32 ==> opened(key, nonce + ciphertext) == Err::<Seq<u8>, SessionFault>(
            SessionFault::Aes("invalid key length"@),
        ),
        opened(key, short) == Err::<Seq<u8>, SessionFault>(
            SessionFault::Crypto("ciphertext too short"@),
        ),
{
    let data = nonce + ciphertext;
    assert(data.take(12) =~= nonce);
    assert(data.skip(12) =~= ciphertext);
}

/// Decrypt what `encrypt` made.
pub fn decrypt(key: &[u8], data: &[u8]) -> (r: Result<Vec<u8>, SessionError>)
    ensures
        match r {
            Ok(plaintext) => opened(key@, data@) == Ok::<Seq<u8>, SessionFault>(plaintext@)
                && plaintext@.len() + 28 == data@.len() && crypto::aes256_gcm_opened(
                key@,
                data@.take(12),
                data@.skip(12),
            ) == Some(plaintext@),
            Err(e) => opened(key@, data@) == Err::<Seq<u8>, SessionFault>(e@),
        },
{
    if data.len() < NONCE_SIZE + TAG_SIZE {
        return Err(SessionError::Crypto("ciphertext too short".to_owned()));
    }
    let nonce = slice_subrange(data, 0, NONCE_SIZE);
    let ciphertext = slice_subrange(data, NONCE_SIZE, data.len());
    proof {
        assert(nonce@ =~= data@.take(12));
        assert(ciphertext@ =~= data@.skip(12));
    }
    match crypto::aes256_gcm_open(key, nonce, ciphertext) {
        Ok(plaintext) => Ok(plaintext),
        Err(CipherFault::KeyLength) => Err(SessionError::Aes("invalid key length")),
        Err(CipherFault::Rejected) => Err(
            SessionError::Crypto("gcm decrypt: message authentication failed".to_owned()),
        ),
    }
}

} // verus!
