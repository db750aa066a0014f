//! Keys, encryption, sessions and the handshake that starts one.

pub mod cipher;
pub mod error;
pub mod handshake;
pub mod keys;
pub mod store;

pub use cipher::{decrypt, derive_session_key, encrypt, encrypt_with_nonce};
pub use error::SessionError;
pub use handshake::{negotiate_client, negotiate_server};
pub use keys::{
    generate_key_pair, generate_static_key, shared_secret, shared_secret_static, ApiKey,
    EphemeralSecret, PublicKey, SharedSecret, StaticSecret,
};

pub use keys::{KEY_SIZE, NONCE_SIZE, PUB_KEY_SIZE, TAG_SIZE};
pub use store::{ApiKeyStore, MapKeyStore, Session, SessionConfig, SessionStore};
