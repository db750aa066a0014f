pub mod assoc;
pub mod bytes;
pub mod client;
pub mod crypto;
pub mod frame;
pub mod hub;
pub mod logger;
pub mod media;
pub mod middleware;
pub mod server;
pub mod session;
pub mod table;
pub mod text;
pub mod time;
pub mod tlv;
pub mod transport;
