//! The decisions of a one-way TLS proxy: which client key may connect, which
//! socket may be written to, which server credentials are presented, and what
//! is counted while bytes are relayed.

pub mod client_auth;
pub mod foreign;
pub mod openssh;
pub mod pubkey;
pub mod relay;
pub mod server_cert;
pub mod socket;
pub mod text;
