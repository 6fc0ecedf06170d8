//! Extraction of playable stream descriptors and metadata from a large
//! video-sharing site's internal JSON API: the multi-client fan-out rules,
//! the two-level cache, the request and authorization builders, the
//! watch-page JSON miner, the player-script fingerprint and signature
//! timestamp, the signature decipher flow, and the stream-format reducer.
//! Every function here carries a contract; the network, the command line
//! and the embedded JS solver live outside the crate.
pub mod auth;
pub mod cache;
pub mod chars;
pub mod client;
pub mod cookies;
pub mod decipher;
pub mod err;
pub mod format;
pub mod hashx;
pub mod ids;
pub mod jsonx;
pub mod meta;
pub mod miner;
pub mod orchestrator;
pub mod patterns;
pub mod playerjs;
pub mod requests;
pub mod streams;
pub mod urlq;
