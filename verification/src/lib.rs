//! Building blocks of a Polymarket trading bot: a bounded ring buffer for
//! trade events, sequence-locked parameter cells, feed reconnection policy,
//! request signing and message framing.
pub mod bayesian;
pub mod chainlink;
pub mod config;
pub mod controller;
pub mod crypto;
pub mod error;
pub mod exchange_ws;
pub mod json;
pub mod policy;
pub mod polymarket_rest;
pub mod polymarket_ws;
pub mod reconnect;
pub mod seg_lock;
pub mod seqlock;
pub mod signal;
pub mod spsc;
pub mod text;
pub mod types;
