//! A verified core for a relay that sits between mining clients and a mining
//! pool: wire messages, login normalisation, request-id remapping and the
//! bookkeeping of relay-originated shares.

pub mod error;
pub mod fee;
pub mod jobs;
pub mod pool;
pub mod protocol;
pub mod relay;
pub mod remap;
pub mod text;
pub mod worker;
