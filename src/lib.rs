pub mod client;
pub mod codec;
pub mod error;
pub mod message;
pub mod metrics;
pub mod topic;
