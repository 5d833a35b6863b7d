//! Payment lane: rules that reserve blockspace for payments, order them, number
//! them, run them in parallel and finalize the blocks that hold them.
//!
//! - [`classifier`]: stateless classification of transactions into payment and general
//! - [`ordering`]: payment-aware transaction ordering for a pool
//! - [`payload`]: dual-budget block building that reserves blockspace for payments
//! - [`packing`]: what a packed block is, and the laws that it obeys
//! - [`consensus`]: validation of the payment lane gas budget after execution
//! - [`nonce`]: two-dimensional nonces for parallel payments
//! - [`fastpath`]: conflict detection between payments
//! - [`finality`]: votes of a committee that make blocks final

pub mod classifier;
pub mod config;
pub mod consensus;
pub mod fastpath;
pub mod finality;
pub mod metrics;
pub mod nonce;
pub mod ordering;
pub mod packing;
pub mod payload;
pub mod primitives;
pub mod text;
pub mod transaction;

pub use classifier::{PaymentClassifier, TxLane};
pub use config::PaymentLaneConfig;
pub use consensus::PaymentLaneValidator;
pub use ordering::PaymentAwareOrdering;
pub use payload::PaymentLanePayloadBuilder;
