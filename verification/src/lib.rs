//! Typed, rate-limited, lazily paginated access to an image-board style REST API.

/// Client related structures.
pub mod client;

/// Error management.
pub mod error;

/// Pool management.
pub mod pool;

/// Post management.
pub mod post;

/// Tag management.
pub mod tag;

/// The times that records carry.
pub mod time;

/// Decimal numbers and other text that requests are made of.
pub mod text;

/// The buffer and the phases of a lazy sequence.
pub mod stream;
