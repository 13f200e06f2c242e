//! The transfer-orchestration core of a media-relay worker: bounded
//! retry with backoff, a chunked resilient upload protocol, rate-limited
//! progress reporting, a pooled and cached data-access layer, and the
//! gates and ledgers that keep concurrent transfers bounded.

pub mod errors;
pub mod fetchparse;
pub mod gate;
pub mod media;
pub mod pool;
pub mod progress;
pub mod retry;
pub mod text;
pub mod types;
pub mod upload;
