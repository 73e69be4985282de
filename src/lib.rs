//! Region subscription for log backup: which regions are observed, when
//! their initial scans run and are retried, and which checkpoint is safe for
//! the whole task. The operator loop's decisions, the retry policy of the
//! scan pool, checkpoint resolution and the flush tracing of the engine are
//! verified here; the running loops and the collaborators live outside.

pub mod backoff;
pub mod barrier;
pub mod checkpoint;
pub mod error;
pub mod flush;
pub mod region;
pub mod scan;
pub mod subscription_manager;
pub mod tracker;
