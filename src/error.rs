//! Errors met while starting an observation, and which of them are worth a
//! retry.
use crate::region::ObserveHandle;
use vstd::prelude::*;

verus! {

/// The message by which the raft layer reports that an observe id is stale.
pub const STALE_OBSERVE_ID: &'static str = "stale observe id";

/// The region error carried by a failed raft request.
#[derive(Clone, Debug)]
pub struct RequestError {
    pub message: String,
    pub epoch_not_match: bool,
    pub not_leader: bool,
    pub region_not_found: bool,
}

#[derive(Debug)]
pub enum Error {
    /// A raft request failed with a region error.
    RaftRequest(RequestError),
    /// The raft layer does not know the region.
    RegionNotFound(u64),
    /// This store does not lead the region.
    NotLeader(u64),
    /// The region's epoch changed under the request.
    EpochNotMatch(String),
    /// A newer operation superseded the observation of the region.
    ObserveCanceled(u64, ObserveHandle),
    /// The memory quota of the initial scan ran out.
    OutOfQuota { region_id: u64 },
    /// Any other failure: RPC, backend, I/O.
    Other(String),
    /// An error with a note on where it happened.
    Contextual { context: String, inner_error: Box<Error> },
}

/// `pat` occurs in `s` at some position.
pub open spec fn is_substring(pat: Seq<char>, s: Seq<char>) -> bool {
    exists|i: int| 0 <= i && i + pat.len() <= s.len() && #[trigger] s.subrange(i, i + pat.len()) == pat
}

/// Relies on `str::contains` with a `&str` pattern: true exactly when the
/// pattern occurs in `s`.
#[verifier::external_body]
fn str_contains(s: &str, pat: &str) -> (r: bool)
    ensures
        r == is_substring(pat@, s@),
{
    s.contains(pat)
}

/// The error under all contexts.
pub open spec fn root_cause(e: Error) -> Error
    decreases e,
{
    match e {
        Error::Contextual { inner_error, .. } => root_cause(*inner_error),
        _ => e,
    }
}

/// A region error that says the region drifted away from this observer.
pub open spec fn request_error_is_drift(r: RequestError) -> bool {
    r.epoch_not_match || r.not_leader || r.region_not_found || is_substring(
        STALE_OBSERVE_ID@,
        r.message@,
    )
}

/// An error is retryable unless it says that the region moved away (epoch
/// mismatch, not leader, region not found, stale observe id) or that the
/// observation was canceled.
pub open spec fn is_retryable(e: Error) -> bool {
    match root_cause(e) {
        Error::RaftRequest(r) => !request_error_is_drift(r),
        Error::RegionNotFound(_) => false,
        Error::NotLeader(_) => false,
        Error::EpochNotMatch(_) => false,
        Error::ObserveCanceled(..) => false,
        _ => true,
    }
}

pub open spec fn is_canceled(e: Error) -> bool {
    root_cause(e) is ObserveCanceled
}

impl Error {
    /// The error under all contexts.
    pub fn without_context(&self) -> (r: &Error)
        ensures
            *r == root_cause(*self),
        decreases self,
    {
        match self {
            Error::Contextual { inner_error, .. } => inner_error.without_context(),
            _ => self,
        }
    }

    /// Wraps the error with a note on where it happened.
    pub fn context(self, context: String) -> (r: Error)
        ensures
            r == (Error::Contextual { context, inner_error: Box::new(self) }),
            root_cause(r) == root_cause(self),
    {
        Error::Contextual { context, inner_error: Box::new(self) }
    }

    /// Whether the error says that a newer operation superseded the
    /// observation.
    pub fn is_observe_canceled(&self) -> (r: bool)
        ensures
            r == is_canceled(*self),
    {
        match self.without_context() {
            Error::ObserveCanceled(..) => true,
            _ => false,
        }
    }
}

/// Whether a failed attempt should be tried again. Errors that say the region
/// drifted away from this observer (epoch mismatch, not leader, region not
/// found, a stale observe id) or that the observation was canceled are not
/// retried: the region is gone, renamed or superseded.
pub fn should_retry(err: &Error) -> (r: bool)
    ensures
        r == is_retryable(*err),
{
    match err.without_context() {
        Error::RaftRequest(pbe) => {
            let stale = str_contains(pbe.message.as_str(), STALE_OBSERVE_ID);
            proof {
                reveal_strlit("stale observe id");
            }
            !(pbe.epoch_not_match || pbe.not_leader || stale || pbe.region_not_found)
        },
        Error::RegionNotFound(_) => false,
        Error::NotLeader(_) => false,
        Error::ObserveCanceled(..) => false,
        Error::EpochNotMatch(_) => false,
        _ => true,
    }
}

} // verus!
