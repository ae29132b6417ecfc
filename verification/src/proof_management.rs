//! Artifact upload with bounded retry, and the decisions of the proof
//! verification poll.  The store and verifier calls themselves happen
//! outside; the library decides what each outcome means.

use vstd::prelude::*;
use vstd::string::StringExecFns;

verus! {

/// Why an artifact store interaction failed.  A configuration error is
/// permanent; every other kind is treated as transient.
#[derive(Debug, Clone, PartialEq)]
pub enum IpfsError {
    RequestFailed(String),
    UploadFailed(String),
    CidExtraction(String),
    SerializationError(String),
    NetworkError(String),
    ConfigError(String),
}

/// Retrying can help with any failure but a configuration error.
pub open spec fn is_retryable(e: IpfsError) -> bool {
    !(e is ConfigError)
}

impl IpfsError {
    /// An exact copy, usable from verified callers.
    pub fn duplicate(&self) -> (r: IpfsError)
        ensures
            r == *self,
    {
        match self {
            IpfsError::RequestFailed(m) => IpfsError::RequestFailed(m.clone()),
            IpfsError::UploadFailed(m) => IpfsError::UploadFailed(m.clone()),
            IpfsError::CidExtraction(m) => IpfsError::CidExtraction(m.clone()),
            IpfsError::SerializationError(m) => IpfsError::SerializationError(m.clone()),
            IpfsError::NetworkError(m) => IpfsError::NetworkError(m.clone()),
            IpfsError::ConfigError(m) => IpfsError::ConfigError(m.clone()),
        }
    }

    /// Whether another attempt may succeed.
    pub fn retryable(&self) -> (r: bool)
        ensures
            r == is_retryable(*self),
    {
        match self {
            IpfsError::ConfigError(_) => false,
            _ => true,
        }
    }
}

/// What the artifact store answered to an upload attempt: the content
/// reference, or an error.
pub type UploadOutcome = Result<String, IpfsError>;

/// How often and how patiently uploads are retried.
#[derive(Debug, Clone, PartialEq)]
pub struct IpfsUploadConfig {
    pub max_retries: u32,
    pub retry_delay_secs: u64,
}

impl Default for IpfsUploadConfig {
    /// Up to three retries, two seconds apart.
    fn default() -> (r: IpfsUploadConfig)
        ensures
            r.max_retries == 3,
            r.retry_delay_secs == 2,
    {
        IpfsUploadConfig { max_retries: 3, retry_delay_secs: 2 }
    }
}

/// The upload service: it owns the retry policy and decides, attempt by
/// attempt, whether to retry.
pub struct IpfsService {
    config: IpfsUploadConfig,
}

impl IpfsService {
    /// The retry policy in force.
    pub closed spec fn config(&self) -> IpfsUploadConfig {
        self.config
    }

    /// A service with the given policy.
    pub fn new(config: IpfsUploadConfig) -> (r: IpfsService)
        ensures
            r.config() == config,
    {
        IpfsService { config }
    }

    /// Whether to attempt again after a failure, having already made
    /// `attempts_made` attempts in all: only while the error is transient and
    /// retries remain.
    pub fn should_retry(&self, e: &IpfsError, attempts_made: u32) -> (r: bool)
        ensures
            r == (is_retryable(*e) && attempts_made <= self.config().max_retries),
    {
        e.retryable() && attempts_made <= self.config.max_retries
    }

    /// What the retry loop makes of a run of attempt outcomes: the first
    /// outcome that ends the loop, and how many attempts were consumed.
    ///
    /// The run stops at the first success, at the first non-transient error,
    /// or after the initial attempt plus `max_retries` retries, whichever
    /// comes first, and returns that attempt's outcome.
    pub fn upload_with_retry(&self, outcomes: &Vec<UploadOutcome>) -> (r: (UploadOutcome, usize))
        requires
            outcomes@.len() > self.config().max_retries,
        ensures
            ({
                let attempts = r.1 as int;
                &&& 1 <= attempts <= self.config().max_retries + 1
                &&& attempts <= outcomes@.len()
                &&& forall|j: int|
                    0 <= j < attempts - 1 ==> (#[trigger] outcomes@[j]) is Err && is_retryable(
                        outcomes@[j]->Err_0,
                    )
                &&& r.0 == outcomes@[attempts - 1]
                &&& (outcomes@[attempts - 1] is Ok || !is_retryable(outcomes@[attempts - 1]->Err_0)
                    || attempts == self.config().max_retries + 1)
            }),
    {
        let max = self.config.max_retries as usize;
        let n = outcomes.len();
        let mut i: usize = 0;
        while i < max
            invariant
                i <= max,
                max == self.config().max_retries as int,
                max < n,
                n == outcomes@.len(),
                forall|j: int|
                    0 <= j < i as int ==> (#[trigger] outcomes@[j]) is Err && is_retryable(
                        outcomes@[j]->Err_0,
                    ),
            decreases max - i,
        {
            match &outcomes[i] {
                Ok(cid) => {
                    return (Ok(cid.clone()), i + 1);
                },
                Err(e) => {
                    if !e.retryable() {
                        return (Err(e.duplicate()), i + 1);
                    }
                },
            }
            i += 1;
        }
        match &outcomes[max] {
            Ok(cid) => (Ok(cid.clone()), max + 1),
            Err(e) => (Err(e.duplicate()), max + 1),
        }
    }
}

/// A pinning provider's answer to an upload.
#[derive(Debug, Clone, PartialEq)]
pub struct PinataUploadResponse {
    pub ipfs_hash: String,
    pub pin_size: u64,
}

/// The verifier accepted the proof submission optimistically.
pub fn submission_accepted(optimistic_verify: &String) -> (r: bool)
    ensures
        r == (optimistic_verify@ == "success"@),
{
    let expected = String::from_str("success");
    *optimistic_verify == expected
}

/// A verification job status after which polling stops: the job is finalized
/// or aggregation has begun.
pub fn job_finished(status: &String) -> (r: bool)
    ensures
        r == (status@ == "Finalized"@ || status@ == "Aggregated"@ || status@
            == "AggregationPending"@),
{
    let finalized = String::from_str("Finalized");
    let aggregated = String::from_str("Aggregated");
    let aggregation_pending = String::from_str("AggregationPending");
    *status == finalized || *status == aggregated || *status == aggregation_pending
}

} // verus!
