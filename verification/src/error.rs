use vstd::prelude::*;

verus! {

/// Why a step of the aggregation could not produce its collection.
#[derive(Clone, Copy, Debug, PartialEq, Eq, Structural)]
pub enum AggregationError {
    /// A view call or a cache operation failed on the network or timed out.
    Transport,
    /// An answer was malformed or did not have the expected shape.
    Decode,
    /// A collection came back empty where at least one element was expected.
    EmptyResult,
}

/// How often a view call is made at most before its failure is passed on.
pub const MAX_ATTEMPTS: u32 = 3;

impl AggregationError {
    /// A transport failure may succeed when the same call is made again;
    /// the other kinds will not.
    pub open spec fn is_retryable(self) -> bool {
        self is Transport
    }

    pub fn retryable(&self) -> (r: bool)
        ensures
            r == self.is_retryable(),
    {
        match self {
            AggregationError::Transport => true,
            AggregationError::Decode => false,
            AggregationError::EmptyResult => false,
        }
    }

    /// Whether a call that failed with this error is to be made again, after
    /// `attempts` attempts: only while the error is retryable and the
    /// attempts are fewer than the most that are made.
    pub open spec fn calls_for_retry(self, attempts: u32) -> bool {
        self.is_retryable() && attempts < MAX_ATTEMPTS
    }

    pub fn retry_after(&self, attempts: u32) -> (again: bool)
        ensures
            again == self.calls_for_retry(attempts),
    {
        self.retryable() && attempts < MAX_ATTEMPTS
    }

    /// The name of the error kind.
    pub open spec fn label(self) -> Seq<char> {
        match self {
            AggregationError::Transport => "TransportError"@,
            AggregationError::Decode => "DecodeError"@,
            AggregationError::EmptyResult => "EmptyResultError"@,
        }
    }

    pub fn name(&self) -> (r: &'static str)
        ensures
            r@ == self.label(),
    {
        match self {
            AggregationError::Transport => "TransportError",
            AggregationError::Decode => "DecodeError",
            AggregationError::EmptyResult => "EmptyResultError",
        }
    }
}

} // verus!
