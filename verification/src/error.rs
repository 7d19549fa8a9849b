use vstd::prelude::*;

verus! {

/// Why the price feed gave no usable sample.
#[derive(Clone, Copy, Debug, PartialEq, Eq, Structural)]
pub enum OracleError {
    /// The feed could not be turned into a sample.
    UpstreamUnavailable,
    /// The feed's quote lies too far from the present.
    StaleData,
}

/// Why a candidate trend value was turned down.
#[derive(Clone, Copy, Debug, PartialEq, Eq, Structural)]
pub enum ValidationError {
    /// The confidence band is too wide for the size of the price.
    LowConfidence,
    /// The reference price is negative.
    InvalidReferencePrice,
    /// The candidate lies outside the band around the reference price.
    OutOfBounds,
}

/// Every failure that an operation of the oracle can report to its caller.
#[derive(Clone, Copy, Debug, PartialEq, Eq, Structural)]
pub enum ErrorCode {
    StaleData,
    LowConfidence,
    InvalidReferencePrice,
    OutOfBounds,
    UpstreamUnavailable,
    NotFound,
}

impl OracleError {
    /// The caller-facing code of a feed failure.
    pub open spec fn code(self) -> ErrorCode {
        match self {
            OracleError::UpstreamUnavailable => ErrorCode::UpstreamUnavailable,
            OracleError::StaleData => ErrorCode::StaleData,
        }
    }

    pub fn to_code(self) -> (code: ErrorCode)
        ensures
            code == self.code(),
    {
        match self {
            OracleError::UpstreamUnavailable => ErrorCode::UpstreamUnavailable,
            OracleError::StaleData => ErrorCode::StaleData,
        }
    }
}

impl ValidationError {
    /// The caller-facing code of a rejection.
    pub open spec fn code(self) -> ErrorCode {
        match self {
            ValidationError::LowConfidence => ErrorCode::LowConfidence,
            ValidationError::InvalidReferencePrice => ErrorCode::InvalidReferencePrice,
            ValidationError::OutOfBounds => ErrorCode::OutOfBounds,
        }
    }

    pub fn to_code(self) -> (code: ErrorCode)
        ensures
            code == self.code(),
    {
        match self {
            ValidationError::LowConfidence => ErrorCode::LowConfidence,
            ValidationError::InvalidReferencePrice => ErrorCode::InvalidReferencePrice,
            ValidationError::OutOfBounds => ErrorCode::OutOfBounds,
        }
    }
}

} // verus!
