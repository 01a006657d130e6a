//! Result codes of the messaging client's native layer.
use vstd::prelude::*;

verus! {

/// The outcome of a call into the native messaging client: `Success`, or the
/// reason it failed.
#[derive(Clone, Copy, Debug, PartialEq, Eq, Structural)]
pub enum ResultCode {
    Success,
    UnknownError,
    InvalidConfiguration,
    Timeout,
    LookupError,
    ConnectError,
    ReadError,
    AuthenticationError,
    AuthorizationError,
    ErrorGettingAuthenticationData,
    BrokerMetadataError,
    BrokerPersistenceError,
    ChecksumError,
    ConsumerBusy,
    NotConnected,
    AlreadyClosed,
    InvalidMessage,
    ConsumerNotInitialized,
    ProducerNotInitialized,
    ProducerBusy,
    TooManyLookupRequestException,
    InvalidTopicName,
    InvalidUrl,
    ServiceUnitNotReady,
    OperationNotSupported,
    ProducerBlockedQuotaExceededError,
    ProducerBlockedQuotaExceededException,
    ProducerQueueIsFull,
    MessageTooBig,
    TopicNotFound,
    SubscriptionNotFound,
    ConsumerNotFound,
    UnsupportedVersionError,
    TopicTerminated,
    CryptoError,
    IncompatibleSchema,
    ConsumerAssignError,
    CumulativeAcknowledgementNotAllowedError,
    TransactionCoordinatorNotFoundError,
    InvalidTxnStatusError,
    NotAllowedError,
    TransactionConflict,
    TransactionNotFound,
    ProducerFenced,
    MemoryBufferIsFull,
    Interrupted,
}

impl ResultCode {
    /// `Ok(v)` where the code is `Success`; else the code itself as the error.
    pub fn err_or<U>(self, v: U) -> (r: Result<U, Self>)
        ensures
            self == ResultCode::Success ==> r == Ok::<U, Self>(v),
            self != ResultCode::Success ==> r == Err::<U, Self>(self),
    {
        match self {
            ResultCode::Success => Ok(v),
            code => Err(code),
        }
    }

    /// `Ok` of what `op` returns where the code is `Success` (and only then is `op`
    /// called); else the code itself as the error.
    pub fn err_or_else<U, F: FnOnce() -> U>(self, op: F) -> (r: Result<U, Self>)
        requires
            self == ResultCode::Success ==> op.requires(()),
        ensures
            self == ResultCode::Success ==> r is Ok && op.ensures((), r->Ok_0),
            self != ResultCode::Success ==> r == Err::<U, Self>(self),
    {
        match self {
            ResultCode::Success => Ok(op()),
            code => Err(code),
        }
    }
}

} // verus!
