//! Options of a message consumer.
use vstd::prelude::*;

verus! {

/// How a subscription shares messages among its consumers.
#[derive(Clone, Copy, Debug, PartialEq, Eq, Structural)]
pub enum ConsumerType {
    Exclusive,
    Shared,
    Failover,
    KeyShared,
}

/// Where a new subscription starts reading.
#[derive(Clone, Copy, Debug, PartialEq, Eq, Structural)]
pub enum InitialPosition {
    Latest,
    Earliest,
}

/// What a consumer does with a message it cannot decrypt.
#[derive(Clone, Copy, Debug, PartialEq, Eq, Structural)]
pub enum ConsumerCryptoFailureAction {
    Fail,
    Discard,
    Consume,
}

} // verus!
