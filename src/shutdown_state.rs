//! The stages a service goes through when it shuts down.
use vstd::prelude::*;

verus! {

/// A stage of shutting down, in the order they come.
#[derive(Clone, Copy, Debug, PartialEq, Eq, Hash, Structural)]
pub enum ShutdownState {
    Initial,
    WaitForSignal,
    ShuttingDown,
    Aborting,
}

impl ShutdownState {
    /// The stage after this one; `Aborting` is the last.
    pub open spec fn successor(self) -> Option<ShutdownState> {
        match self {
            ShutdownState::Initial => Some(ShutdownState::WaitForSignal),
            ShutdownState::WaitForSignal => Some(ShutdownState::ShuttingDown),
            ShutdownState::ShuttingDown => Some(ShutdownState::Aborting),
            ShutdownState::Aborting => None,
        }
    }

    /// Moves to the next stage and returns it; at the last stage, stays there
    /// and returns `None`.
    pub fn next(&mut self) -> (r: Option<ShutdownState>)
        ensures
            r == old(self).successor(),
            *final(self) == match r {
                Some(s) => s,
                None => *old(self),
            },
    {
        match *self {
            ShutdownState::Initial => {
                *self = ShutdownState::WaitForSignal;
            },
            ShutdownState::WaitForSignal => {
                *self = ShutdownState::ShuttingDown;
            },
            ShutdownState::ShuttingDown => {
                *self = ShutdownState::Aborting;
            },
            ShutdownState::Aborting => return None,
        }
        Some(*self)
    }
}

impl Default for ShutdownState {
    fn default() -> (r: Self)
        ensures
            r == ShutdownState::Initial,
    {
        ShutdownState::Initial
    }
}

} // verus!
