//! What the host stack tells its interface manager, and the suspend
//! modes of its modules.

use vstd::prelude::*;

verus! {

/// The parts of the stack that clients can call.
#[derive(Clone, Copy, PartialEq, Eq, Structural, Debug)]
pub enum BluetoothAPI {
    Adapter,
    Admin,
    Battery,
    Media,
    Gatt,
}

/// A message to the interface manager.
#[derive(Clone, Copy, PartialEq, Eq, Structural, Debug)]
pub enum APIMessage {
    /// A part of the stack is ready to be called.
    IsReady(BluetoothAPI),
    /// The stack is shutting down: every endpoint is to be removed.
    ShutDown,
}

/// The suspend mode of a module. A module that is not in the normal mode
/// pauses what suspending asks it to pause, and refuses some calls with
/// an error that invites to try again.
#[derive(Clone, Copy, PartialEq, Eq, Structural, Debug)]
pub enum SuspendMode {
    Normal,
    Suspending,
    Suspended,
    Resuming,
}

impl SuspendMode {
    /// The number that stands for the mode.
    pub open spec fn number(self) -> u32 {
        match self {
            SuspendMode::Normal => 0,
            SuspendMode::Suspending => 1,
            SuspendMode::Suspended => 2,
            SuspendMode::Resuming => 3,
        }
    }

    /// The mode that a number stands for, where it stands for one.
    pub open spec fn of_number(n: u32) -> Option<SuspendMode> {
        if n == 0 {
            Some(SuspendMode::Normal)
        } else if n == 1 {
            Some(SuspendMode::Suspending)
        } else if n == 2 {
            Some(SuspendMode::Suspended)
        } else if n == 3 {
            Some(SuspendMode::Resuming)
        } else {
            None
        }
    }

    pub fn to_u32(&self) -> (n: u32)
        ensures
            n == self.number(),
    {
        match self {
            SuspendMode::Normal => 0,
            SuspendMode::Suspending => 1,
            SuspendMode::Suspended => 2,
            SuspendMode::Resuming => 3,
        }
    }

    pub fn from_u32(n: u32) -> (mode: Option<SuspendMode>)
        ensures
            mode == Self::of_number(n),
    {
        match n {
            0 => Some(SuspendMode::Normal),
            1 => Some(SuspendMode::Suspending),
            2 => Some(SuspendMode::Suspended),
            3 => Some(SuspendMode::Resuming),
            _ => None,
        }
    }
}

/// Every mode is found again from its number, and from no other.
pub proof fn lemma_suspend_mode_round_trip(mode: SuspendMode, n: u32)
    ensures
        SuspendMode::of_number(mode.number()) == Some(mode),
        SuspendMode::of_number(n) == Some(mode) ==> mode.number() == n,
{
}

} // verus!
