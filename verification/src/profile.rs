//! One run of an upper-layer service over a link.

use vstd::prelude::*;
use crate::time::Timestamp;
use crate::types::{InitiatorType, ProfileId, ProfileType};

verus! {

/// The record of one run of a profile: when it began and ended, and who
/// began and ended it.
#[derive(Clone, Copy, PartialEq, Eq, Structural, Debug)]
pub struct ProfileInformation {
    pub start_time: Timestamp,
    pub end_time: Timestamp,
    pub profile_type: ProfileType,
    pub start_initiator: InitiatorType,
    pub end_initiator: InitiatorType,
    pub profile_id: ProfileId,
}

impl ProfileInformation {
    /// A record of which neither the beginning nor the end has been seen.
    pub open spec fn fresh(profile_type: ProfileType, profile_id: ProfileId) -> ProfileInformation {
        ProfileInformation {
            start_time: Timestamp::never(),
            end_time: Timestamp::never(),
            profile_type,
            start_initiator: InitiatorType::Unknown,
            end_initiator: InitiatorType::Unknown,
            profile_id,
        }
    }

    pub open spec fn started(self, initiator: InitiatorType, ts: Timestamp) -> ProfileInformation {
        ProfileInformation { start_initiator: initiator, start_time: ts, ..self }
    }

    pub open spec fn ended(self, initiator: InitiatorType, ts: Timestamp) -> ProfileInformation {
        ProfileInformation { end_initiator: initiator, end_time: ts, ..self }
    }

    /// Whether the run has not ended.
    pub open spec fn is_open(self) -> bool {
        !self.end_time.is_set()
    }

    pub fn new(profile_type: ProfileType, profile_id: ProfileId) -> (p: ProfileInformation)
        ensures
            p == ProfileInformation::fresh(profile_type, profile_id),
    {
        ProfileInformation {
            start_time: Timestamp::unset(),
            end_time: Timestamp::unset(),
            profile_type,
            start_initiator: InitiatorType::Unknown,
            end_initiator: InitiatorType::Unknown,
            profile_id,
        }
    }

    pub fn report_start(&mut self, initiator: InitiatorType, ts: Timestamp)
        ensures
            *final(self) == old(self).started(initiator, ts),
    {
        self.start_initiator = initiator;
        self.start_time = ts;
    }

    pub fn report_end(&mut self, initiator: InitiatorType, ts: Timestamp)
        ensures
            *final(self) == old(self).ended(initiator, ts),
    {
        self.end_initiator = initiator;
        self.end_time = ts;
    }
}

} // verus!
