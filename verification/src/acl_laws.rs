//! What holds of every link session, whatever happens in it.

use vstd::prelude::*;
use crate::acl::{is_first_profile, profile_position, AclEvent, AclView};
use crate::profile::ProfileInformation;
use crate::time::Timestamp;
use crate::types::{
    CidInformation, ConnectionHandle, ConnectionResponseResult, InitiatorType, ProfileId,
    ProfileType, Transport,
};

verus! {

impl ProfileInformation {
    /// Whether nothing of the record is later than `now`, and its end
    /// not earlier than its start.
    pub open spec fn timely(self, now: Timestamp) -> bool {
        &&& self.start_time.is_set() ==> self.start_time.le(now)
        &&& self.end_time.is_set() ==> self.end_time.le(now)
        &&& self.start_time.is_set() && self.end_time.is_set() ==> self.start_time.le(
            self.end_time,
        )
    }
}

/// Whether every record of `profiles` is timely.
pub open spec fn profiles_timely(profiles: Seq<ProfileInformation>, now: Timestamp) -> bool {
    forall|i: int| 0 <= i < profiles.len() ==> (#[trigger] profiles[i]).timely(now)
}

/// Whether every record of `profiles` has yet to end.
pub open spec fn profiles_open(profiles: Seq<ProfileInformation>) -> bool {
    forall|i: int| 0 <= i < profiles.len() ==> (#[trigger] profiles[i]).is_open()
}

impl AclView {
    /// Whether the running profiles are told apart by their identities:
    /// no identity occurs twice among them.
    pub open spec fn wf(self) -> bool {
        forall|i: int, j: int|
            0 <= i < j < self.active_profiles.len() ==> (#[trigger] self.active_profiles[i]).profile_id
                != (#[trigger] self.active_profiles[j]).profile_id
    }

    /// Whether the session's end is not earlier than its start, where
    /// both have been seen.
    pub open spec fn ends_after_start(self) -> bool {
        self.start_time.is_set() && self.end_time.is_set() ==> self.start_time.le(self.end_time)
    }

    /// Whether nothing in the session is later than `now`, no end
    /// earlier than its start, and no running profile has an end.
    pub open spec fn timely(self, now: Timestamp) -> bool {
        &&& self.start_time.is_set() ==> self.start_time.le(now)
        &&& self.end_time.is_set() ==> self.end_time.le(now)
        &&& self.ends_after_start()
        &&& profiles_timely(self.active_profiles, now)
        &&& profiles_timely(self.inactive_profiles, now)
        &&& profiles_open(self.active_profiles)
    }

    /// Whether the session is well formed and timely.
    pub open spec fn kept(self, now: Timestamp) -> bool {
        self.wf() && self.timely(now)
    }

    /// Whether no profile runs on in the session once it has ended.
    pub open spec fn quiet(self) -> bool {
        !self.is_open() ==> self.active_profiles.len() == 0
    }
}

/// An identity that has a place among the profiles has a first place.
pub proof fn lemma_profile_has_first(s: Seq<ProfileInformation>, id: ProfileId, j: int)
    requires
        0 <= j < s.len(),
        s[j].profile_id == id,
    ensures
        profile_position(s, id) is Some,
    decreases j,
{
    if exists|k: int| 0 <= k < j && (#[trigger] s[k]).profile_id == id {
        let k = choose|k: int| 0 <= k < j && (#[trigger] s[k]).profile_id == id;
        lemma_profile_has_first(s, id, k);
    } else {
        assert(is_first_profile(s, id, j));
    }
}

/// What `profile_position` finds is a first place, and where it finds
/// none the identity has no place.
pub proof fn lemma_profile_position_found(s: Seq<ProfileInformation>, id: ProfileId)
    ensures
        match profile_position(s, id) {
            Some(i) => is_first_profile(s, id, i),
            None => forall|j: int| 0 <= j < s.len() ==> (#[trigger] s[j]).profile_id != id,
        },
{
    match profile_position(s, id) {
        Some(i) => {},
        None => {
            assert forall|j: int| 0 <= j < s.len() implies (#[trigger] s[j]).profile_id != id by {
                if s[j].profile_id == id {
                    lemma_profile_has_first(s, id, j);
                }
            }
        },
    }
}

/// A session of which nothing has been seen is in order.
pub proof fn lemma_fresh_kept(handle: ConnectionHandle, transport: Transport, now: Timestamp)
    ensures
        AclView::fresh(handle, transport).kept(now),
        AclView::fresh(handle, transport).quiet(),
        AclView::fresh(handle, transport).is_open(),
        AclView::fresh(handle, transport).handle == handle,
{
}

/// A session stays in order when a profile begins in it.
pub proof fn lemma_profile_started_kept(
    v: AclView,
    profile_type: ProfileType,
    profile_id: ProfileId,
    initiator: InitiatorType,
    ts: Timestamp,
    now: Timestamp,
)
    requires
        v.kept(now),
        now.le(ts),
    ensures
        v.profile_started(profile_type, profile_id, initiator, ts).kept(ts),
        v.profile_started(profile_type, profile_id, initiator, ts).start_time == v.start_time,
        v.profile_started(profile_type, profile_id, initiator, ts).end_time == v.end_time,
        v.profile_started(profile_type, profile_id, initiator, ts).handle == v.handle,
{
    lemma_profile_position_found(v.active_profiles, profile_id);
    let r = v.profile_started(profile_type, profile_id, initiator, ts);
    let profile = ProfileInformation::fresh(profile_type, profile_id).started(initiator, ts);
    assert(profile.timely(ts));
    assert(profile.is_open());
    match profile_position(v.active_profiles, profile_id) {
        Some(i) => {
            assert forall|a: int, b: int| 0 <= a < b < r.active_profiles.len() implies (
            #[trigger] r.active_profiles[a]).profile_id != (
            #[trigger] r.active_profiles[b]).profile_id by {
                assert(r.active_profiles[a].profile_id == v.active_profiles[a].profile_id);
                assert(r.active_profiles[b].profile_id == v.active_profiles[b].profile_id);
            }
            assert forall|a: int| 0 <= a < r.active_profiles.len() implies (
            #[trigger] r.active_profiles[a]).timely(ts) && r.active_profiles[a].is_open() by {
                if a != i {
                    assert(v.active_profiles[a].timely(now));
                }
            }
            assert forall|a: int| 0 <= a < r.inactive_profiles.len() implies (
            #[trigger] r.inactive_profiles[a]).timely(ts) by {
                if a < v.inactive_profiles.len() {
                    assert(v.inactive_profiles[a].timely(now));
                } else {
                    assert(v.active_profiles[i].timely(now));
                }
            }
        },
        None => {
            assert forall|a: int, b: int| 0 <= a < b < r.active_profiles.len() implies (
            #[trigger] r.active_profiles[a]).profile_id != (
            #[trigger] r.active_profiles[b]).profile_id by {
                if b < v.active_profiles.len() {
                    assert(r.active_profiles[a] == v.active_profiles[a]);
                    assert(r.active_profiles[b] == v.active_profiles[b]);
                } else {
                    assert(r.active_profiles[a] == v.active_profiles[a]);
                }
            }
            assert forall|a: int| 0 <= a < r.active_profiles.len() implies (
            #[trigger] r.active_profiles[a]).timely(ts) && r.active_profiles[a].is_open() by {
                if a < v.active_profiles.len() {
                    assert(v.active_profiles[a].timely(now));
                }
            }
            assert forall|a: int| 0 <= a < r.inactive_profiles.len() implies (
            #[trigger] r.inactive_profiles[a]).timely(ts) by {
                assert(v.inactive_profiles[a].timely(now));
            }
        },
    }
}

/// A session stays in order when a profile ends in it.
pub proof fn lemma_profile_ended_kept(
    v: AclView,
    profile_type: ProfileType,
    profile_id: ProfileId,
    initiator: InitiatorType,
    ts: Timestamp,
    now: Timestamp,
)
    requires
        v.kept(now),
        now.le(ts),
    ensures
        v.profile_ended(profile_type, profile_id, initiator, ts).kept(ts),
        v.profile_ended(profile_type, profile_id, initiator, ts).start_time == v.start_time,
        v.profile_ended(profile_type, profile_id, initiator, ts).end_time == v.end_time,
        v.profile_ended(profile_type, profile_id, initiator, ts).handle == v.handle,
{
    lemma_profile_position_found(v.active_profiles, profile_id);
    let r = v.profile_ended(profile_type, profile_id, initiator, ts);
    match profile_position(v.active_profiles, profile_id) {
        Some(i) => {
            assert forall|a: int, b: int| 0 <= a < b < r.active_profiles.len() implies (
            #[trigger] r.active_profiles[a]).profile_id != (
            #[trigger] r.active_profiles[b]).profile_id by {
                let a0 = if a < i {
                    a
                } else {
                    a + 1
                };
                let b0 = if b < i {
                    b
                } else {
                    b + 1
                };
                assert(r.active_profiles[a] == v.active_profiles[a0]);
                assert(r.active_profiles[b] == v.active_profiles[b0]);
            }
            assert forall|a: int| 0 <= a < r.active_profiles.len() implies (
            #[trigger] r.active_profiles[a]).timely(ts) && r.active_profiles[a].is_open() by {
                let a0 = if a < i {
                    a
                } else {
                    a + 1
                };
                assert(r.active_profiles[a] == v.active_profiles[a0]);
                assert(v.active_profiles[a0].timely(now));
            }
            assert forall|a: int| 0 <= a < r.inactive_profiles.len() implies (
            #[trigger] r.inactive_profiles[a]).timely(ts) by {
                if a < v.inactive_profiles.len() {
                    assert(v.inactive_profiles[a].timely(now));
                } else {
                    assert(v.active_profiles[i].timely(now));
                }
            }
        },
        None => {
            assert forall|a: int| 0 <= a < r.active_profiles.len() implies (
            #[trigger] r.active_profiles[a]).timely(ts) && r.active_profiles[a].is_open() by {
                assert(v.active_profiles[a].timely(now));
            }
            assert forall|a: int| 0 <= a < r.inactive_profiles.len() implies (
            #[trigger] r.inactive_profiles[a]).timely(ts) by {
                if a < v.inactive_profiles.len() {
                    assert(v.inactive_profiles[a].timely(now));
                }
            }
        },
    }
}

/// The end of a session ends every profile that runs in it, at the
/// time and by the side that ends the session; none runs on, and what
/// had ended before stays as it was.
pub proof fn lemma_end_ends_profiles(v: AclView, initiator: InitiatorType, ts: Timestamp)
    ensures
        v.ended(initiator, ts).active_profiles.len() == 0,
        v.ended(initiator, ts).end_time == ts,
        v.ended(initiator, ts).end_initiator == initiator,
        v.ended(initiator, ts).inactive_profiles.len() == v.inactive_profiles.len()
            + v.active_profiles.len(),
        forall|k: int|
            0 <= k < v.inactive_profiles.len() ==> v.ended(initiator, ts).inactive_profiles[k]
                == v.inactive_profiles[k],
        forall|k: int|
            #![trigger v.active_profiles[k]]
            0 <= k < v.active_profiles.len() ==> {
                let p = v.ended(initiator, ts).inactive_profiles[v.inactive_profiles.len() + k];
                &&& p == v.active_profiles[k].ended(initiator, ts)
                &&& p.end_time == v.ended(initiator, ts).end_time
                &&& p.end_initiator == v.ended(initiator, ts).end_initiator
                &&& p.profile_id == v.active_profiles[k].profile_id
                &&& p.start_time == v.active_profiles[k].start_time
            },
{
}

/// A session stays in order when it ends.
pub proof fn lemma_ended_kept(v: AclView, initiator: InitiatorType, ts: Timestamp, now: Timestamp)
    requires
        v.kept(now),
        now.le(ts),
    ensures
        v.ended(initiator, ts).kept(ts),
        v.ended(initiator, ts).quiet(),
        v.ended(initiator, ts).handle == v.handle,
{
    let r = v.ended(initiator, ts);
    lemma_end_ends_profiles(v, initiator, ts);
    assert forall|a: int| 0 <= a < r.inactive_profiles.len() implies (
    #[trigger] r.inactive_profiles[a]).timely(ts) by {
        if a < v.inactive_profiles.len() {
            assert(v.inactive_profiles[a].timely(now));
        } else {
            let k = a - v.inactive_profiles.len();
            assert(v.active_profiles[k].timely(now));
            assert(r.inactive_profiles[a] == v.active_profiles[k].ended(initiator, ts));
        }
    }
}

/// A session stays in order when a request to open a channel is answered.
pub proof fn lemma_channel_answered_kept(
    v: AclView,
    status: ConnectionResponseResult,
    cid_info: CidInformation,
    initiator: InitiatorType,
    ts: Timestamp,
    now: Timestamp,
)
    requires
        v.kept(now),
        now.le(ts),
    ensures
        v.channel_answered(status, cid_info, initiator, ts).kept(ts),
        v.channel_answered(status, cid_info, initiator, ts).start_time == v.start_time,
        v.channel_answered(status, cid_info, initiator, ts).end_time == v.end_time,
        v.channel_answered(status, cid_info, initiator, ts).handle == v.handle,
{
    lemma_still_kept(v, now, ts);
    match v.requested_service(cid_info, initiator) {
        None => {},
        Some(psm) => {
            let id = ProfileId::L2capCid(cid_info);
            match ProfileType::of_psm(psm) {
                Some(profile) => {
                    if status == ConnectionResponseResult::Success {
                        let linked = AclView {
                            host_cids: v.host_cids.insert(
                                cid_info.host_cid,
                                crate::types::CidState::Connected(cid_info.peer_cid, psm),
                            ),
                            peer_cids: v.peer_cids.insert(
                                cid_info.peer_cid,
                                crate::types::CidState::Connected(cid_info.host_cid, psm),
                            ),
                            ..v
                        };
                        assert(linked.kept(now));
                        lemma_profile_started_kept(linked, profile, id, initiator, ts, now);
                    } else {
                        lemma_profile_started_kept(v, profile, id, initiator, ts, now);
                        lemma_profile_ended_kept(
                            v.profile_started(profile, id, initiator, ts),
                            profile,
                            id,
                            initiator,
                            ts,
                            ts,
                        );
                    }
                },
                None => {},
            }
        },
    }
}

/// A session that is in order stays so as time goes by.
pub proof fn lemma_still_kept(v: AclView, now: Timestamp, later: Timestamp)
    requires
        v.kept(now),
        now.le(later),
    ensures
        v.kept(later),
{
    assert forall|a: int| 0 <= a < v.active_profiles.len() implies (
    #[trigger] v.active_profiles[a]).timely(later) by {
        assert(v.active_profiles[a].timely(now));
    }
    assert forall|a: int| 0 <= a < v.inactive_profiles.len() implies (
    #[trigger] v.inactive_profiles[a]).timely(later) by {
        assert(v.inactive_profiles[a].timely(now));
    }
}

/// A session stays in order whatever happens in it, as long as time
/// does not run backwards. Only its end changes when it ends, and no
/// profile runs on in it once it has ended.
pub proof fn lemma_after_kept(v: AclView, event: AclEvent, ts: Timestamp, now: Timestamp)
    requires
        v.kept(now),
        now.le(ts),
    ensures
        v.after(event, ts).kept(ts),
        v.after(event, ts).handle == v.handle,
        v.after(event, ts).start_time == v.start_time,
        !(event is End) ==> v.after(event, ts).end_time == v.end_time,
        event is End ==> v.after(event, ts).end_time == ts,
        (v.is_open() || event is End) ==> v.after(event, ts).quiet(),
{
    lemma_still_kept(v, now, ts);
    match event {
        AclEvent::End { initiator } => {
            lemma_ended_kept(v, initiator, ts, now);
        },
        AclEvent::ProfileStart { profile_type, profile_id, initiator } => {
            lemma_profile_started_kept(v, profile_type, profile_id, initiator, ts, now);
        },
        AclEvent::ProfileEnd { profile_type, profile_id, initiator } => {
            lemma_profile_ended_kept(v, profile_type, profile_id, initiator, ts, now);
        },
        AclEvent::ChannelRequest { psm, cid, initiator } => {},
        AclEvent::ChannelResponse { status, cid_info, initiator } => {
            lemma_channel_answered_kept(v, status, cid_info, initiator, ts, now);
        },
        AclEvent::ChannelClose { cid_info, initiator } => {
            let cleared = AclView {
                host_cids: v.host_cids.remove(cid_info.host_cid),
                peer_cids: v.peer_cids.remove(cid_info.peer_cid),
                ..v
            };
            assert(cleared.kept(ts));
            match v.closing_service(cid_info) {
                None => {},
                Some(psm) => match ProfileType::of_psm(psm) {
                    Some(profile) => {
                        lemma_profile_ended_kept(
                            cleared,
                            profile,
                            ProfileId::L2capCid(cid_info),
                            initiator,
                            ts,
                            ts,
                        );
                    },
                    None => {},
                },
            }
        },
    }
}

} // verus!
