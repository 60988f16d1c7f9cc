//! One physical link, from its start to its end, with the channels and
//! profiles that ran over it.

use std::collections::HashMap;
use vstd::prelude::*;
use crate::profile::ProfileInformation;
use crate::time::Timestamp;
use crate::types::{
    Cid, CidInformation, CidState, ConnectionHandle, ConnectionResponseResult, InitiatorType,
    ProfileId, ProfileType, Psm, Transport,
};

verus! {

broadcast use vstd::std_specs::hash::group_hash_axioms;

/// The session of one physical link.
///
/// The profiles that run are kept in the order in which they began, at most
/// one for each profile identity. The profiles that have ended are kept in
/// the order in which they ended.
pub struct AclInformation {
    pub start_time: Timestamp,
    pub end_time: Timestamp,
    pub handle: ConnectionHandle,
    pub transport: Transport,
    pub start_initiator: InitiatorType,
    pub end_initiator: InitiatorType,
    pub active_profiles: Vec<ProfileInformation>,
    pub inactive_profiles: Vec<ProfileInformation>,
    pub host_cids: HashMap<Cid, CidState>,
    pub peer_cids: HashMap<Cid, CidState>,
}

/// The mathematical value of a link session.
pub struct AclView {
    pub start_time: Timestamp,
    pub end_time: Timestamp,
    pub handle: ConnectionHandle,
    pub transport: Transport,
    pub start_initiator: InitiatorType,
    pub end_initiator: InitiatorType,
    pub active_profiles: Seq<ProfileInformation>,
    pub inactive_profiles: Seq<ProfileInformation>,
    pub host_cids: Map<Cid, CidState>,
    pub peer_cids: Map<Cid, CidState>,
}

impl View for AclInformation {
    type V = AclView;

    open spec fn view(&self) -> AclView {
        AclView {
            start_time: self.start_time,
            end_time: self.end_time,
            handle: self.handle,
            transport: self.transport,
            start_initiator: self.start_initiator,
            end_initiator: self.end_initiator,
            active_profiles: self.active_profiles@,
            inactive_profiles: self.inactive_profiles@,
            host_cids: self.host_cids@,
            peer_cids: self.peer_cids@,
        }
    }
}

/// Whether `i` is the first place in `s` of a profile with identity `id`.
pub open spec fn is_first_profile(s: Seq<ProfileInformation>, id: ProfileId, i: int) -> bool {
    &&& 0 <= i < s.len()
    &&& s[i].profile_id == id
    &&& forall|j: int| 0 <= j < i ==> (#[trigger] s[j]).profile_id != id
}

/// The first place in `s` of a profile with identity `id`.
pub open spec fn profile_position(s: Seq<ProfileInformation>, id: ProfileId) -> Option<int> {
    if exists|i: int| is_first_profile(s, id, i) {
        Some(choose|i: int| is_first_profile(s, id, i))
    } else {
        None
    }
}

/// A first place is the only first place.
pub proof fn lemma_profile_position(s: Seq<ProfileInformation>, id: ProfileId, i: int)
    requires
        is_first_profile(s, id, i),
    ensures
        profile_position(s, id) == Some(i),
{
    let c = choose|c: int| is_first_profile(s, id, c);
    assert(is_first_profile(s, id, c));
    if c < i {
        assert(s[c].profile_id != id);
    }
    if i < c {
        assert(s[i].profile_id != id);
    }
}

/// The state of a channel, where the table holds one for `cid`.
pub open spec fn channel_state(table: Map<Cid, CidState>, cid: Cid) -> Option<CidState> {
    if table.contains_key(cid) {
        Some(table[cid])
    } else {
        None
    }
}

/// The service of the channel `cid`, where its opening is awaiting an answer.
pub open spec fn pending_service(table: Map<Cid, CidState>, cid: Cid) -> Option<Psm> {
    match channel_state(table, cid) {
        Some(CidState::Pending(psm)) => Some(psm),
        _ => None,
    }
}

/// The service of the channel `cid`, where it is open.
pub open spec fn connected_service(table: Map<Cid, CidState>, cid: Cid) -> Option<Psm> {
    match channel_state(table, cid) {
        Some(CidState::Connected(_, psm)) => Some(psm),
        _ => None,
    }
}

impl AclView {
    /// A session of which neither the start nor the end has been seen.
    pub open spec fn fresh(handle: ConnectionHandle, transport: Transport) -> AclView {
        AclView {
            start_time: Timestamp::never(),
            end_time: Timestamp::never(),
            handle,
            transport,
            start_initiator: InitiatorType::Unknown,
            end_initiator: InitiatorType::Unknown,
            active_profiles: Seq::empty(),
            inactive_profiles: Seq::empty(),
            host_cids: Map::empty(),
            peer_cids: Map::empty(),
        }
    }

    /// Whether the session has not ended.
    pub open spec fn is_open(self) -> bool {
        !self.end_time.is_set()
    }

    pub open spec fn started(self, initiator: InitiatorType, ts: Timestamp) -> AclView {
        AclView { start_initiator: initiator, start_time: ts, ..self }
    }

    /// The session after its end: every profile that ran is ended with
    /// the session, in the order in which they began, and none runs on.
    pub open spec fn ended(self, initiator: InitiatorType, ts: Timestamp) -> AclView {
        AclView {
            active_profiles: Seq::empty(),
            inactive_profiles: self.inactive_profiles + self.active_profiles.map_values(
                |p: ProfileInformation| p.ended(initiator, ts),
            ),
            end_initiator: initiator,
            end_time: ts,
            ..self
        }
    }

    /// The session after a profile began. A running profile of the same
    /// identity gives way to the new one and counts as ended, as it stands.
    pub open spec fn profile_started(
        self,
        profile_type: ProfileType,
        profile_id: ProfileId,
        initiator: InitiatorType,
        ts: Timestamp,
    ) -> AclView {
        let profile = ProfileInformation::fresh(profile_type, profile_id).started(initiator, ts);
        match profile_position(self.active_profiles, profile_id) {
            Some(i) => AclView {
                active_profiles: self.active_profiles.update(i, profile),
                inactive_profiles: self.inactive_profiles.push(self.active_profiles[i]),
                ..self
            },
            None => AclView { active_profiles: self.active_profiles.push(profile), ..self },
        }
    }

    /// The session after a profile ended. Where no profile of that
    /// identity ran, the end is recorded of a profile whose start was not seen.
    pub open spec fn profile_ended(
        self,
        profile_type: ProfileType,
        profile_id: ProfileId,
        initiator: InitiatorType,
        ts: Timestamp,
    ) -> AclView {
        match profile_position(self.active_profiles, profile_id) {
            Some(i) => AclView {
                active_profiles: self.active_profiles.remove(i),
                inactive_profiles: self.inactive_profiles.push(
                    self.active_profiles[i].ended(initiator, ts),
                ),
                ..self
            },
            None => AclView {
                inactive_profiles: self.inactive_profiles.push(
                    ProfileInformation::fresh(profile_type, profile_id).ended(initiator, ts),
                ),
                ..self
            },
        }
    }

    /// The session after one side asked to open a channel for `psm`,
    /// naming its own end `cid`.
    pub open spec fn channel_requested(self, psm: Psm, cid: Cid, initiator: InitiatorType) -> AclView {
        match initiator {
            InitiatorType::Host => AclView {
                host_cids: self.host_cids.insert(cid, CidState::Pending(psm)),
                ..self
            },
            InitiatorType::Peer => AclView {
                peer_cids: self.peer_cids.insert(cid, CidState::Pending(psm)),
                ..self
            },
            InitiatorType::Unknown => self,
        }
    }

    /// The service whose opening `initiator` asked for on its end of `cid_info`.
    pub open spec fn requested_service(
        self,
        cid_info: CidInformation,
        initiator: InitiatorType,
    ) -> Option<Psm> {
        match initiator {
            InitiatorType::Host => pending_service(self.host_cids, cid_info.host_cid),
            InitiatorType::Peer => pending_service(self.peer_cids, cid_info.peer_cid),
            InitiatorType::Unknown => None,
        }
    }

    /// The session after the request of `initiator` was answered.
    ///
    /// An answer to a request that was not seen changes nothing. On
    /// success both ends of the channel are noted as connected, and the
    /// profile of a known service begins. Any other answer opens and
    /// closes the profile of a known service at once.
    pub open spec fn channel_answered(
        self,
        status: ConnectionResponseResult,
        cid_info: CidInformation,
        initiator: InitiatorType,
        ts: Timestamp,
    ) -> AclView {
        match self.requested_service(cid_info, initiator) {
            None => self,
            Some(psm) => {
                let id = ProfileId::L2capCid(cid_info);
                if status == ConnectionResponseResult::Success {
                    let linked = AclView {
                        host_cids: self.host_cids.insert(
                            cid_info.host_cid,
                            CidState::Connected(cid_info.peer_cid, psm),
                        ),
                        peer_cids: self.peer_cids.insert(
                            cid_info.peer_cid,
                            CidState::Connected(cid_info.host_cid, psm),
                        ),
                        ..self
                    };
                    match ProfileType::of_psm(psm) {
                        Some(profile) => linked.profile_started(profile, id, initiator, ts),
                        None => linked,
                    }
                } else {
                    match ProfileType::of_psm(psm) {
                        Some(profile) => self.profile_started(
                            profile,
                            id,
                            initiator,
                            ts,
                        ).profile_ended(profile, id, initiator, ts),
                        None => self,
                    }
                }
            },
        }
    }

    /// The service of the open channel `cid_info`: as the host's table has
    /// it, else as the peer's has it.
    pub open spec fn closing_service(self, cid_info: CidInformation) -> Option<Psm> {
        match connected_service(self.host_cids, cid_info.host_cid) {
            Some(psm) => Some(psm),
            None => connected_service(self.peer_cids, cid_info.peer_cid),
        }
    }

    /// The session after the channel `cid_info` was closed: both ends are
    /// forgotten, and the profile of its service, if known, has ended.
    pub open spec fn channel_closed(
        self,
        cid_info: CidInformation,
        initiator: InitiatorType,
        ts: Timestamp,
    ) -> AclView {
        let cleared = AclView {
            host_cids: self.host_cids.remove(cid_info.host_cid),
            peer_cids: self.peer_cids.remove(cid_info.peer_cid),
            ..self
        };
        match self.closing_service(cid_info) {
            None => cleared,
            Some(psm) => match ProfileType::of_psm(psm) {
                Some(profile) => cleared.profile_ended(
                    profile,
                    ProfileId::L2capCid(cid_info),
                    initiator,
                    ts,
                ),
                None => cleared,
            },
        }
    }
}

/// Something that happens within one link session.
#[derive(Clone, Copy, PartialEq, Eq, Structural, Debug)]
pub enum AclEvent {
    /// The session ends.
    End { initiator: InitiatorType },
    /// A profile begins.
    ProfileStart { profile_type: ProfileType, profile_id: ProfileId, initiator: InitiatorType },
    /// A profile ends.
    ProfileEnd { profile_type: ProfileType, profile_id: ProfileId, initiator: InitiatorType },
    /// One side asks to open a channel.
    ChannelRequest { psm: Psm, cid: Cid, initiator: InitiatorType },
    /// A request to open a channel is answered.
    ChannelResponse {
        status: ConnectionResponseResult,
        cid_info: CidInformation,
        initiator: InitiatorType,
    },
    /// A channel is closed.
    ChannelClose { cid_info: CidInformation, initiator: InitiatorType },
}

impl AclView {
    /// The session after `event` happened at `ts`.
    pub open spec fn after(self, event: AclEvent, ts: Timestamp) -> AclView {
        match event {
            AclEvent::End { initiator } => self.ended(initiator, ts),
            AclEvent::ProfileStart { profile_type, profile_id, initiator } => self.profile_started(
                profile_type,
                profile_id,
                initiator,
                ts,
            ),
            AclEvent::ProfileEnd { profile_type, profile_id, initiator } => self.profile_ended(
                profile_type,
                profile_id,
                initiator,
                ts,
            ),
            AclEvent::ChannelRequest { psm, cid, initiator } => self.channel_requested(
                psm,
                cid,
                initiator,
            ),
            AclEvent::ChannelResponse { status, cid_info, initiator } => self.channel_answered(
                status,
                cid_info,
                initiator,
                ts,
            ),
            AclEvent::ChannelClose { cid_info, initiator } => self.channel_closed(
                cid_info,
                initiator,
                ts,
            ),
        }
    }
}

/// The values of a list of sessions.
pub open spec fn acl_views(v: Seq<AclInformation>) -> Seq<AclView> {
    v.map_values(|a: AclInformation| a@)
}

/// The first place in `v` of a profile with identity `id`.
fn find_profile(v: &Vec<ProfileInformation>, id: ProfileId) -> (r: Option<usize>)
    ensures
        match r {
            Some(i) => profile_position(v@, id) == Some(i as int) && i < v.len(),
            None => profile_position(v@, id) is None,
        },
{
    let mut i: usize = 0;
    while i < v.len()
        invariant
            i <= v.len(),
            forall|j: int| 0 <= j < i ==> (#[trigger] v@[j]).profile_id != id,
        decreases v.len() - i,
    {
        if v[i].profile_id == id {
            proof {
                lemma_profile_position(v@, id, i as int);
            }
            return Some(i);
        }
        i += 1;
    }
    None
}

/// The state that `table` holds for `cid`.
fn lookup_channel(table: &HashMap<Cid, CidState>, cid: Cid) -> (r: Option<CidState>)
    ensures
        r == channel_state(table@, cid),
{
    match table.get(&cid) {
        Some(state) => Some(*state),
        None => None,
    }
}

impl AclInformation {
    pub fn new(handle: ConnectionHandle, transport: Transport) -> (acl: AclInformation)
        ensures
            acl@ == AclView::fresh(handle, transport),
    {
        AclInformation {
            start_time: Timestamp::unset(),
            end_time: Timestamp::unset(),
            handle,
            transport,
            start_initiator: InitiatorType::Unknown,
            end_initiator: InitiatorType::Unknown,
            active_profiles: Vec::new(),
            inactive_profiles: Vec::new(),
            host_cids: HashMap::new(),
            peer_cids: HashMap::new(),
        }
    }

    /// Whether the session has not ended.
    pub fn is_open(&self) -> (r: bool)
        ensures
            r == self@.is_open(),
    {
        !self.end_time.has_value()
    }

    pub fn report_start(&mut self, initiator: InitiatorType, ts: Timestamp)
        ensures
            final(self)@ == old(self)@.started(initiator, ts),
    {
        self.start_initiator = initiator;
        self.start_time = ts;
    }

    /// Ends the session, and with it every profile that still runs: each
    /// is ended at the time and by the side that ends the session, and
    /// none runs on.
    pub fn report_end(&mut self, initiator: InitiatorType, ts: Timestamp)
        ensures
            final(self)@ == old(self)@.ended(initiator, ts),
            final(self)@.active_profiles.len() == 0,
            final(self)@.end_time == ts,
            final(self)@.end_initiator == initiator,
            final(self)@.inactive_profiles.len() == old(self)@.inactive_profiles.len() + old(
                self,
            )@.active_profiles.len(),
            forall|k: int|
                #![trigger old(self)@.active_profiles[k]]
                0 <= k < old(self)@.active_profiles.len() ==> final(self)@.inactive_profiles[old(
                    self,
                )@.inactive_profiles.len() + k] == old(self)@.active_profiles[k].ended(
                    initiator,
                    ts,
                ),
    {
        let ghost before = self@;
        let mut i: usize = 0;
        while i < self.active_profiles.len()
            invariant
                i <= self.active_profiles.len(),
                self@ == (AclView {
                    inactive_profiles: before.inactive_profiles + before.active_profiles.subrange(
                        0,
                        i as int,
                    ).map_values(|p: ProfileInformation| p.ended(initiator, ts)),
                    ..before
                }),
            decreases self.active_profiles.len() - i,
        {
            let mut profile = self.active_profiles[i];
            profile.report_end(initiator, ts);
            self.inactive_profiles.push(profile);
            proof {
                let f = |p: ProfileInformation| p.ended(initiator, ts);
                assert(before.active_profiles.subrange(0, i + 1).map_values(f)
                    =~= before.active_profiles.subrange(0, i as int).map_values(f).push(profile));
                assert(self.inactive_profiles@ =~= before.inactive_profiles
                    + before.active_profiles.subrange(0, i + 1).map_values(f));
            }
            i += 1;
        }
        proof {
            assert(before.active_profiles.subrange(0, i as int) =~= before.active_profiles);
        }
        self.active_profiles.clear();
        self.end_initiator = initiator;
        self.end_time = ts;
    }

    pub fn report_profile_start(
        &mut self,
        profile_type: ProfileType,
        profile_id: ProfileId,
        initiator: InitiatorType,
        ts: Timestamp,
    )
        ensures
            final(self)@ == old(self)@.profile_started(profile_type, profile_id, initiator, ts),
    {
        let mut profile = ProfileInformation::new(profile_type, profile_id);
        profile.report_start(initiator, ts);
        match find_profile(&self.active_profiles, profile_id) {
            Some(i) => {
                let displaced = self.active_profiles[i];
                self.active_profiles.set(i, profile);
                self.inactive_profiles.push(displaced);
            },
            None => {
                self.active_profiles.push(profile);
            },
        }
    }

    pub fn report_profile_end(
        &mut self,
        profile_type: ProfileType,
        profile_id: ProfileId,
        initiator: InitiatorType,
        ts: Timestamp,
    )
        ensures
            final(self)@ == old(self)@.profile_ended(profile_type, profile_id, initiator, ts),
    {
        let mut profile = match find_profile(&self.active_profiles, profile_id) {
            Some(i) => self.active_profiles.remove(i),
            None => ProfileInformation::new(profile_type, profile_id),
        };
        profile.report_end(initiator, ts);
        self.inactive_profiles.push(profile);
    }

    pub fn report_l2cap_conn_req(
        &mut self,
        psm: Psm,
        cid: Cid,
        initiator: InitiatorType,
        _ts: Timestamp,
    )
        ensures
            final(self)@ == old(self)@.channel_requested(psm, cid, initiator),
    {
        match initiator {
            InitiatorType::Host => {
                self.host_cids.insert(cid, CidState::Pending(psm));
            },
            InitiatorType::Peer => {
                self.peer_cids.insert(cid, CidState::Pending(psm));
            },
            InitiatorType::Unknown => {},
        }
    }

    /// Notes that `event` happened at `ts`.
    pub fn report_event(&mut self, event: AclEvent, ts: Timestamp)
        ensures
            final(self)@ == old(self)@.after(event, ts),
    {
        match event {
            AclEvent::End { initiator } => self.report_end(initiator, ts),
            AclEvent::ProfileStart { profile_type, profile_id, initiator } => {
                self.report_profile_start(profile_type, profile_id, initiator, ts)
            },
            AclEvent::ProfileEnd { profile_type, profile_id, initiator } => {
                self.report_profile_end(profile_type, profile_id, initiator, ts)
            },
            AclEvent::ChannelRequest { psm, cid, initiator } => {
                self.report_l2cap_conn_req(psm, cid, initiator, ts)
            },
            AclEvent::ChannelResponse { status, cid_info, initiator } => {
                self.report_l2cap_conn_rsp(status, cid_info, initiator, ts)
            },
            AclEvent::ChannelClose { cid_info, initiator } => {
                self.report_l2cap_disconn_rsp(cid_info, initiator, ts)
            },
        }
    }

    /// Notes the answer to a request to open a channel, and with it the
    /// start of the profile that the channel serves.
    pub fn report_l2cap_conn_rsp(
        &mut self,
        status: ConnectionResponseResult,
        cid_info: CidInformation,
        initiator: InitiatorType,
        ts: Timestamp,
    )
        ensures
            final(self)@ == old(self)@.channel_answered(status, cid_info, initiator, ts),
    {
        let host_cid = cid_info.host_cid;
        let peer_cid = cid_info.peer_cid;
        let cid_state_option = match initiator {
            InitiatorType::Host => lookup_channel(&self.host_cids, host_cid),
            InitiatorType::Peer => lookup_channel(&self.peer_cids, peer_cid),
            InitiatorType::Unknown => None,
        };
        let psm_option = match cid_state_option {
            Some(CidState::Pending(psm)) => Some(psm),
            _ => None,
        };
        if let Some(psm) = psm_option {
            let profile_option = ProfileType::from_psm(psm);
            let profile_id = ProfileId::L2capCid(cid_info);
            if status == ConnectionResponseResult::Success {
                self.host_cids.insert(host_cid, CidState::Connected(peer_cid, psm));
                self.peer_cids.insert(peer_cid, CidState::Connected(host_cid, psm));
                if let Some(profile) = profile_option {
                    self.report_profile_start(profile, profile_id, initiator, ts);
                }
            } else {
                if let Some(profile) = profile_option {
                    self.report_profile_start(profile, profile_id, initiator, ts);
                    self.report_profile_end(profile, profile_id, initiator, ts);
                }
            }
        }
    }

    /// Notes that a channel was closed, and with it the end of the
    /// profile that the channel served.
    pub fn report_l2cap_disconn_rsp(
        &mut self,
        cid_info: CidInformation,
        initiator: InitiatorType,
        ts: Timestamp,
    )
        ensures
            final(self)@ == old(self)@.channel_closed(cid_info, initiator, ts),
    {
        let host_cid = cid_info.host_cid;
        let host_psm = match self.host_cids.remove(&host_cid) {
            Some(CidState::Connected(_, psm)) => Some(psm),
            _ => None,
        };
        let peer_cid = cid_info.peer_cid;
        let peer_psm = match self.peer_cids.remove(&peer_cid) {
            Some(CidState::Connected(_, psm)) => Some(psm),
            _ => None,
        };
        let psm = match host_psm {
            Some(psm) => psm,
            None => match peer_psm {
                Some(psm) => psm,
                None => {
                    return ;
                },
            },
        };
        if let Some(profile) = ProfileType::from_psm(psm) {
            let profile_id = ProfileId::L2capCid(cid_info);
            self.report_profile_end(profile, profile_id, initiator, ts)
        }
    }
}

} // verus!
