//! The analysis state and the way each packet changes it.

use std::collections::HashMap;
use vstd::prelude::*;
use crate::acl::{acl_views, AclEvent, AclInformation, AclView};
use crate::address::{Address, AddressType};
use crate::device::{DeviceInformation, DeviceView};
use crate::gap::{records, record_views, GapData, GapRecord};
use crate::packet::{
    Acl, AclContent, Command, Control, DisconnectReason, ErrorCode, Event, LeAdvertisingResponse,
    LeMetaEvent, Packet, PacketChild,
};
use crate::link_laws::{lemma_init_single_open, lemma_step_single_open};
use crate::rule_laws::{lemma_init_sound, lemma_step_sound};
use crate::text::{decode_lossy, lossy_text, trim_trailing_nuls, without_trailing_nuls};
use crate::time::Timestamp;
use crate::types::{
    AclState, Cid, CidInformation, ConnectionHandle, ConnectionResponseResult, InitiatorType,
    ProfileId, ProfileType, Psm, Transport,
};

verus! {

broadcast use vstd::std_specs::hash::group_hash_axioms;

/// The state of the analysis.
///
/// Devices are kept in the order in which their addresses were first
/// seen, one for each address. Sessions of handles that belong to no
/// known device are kept in the order in which the handles were first
/// seen, one for each handle.
pub struct InformationalRule {
    pub devices: Vec<DeviceInformation>,
    /// The device of each link that is up.
    pub handles: HashMap<ConnectionHandle, Address>,
    /// The link under each synchronous link that is up.
    pub sco_handles: HashMap<ConnectionHandle, ConnectionHandle>,
    /// What was seen of links whose device is not known.
    pub unknown_connections: Vec<AclInformation>,
    /// The links that the host has asked to tear down, each with whether
    /// the reason was powering off.
    pub pending_disconnections: HashMap<ConnectionHandle, bool>,
}

/// The mathematical value of the analysis state.
pub struct RuleView {
    pub devices: Seq<DeviceView>,
    pub handles: Map<ConnectionHandle, Address>,
    pub sco_handles: Map<ConnectionHandle, ConnectionHandle>,
    pub unknown_connections: Seq<AclView>,
    pub pending_disconnections: Map<ConnectionHandle, bool>,
}

/// The values of a list of devices.
pub open spec fn device_views(v: Seq<DeviceInformation>) -> Seq<DeviceView> {
    v.map_values(|d: DeviceInformation| d@)
}

impl View for InformationalRule {
    type V = RuleView;

    open spec fn view(&self) -> RuleView {
        RuleView {
            devices: device_views(self.devices@),
            handles: self.handles@,
            sco_handles: self.sco_handles@,
            unknown_connections: acl_views(self.unknown_connections@),
            pending_disconnections: self.pending_disconnections@,
        }
    }
}

/// Whether `i` is the first place in `devices` of a device with `address`.
pub open spec fn is_first_device(devices: Seq<DeviceView>, address: Address, i: int) -> bool {
    &&& 0 <= i < devices.len()
    &&& devices[i].address == address
    &&& forall|j: int| 0 <= j < i ==> (#[trigger] devices[j]).address != address
}

/// The first place in `devices` of a device with `address`.
pub open spec fn device_position(devices: Seq<DeviceView>, address: Address) -> Option<int> {
    if exists|i: int| is_first_device(devices, address, i) {
        Some(choose|i: int| is_first_device(devices, address, i))
    } else {
        None
    }
}

/// A first place is the only first place.
pub proof fn lemma_device_position(devices: Seq<DeviceView>, address: Address, i: int)
    requires
        is_first_device(devices, address, i),
    ensures
        device_position(devices, address) == Some(i),
{
    let c = choose|c: int| is_first_device(devices, address, c);
    assert(is_first_device(devices, address, c));
    if c < i {
        assert(devices[c].address != address);
    }
    if i < c {
        assert(devices[i].address != address);
    }
}

/// Whether `i` is the first place in `acls` of a session of `handle`.
pub open spec fn is_first_session(acls: Seq<AclView>, handle: ConnectionHandle, i: int) -> bool {
    &&& 0 <= i < acls.len()
    &&& acls[i].handle == handle
    &&& forall|j: int| 0 <= j < i ==> (#[trigger] acls[j]).handle != handle
}

/// The first place in `acls` of a session of `handle`.
pub open spec fn session_position(acls: Seq<AclView>, handle: ConnectionHandle) -> Option<int> {
    if exists|i: int| is_first_session(acls, handle, i) {
        Some(choose|i: int| is_first_session(acls, handle, i))
    } else {
        None
    }
}

/// A first place is the only first place.
pub proof fn lemma_session_position(acls: Seq<AclView>, handle: ConnectionHandle, i: int)
    requires
        is_first_session(acls, handle, i),
    ensures
        session_position(acls, handle) == Some(i),
{
    let c = choose|c: int| is_first_session(acls, handle, c);
    assert(is_first_session(acls, handle, c));
    if c < i {
        assert(acls[c].handle != handle);
    }
    if i < c {
        assert(acls[i].handle != handle);
    }
}

/// The synchronous links of `sco` but those that run over `link`.
pub open spec fn without_links_over(
    sco: Map<ConnectionHandle, ConnectionHandle>,
    link: ConnectionHandle,
) -> Map<ConnectionHandle, ConnectionHandle> {
    Map::new(|k: ConnectionHandle| sco.contains_key(k) && sco[k] != link, |k: ConnectionHandle| sco[k])
}

/// The side that did not send.
pub open spec fn other_side(sender: InitiatorType) -> InitiatorType {
    match sender {
        InitiatorType::Host => InitiatorType::Peer,
        InitiatorType::Peer => InitiatorType::Host,
        InitiatorType::Unknown => InitiatorType::Unknown,
    }
}

/// The two ends of a channel as an answer names them: the destination is
/// the end of the side that answers, the source the end of the side that asked.
pub open spec fn answered_channel(
    sender: InitiatorType,
    destination_cid: Cid,
    source_cid: Cid,
) -> CidInformation {
    if sender == InitiatorType::Host {
        CidInformation { host_cid: destination_cid, peer_cid: source_cid }
    } else {
        CidInformation { host_cid: source_cid, peer_cid: destination_cid }
    }
}

/// The event that ends the voice profile of a link.
pub open spec fn voice_end(initiator: InitiatorType) -> AclEvent {
    AclEvent::ProfileEnd {
        profile_type: ProfileType::Hfp,
        profile_id: ProfileId::OnePerConnection(ProfileType::Hfp),
        initiator,
    }
}

/// The event that starts the voice profile of a link. Nothing in the log
/// tells who set up a synchronous link: the host is taken to have.
pub open spec fn voice_start() -> AclEvent {
    AclEvent::ProfileStart {
        profile_type: ProfileType::Hfp,
        profile_id: ProfileId::OnePerConnection(ProfileType::Hfp),
        initiator: InitiatorType::Host,
    }
}

impl RuleView {
    /// The state before any packet.
    pub open spec fn init() -> RuleView {
        RuleView {
            devices: Seq::empty(),
            handles: Map::empty(),
            sco_handles: Map::empty(),
            unknown_connections: Seq::empty(),
            pending_disconnections: Map::empty(),
        }
    }

    /// The place of the device with `address`, once there is one.
    pub open spec fn device_slot(self, address: Address) -> int {
        match device_position(self.devices, address) {
            Some(i) => i,
            None => self.devices.len() as int,
        }
    }

    /// The state with a device for `address`: a new one where none is known.
    pub open spec fn with_device(self, address: Address) -> RuleView {
        match device_position(self.devices, address) {
            Some(_) => self,
            None => RuleView { devices: self.devices.push(DeviceView::fresh(address)), ..self },
        }
    }

    pub open spec fn set_device(self, i: int, device: DeviceView) -> RuleView {
        RuleView { devices: self.devices.update(i, device), ..self }
    }

    /// The state after `address` was seen on `address_type`.
    pub open spec fn address_type_reported(
        self,
        address: Address,
        address_type: AddressType,
    ) -> RuleView {
        let i = self.device_slot(address);
        let known = self.with_device(address);
        known.set_device(i, known.devices[i].typed(address_type))
    }

    /// The state after `name` was seen for `address`.
    pub open spec fn name_reported(self, address: Address, name: Seq<char>) -> RuleView {
        let i = self.device_slot(address);
        let known = self.with_device(address);
        known.set_device(i, known.devices[i].named(name))
    }

    /// The state after a link to `address` began to be set up on `transport`.
    pub open spec fn acl_state_reported(
        self,
        address: Address,
        transport: Transport,
        state: AclState,
    ) -> RuleView {
        let i = self.device_slot(address);
        let known = self.with_device(address);
        known.set_device(i, known.devices[i].with_acl_state(transport, state))
    }

    /// The state after the link `handle` to `address` was set up: the
    /// device has a new session, the handle is that of the device, and no
    /// teardown of the handle is pending.
    pub open spec fn connection_started(
        self,
        address: Address,
        handle: ConnectionHandle,
        transport: Transport,
        ts: Timestamp,
    ) -> RuleView {
        let i = self.device_slot(address);
        let known = self.with_device(address);
        RuleView {
            devices: known.devices.update(
                i,
                known.devices[i].connection_started(handle, transport, ts),
            ),
            handles: self.handles.insert(handle, address),
            pending_disconnections: self.pending_disconnections.remove(handle),
            ..self
        }
    }

    /// The state after `event` happened at `ts` on a link whose device is
    /// not known: in the session kept for `handle`, or in a new one.
    pub open spec fn on_unknown_session(
        self,
        handle: ConnectionHandle,
        transport: Transport,
        event: AclEvent,
        ts: Timestamp,
    ) -> RuleView {
        match session_position(self.unknown_connections, handle) {
            Some(i) => RuleView {
                unknown_connections: self.unknown_connections.update(
                    i,
                    self.unknown_connections[i].after(event, ts),
                ),
                ..self
            },
            None => RuleView {
                unknown_connections: self.unknown_connections.push(
                    AclView::fresh(handle, transport).after(event, ts),
                ),
                ..self
            },
        }
    }

    /// The state after `event` happened at `ts` on the link `handle`: in
    /// the active session of its device on `transport`, or, where the
    /// handle is of no known device, in the session kept for the handle.
    pub open spec fn on_session(
        self,
        handle: ConnectionHandle,
        transport: Transport,
        event: AclEvent,
        ts: Timestamp,
    ) -> RuleView {
        if !self.handles.contains_key(handle) || transport == Transport::Unknown {
            self.on_unknown_session(handle, transport, event, ts)
        } else {
            let address = self.handles[handle];
            let i = self.device_slot(address);
            let known = self.with_device(address);
            known.set_device(i, known.devices[i].on_session(handle, transport, event, ts))
        }
    }

    /// The state after a synchronous link `handle` to `address` was set
    /// up: the voice profile has begun on the active BR/EDR session of
    /// the device. Without such a session nothing changes.
    pub open spec fn sco_connection_started(
        self,
        address: Address,
        handle: ConnectionHandle,
        ts: Timestamp,
    ) -> RuleView {
        match device_position(self.devices, address) {
            None => self,
            Some(i) => if !self.devices[i].is_connection_active(Transport::BREDR) {
                self
            } else {
                RuleView {
                    devices: self.devices.update(
                        i,
                        self.devices[i].on_session(0, Transport::BREDR, voice_start(), ts),
                    ),
                    sco_handles: self.sco_handles.insert(
                        handle,
                        self.devices[i].bredr_acls.last().handle,
                    ),
                    ..self
                }
            },
        }
    }

    /// The state after the link `handle` was torn down by `initiator`.
    ///
    /// The handle of a synchronous link ends the voice profile of the
    /// link under it. The handle of a known device ends the active session
    /// of the device. In both cases the synchronous links over the link
    /// are forgotten. Any other handle ends the session kept for it among
    /// those of unknown devices.
    pub open spec fn teardown(
        self,
        handle: ConnectionHandle,
        initiator: InitiatorType,
        ts: Timestamp,
    ) -> RuleView {
        if self.sco_handles.contains_key(handle) {
            let link = self.sco_handles[handle];
            let ended = self.on_session(link, Transport::BREDR, voice_end(initiator), ts);
            RuleView { sco_handles: without_links_over(self.sco_handles, link), ..ended }
        } else if self.handles.contains_key(handle) {
            let address = self.handles[handle];
            RuleView {
                devices: match device_position(self.devices, address) {
                    Some(i) => self.devices.update(
                        i,
                        self.devices[i].connection_ended(handle, initiator, ts),
                    ),
                    None => self.devices,
                },
                handles: self.handles.remove(handle),
                sco_handles: without_links_over(self.sco_handles, handle),
                ..self
            }
        } else {
            self.on_unknown_session(
                handle,
                Transport::Unknown,
                AclEvent::End { initiator },
                ts,
            )
        }
    }

    /// Who tears down `handle`: the host where it has asked to, else the peer.
    pub open spec fn teardown_initiator(self, handle: ConnectionHandle) -> InitiatorType {
        if self.pending_disconnections.contains_key(handle) {
            InitiatorType::Host
        } else {
            InitiatorType::Peer
        }
    }

    /// The state after the link `handle` was torn down.
    pub open spec fn connection_ended(self, handle: ConnectionHandle, ts: Timestamp) -> RuleView {
        self.teardown(handle, self.teardown_initiator(handle), ts)
    }

    /// The state after the host tore down each link of `links` whose
    /// handle is at least `from`, in ascending order of the handles.
    pub open spec fn teardown_all(
        self,
        links: Set<ConnectionHandle>,
        from: int,
        ts: Timestamp,
    ) -> RuleView
        decreases 0x1_0000 - from,
    {
        if from < 0 || from >= 0x1_0000 {
            self
        } else if links.contains(from as ConnectionHandle) {
            self.teardown(from as ConnectionHandle, InitiatorType::Host, ts).teardown_all(
                links,
                from + 1,
                ts,
            )
        } else {
            self.teardown_all(links, from + 1, ts)
        }
    }

    /// The state after the controller was reset: every link of a known
    /// device is torn down by the host, and no synchronous link and no
    /// pending teardown is left.
    pub open spec fn reset(self, ts: Timestamp) -> RuleView {
        RuleView {
            sco_handles: Map::empty(),
            pending_disconnections: Map::empty(),
            ..self.teardown_all(self.handles.dom(), 0, ts)
        }
    }

    /// The state after one record of advertising or inquiry data of
    /// `address` was read: a name record names the device.
    pub open spec fn gap_record(self, address: Address, record: GapRecord) -> RuleView {
        if record.data_type.names_device() {
            self.name_reported(address, lossy_text(record.data))
        } else {
            self
        }
    }

    /// The state after the records `recs` of `address` were read in turn.
    pub open spec fn gap_records(self, address: Address, recs: Seq<GapRecord>) -> RuleView
        decreases recs.len(),
    {
        if recs.len() == 0 {
            self
        } else {
            self.gap_record(address, recs[0]).gap_records(address, recs.drop_first())
        }
    }

    /// The state after the advertising or inquiry data `bytes` of
    /// `address` was read.
    pub open spec fn gap_data(self, address: Address, bytes: Seq<u8>) -> RuleView {
        self.gap_records(address, records(bytes))
    }

    /// The state after one device of an advertising report was read.
    pub open spec fn advertisement(self, response: LeAdvertisingResponse) -> RuleView {
        self.gap_data(response.address, response.advertising_data@).address_type_reported(
            response.address,
            AddressType::LE,
        )
    }

    /// The state after the devices of an advertising report were read in turn.
    pub open spec fn advertisements(self, responses: Seq<LeAdvertisingResponse>) -> RuleView
        decreases responses.len(),
    {
        if responses.len() == 0 {
            self
        } else {
            self.advertisement(responses[0]).advertisements(responses.drop_first())
        }
    }

    /// The state after a link was set up, or failed to be: a failed
    /// attempt is a session that ends as it starts.
    pub open spec fn connection_completed(
        self,
        status: ErrorCode,
        address: Address,
        handle: ConnectionHandle,
        transport: Transport,
        ts: Timestamp,
    ) -> RuleView {
        let started = self.connection_started(address, handle, transport, ts);
        if status != ErrorCode::Success {
            started.connection_ended(handle, ts)
        } else {
            started
        }
    }

    /// The state after an LE link was set up, or failed to be. A link that
    /// was set up shows that the device is on LE.
    pub open spec fn le_connection_completed(
        self,
        status: ErrorCode,
        address: Address,
        handle: ConnectionHandle,
        ts: Timestamp,
    ) -> RuleView {
        let completed = self.connection_completed(status, address, handle, Transport::LE, ts);
        if status == ErrorCode::Success {
            completed.address_type_reported(address, AddressType::LE)
        } else {
            completed
        }
    }

    /// The state after an LE event.
    pub open spec fn on_le_event(self, event: LeMetaEvent, ts: Timestamp) -> RuleView {
        match event {
            LeMetaEvent::LeConnectionComplete { status, connection_handle, peer_address } => {
                self.le_connection_completed(status, peer_address, connection_handle, ts)
            },
            LeMetaEvent::LeEnhancedConnectionComplete {
                status,
                connection_handle,
                peer_address,
            } => self.le_connection_completed(status, peer_address, connection_handle, ts),
            LeMetaEvent::LeAdvertisingReport { responses } => self.advertisements(responses@),
            LeMetaEvent::LeExtendedAdvertisingReport { responses } => self.advertisements(
                responses@,
            ),
            LeMetaEvent::Other => self,
        }
    }

    /// The state after the controller confirmed the teardown of `handle`.
    /// A teardown for powering off was acted on when the host asked for
    /// it, and is not acted on again.
    pub open spec fn disconnection_completed(
        self,
        handle: ConnectionHandle,
        ts: Timestamp,
    ) -> RuleView {
        let done = self.pending_disconnections.contains_key(handle)
            && self.pending_disconnections[handle];
        let torn = if done {
            self
        } else {
            self.connection_ended(handle, ts)
        };
        RuleView { pending_disconnections: torn.pending_disconnections.remove(handle), ..torn }
    }

    /// The state after a synchronous link was set up, or failed to be.
    pub open spec fn sco_connection_completed(
        self,
        status: ErrorCode,
        address: Address,
        handle: ConnectionHandle,
        ts: Timestamp,
    ) -> RuleView {
        let started = self.sco_connection_started(address, handle, ts);
        if status != ErrorCode::Success {
            started.connection_ended(handle, ts)
        } else {
            started
        }
    }

    /// The state after an event from the controller.
    pub open spec fn on_event(self, event: Event, ts: Timestamp) -> RuleView {
        match event {
            Event::ConnectionComplete { status, connection_handle, bd_addr } => {
                self.connection_completed(status, bd_addr, connection_handle, Transport::BREDR, ts)
            },
            Event::SynchronousConnectionComplete { status, connection_handle, bd_addr } => {
                self.sco_connection_completed(status, bd_addr, connection_handle, ts)
            },
            Event::DisconnectionComplete { connection_handle } => self.disconnection_completed(
                connection_handle,
                ts,
            ),
            Event::ExtendedInquiryResult { address, extended_inquiry_response } => self.gap_data(
                address,
                extended_inquiry_response@,
            ).address_type_reported(address, AddressType::BREDR),
            Event::RemoteNameRequestComplete { status, bd_addr, remote_name } => if status
                != ErrorCode::Success {
                self
            } else {
                self.name_reported(
                    bd_addr,
                    without_trailing_nuls(lossy_text(remote_name@)),
                ).address_type_reported(bd_addr, AddressType::BREDR)
            },
            Event::LeMetaEvent(le) => self.on_le_event(le, ts),
            Event::Other => self,
        }
    }

    /// The state after the host asked for the teardown of `handle`. A
    /// teardown for powering off may never be confirmed, and is acted on
    /// at once.
    pub open spec fn disconnect_requested(
        self,
        handle: ConnectionHandle,
        reason: DisconnectReason,
        ts: Timestamp,
    ) -> RuleView {
        let is_power_off = reason == DisconnectReason::RemoteDeviceTerminatedConnectionPowerOff;
        let noted = RuleView {
            pending_disconnections: self.pending_disconnections.insert(handle, is_power_off),
            ..self
        };
        if is_power_off {
            noted.connection_ended(handle, ts)
        } else {
            noted
        }
    }

    /// The state after a command of the host.
    pub open spec fn on_command(self, command: Command, ts: Timestamp) -> RuleView {
        match command {
            Command::Reset => self.reset(ts),
            Command::CreateConnection { bd_addr } => self.acl_state_reported(
                bd_addr,
                Transport::BREDR,
                AclState::Initiating,
            ).address_type_reported(bd_addr, AddressType::BREDR),
            Command::AcceptConnectionRequest { bd_addr } => self.acl_state_reported(
                bd_addr,
                Transport::BREDR,
                AclState::Accepting,
            ).address_type_reported(bd_addr, AddressType::BREDR),
            Command::Disconnect { connection_handle, reason } => self.disconnect_requested(
                connection_handle,
                reason,
                ts,
            ),
            Command::Other => self,
        }
    }

    /// The state after a request to open a channel was answered. An
    /// answer that decides nothing yet changes nothing.
    pub open spec fn channel_answered(
        self,
        handle: ConnectionHandle,
        status: ConnectionResponseResult,
        cid_info: CidInformation,
        initiator: InitiatorType,
        ts: Timestamp,
    ) -> RuleView {
        if status == ConnectionResponseResult::Pending {
            self
        } else {
            self.on_session(
                handle,
                Transport::BREDR,
                AclEvent::ChannelResponse { status, cid_info, initiator },
                ts,
            )
        }
    }

    /// The state after a data packet that `sender` sent on a link.
    pub open spec fn on_acl(self, acl: Acl, sender: InitiatorType, ts: Timestamp) -> RuleView {
        match acl.content {
            AclContent::Control(Control::ConnectionRequest { psm, source_cid }) => self.on_session(
                acl.handle,
                Transport::BREDR,
                AclEvent::ChannelRequest { psm, cid: source_cid, initiator: sender },
                ts,
            ),
            AclContent::Control(
                Control::ConnectionResponse { result, destination_cid, source_cid },
            ) => self.channel_answered(
                acl.handle,
                result,
                answered_channel(sender, destination_cid, source_cid),
                other_side(sender),
                ts,
            ),
            AclContent::Control(
                Control::DisconnectionResponse { destination_cid, source_cid },
            ) => self.on_session(
                acl.handle,
                Transport::BREDR,
                AclEvent::ChannelClose {
                    cid_info: answered_channel(sender, destination_cid, source_cid),
                    initiator: other_side(sender),
                },
                ts,
            ),
            _ => self,
        }
    }

    /// The state after `packet`.
    pub open spec fn step(self, packet: Packet) -> RuleView {
        match packet.inner {
            PacketChild::HciCommand(command) => self.on_command(command, packet.ts),
            PacketChild::HciEvent(event) => self.on_event(event, packet.ts),
            PacketChild::AclTx(acl) => self.on_acl(acl, InitiatorType::Host, packet.ts),
            PacketChild::AclRx(acl) => self.on_acl(acl, InitiatorType::Peer, packet.ts),
            PacketChild::Other => self,
        }
    }

    /// The state after the packets `packets`, in turn.
    pub open spec fn run(self, packets: Seq<Packet>) -> RuleView
        decreases packets.len(),
    {
        if packets.len() == 0 {
            self
        } else {
            self.step(packets[0]).run(packets.drop_first())
        }
    }
}

/// The first place in `devices` of a device with `address`.
fn find_device(devices: &Vec<DeviceInformation>, address: Address) -> (r: Option<usize>)
    ensures
        match r {
            Some(i) => device_position(device_views(devices@), address) == Some(i as int) && i
                < devices.len(),
            None => device_position(device_views(devices@), address) is None,
        },
{
    let mut i: usize = 0;
    while i < devices.len()
        invariant
            i <= devices.len(),
            forall|j: int| 0 <= j < i ==> (#[trigger] device_views(devices@)[j]).address != address,
        decreases devices.len() - i,
    {
        if devices[i].address == address {
            proof {
                lemma_device_position(device_views(devices@), address, i as int);
            }
            return Some(i);
        }
        i += 1;
    }
    None
}

/// The first place in `acls` of a session of `handle`.
fn find_session(acls: &Vec<AclInformation>, handle: ConnectionHandle) -> (r: Option<usize>)
    ensures
        match r {
            Some(i) => session_position(acl_views(acls@), handle) == Some(i as int) && i
                < acls.len(),
            None => session_position(acl_views(acls@), handle) is None,
        },
{
    let mut i: usize = 0;
    while i < acls.len()
        invariant
            i <= acls.len(),
            forall|j: int| 0 <= j < i ==> (#[trigger] acl_views(acls@)[j]).handle != handle,
        decreases acls.len() - i,
    {
        if acls[i].handle == handle {
            proof {
                lemma_session_position(acl_views(acls@), handle, i as int);
            }
            return Some(i);
        }
        i += 1;
    }
    None
}

/// Forgets the synchronous links that run over `link`.
fn forget_links_over(sco: &mut HashMap<ConnectionHandle, ConnectionHandle>, link: ConnectionHandle)
    ensures
        final(sco)@ == without_links_over(old(sco)@, link),
{
    let ghost before = sco@;
    if sco.is_empty() {
        assert(sco@ =~= without_links_over(before, link));
        return ;
    }
    let mut k: u32 = 0;
    while k < 0x1_0000
        invariant
            k <= 0x1_0000,
            sco@ == Map::new(
                |x: ConnectionHandle| before.contains_key(x) && (before[x] != link || x >= k),
                |x: ConnectionHandle| before[x],
            ),
        decreases 0x1_0000 - k,
    {
        let key: ConnectionHandle = k as ConnectionHandle;
        let over = match sco.get(&key) {
            Some(under) => *under == link,
            None => false,
        };
        if over {
            sco.remove(&key);
        }
        k += 1;
        assert(sco@ =~= Map::new(
            |x: ConnectionHandle| before.contains_key(x) && (before[x] != link || x >= k),
            |x: ConnectionHandle| before[x],
        ));
    }
    assert(sco@ =~= without_links_over(before, link));
}

/// The device of `handle`, where the handle is that of a known device.
fn lookup_address(handles: &HashMap<ConnectionHandle, Address>, handle: ConnectionHandle) -> (r:
    Option<Address>)
    ensures
        r == (if handles@.contains_key(handle) {
            Some(handles@[handle])
        } else {
            None
        }),
{
    match handles.get(&handle) {
        Some(address) => Some(*address),
        None => None,
    }
}

/// A signal that something in the log is out of the ordinary.
pub struct Signal {
    pub index: usize,
    pub ts: Timestamp,
    pub tag: String,
}

impl InformationalRule {
    /// The analysis before any packet: nothing is known, and the state
    /// is in order at any time.
    pub fn new() -> (rule: InformationalRule)
        ensures
            rule@ == RuleView::init(),
            forall|now: Timestamp| #[trigger] rule@.sound(now),
            rule@.single_open(),
    {
        proof {
            assert forall|now: Timestamp| #[trigger] RuleView::init().sound(now) by {
                lemma_init_sound(now);
            }
            lemma_init_single_open();
        }
        let rule = InformationalRule {
            devices: Vec::new(),
            handles: HashMap::new(),
            sco_handles: HashMap::new(),
            unknown_connections: Vec::new(),
            pending_disconnections: HashMap::new(),
        };
        assert(rule@.devices =~= Seq::<DeviceView>::empty());
        assert(rule@.unknown_connections =~= Seq::<AclView>::empty());
        rule
    }

    /// Makes sure that a device is known for `address`, and gives its place.
    pub fn get_or_allocate_device(&mut self, address: &Address) -> (i: usize)
        ensures
            final(self)@ == old(self)@.with_device(*address),
            i == old(self)@.device_slot(*address),
            i < final(self).devices.len(),
    {
        match find_device(&self.devices, *address) {
            Some(i) => i,
            None => {
                self.devices.push(DeviceInformation::new(*address));
                assert(device_views(self.devices@) =~= device_views(old(self).devices@).push(
                    DeviceView::fresh(*address),
                ));
                self.devices.len() - 1
            },
        }
    }

    /// Notes that `address` was seen on `address_type`.
    pub fn report_address_type(&mut self, address: &Address, address_type: AddressType)
        ensures
            final(self)@ == old(self)@.address_type_reported(*address, address_type),
    {
        let i = self.get_or_allocate_device(address);
        let ghost known = self@;
        self.devices[i].report_address_type(address_type);
        assert(device_views(self.devices@) =~= known.devices.update(
            i as int,
            known.devices[i as int].typed(address_type),
        ));
    }

    /// Notes a name of `address`.
    pub fn report_name(&mut self, address: &Address, name: &String)
        ensures
            final(self)@ == old(self)@.name_reported(*address, name@),
    {
        let i = self.get_or_allocate_device(address);
        let ghost known = self@;
        self.devices[i].report_name(name.clone());
        assert(device_views(self.devices@) =~= known.devices.update(
            i as int,
            known.devices[i as int].named(name@),
        ));
    }

    /// Notes that a link to `address` is being set up.
    pub fn report_acl_state(&mut self, address: &Address, transport: Transport, state: AclState)
        ensures
            final(self)@ == old(self)@.acl_state_reported(*address, transport, state),
    {
        let i = self.get_or_allocate_device(address);
        let ghost known = self@;
        self.devices[i].report_acl_state(transport, state);
        assert(device_views(self.devices@) =~= known.devices.update(
            i as int,
            known.devices[i as int].with_acl_state(transport, state),
        ));
    }

    /// Notes that the link `handle` to `address` was set up.
    pub fn report_connection_start(
        &mut self,
        address: &Address,
        handle: ConnectionHandle,
        transport: Transport,
        ts: Timestamp,
    )
        ensures
            final(self)@ == old(self)@.connection_started(*address, handle, transport, ts),
    {
        let i = self.get_or_allocate_device(address);
        let ghost known = self@;
        self.devices[i].report_connection_start(handle, transport, ts);
        assert(device_views(self.devices@) =~= known.devices.update(
            i as int,
            known.devices[i as int].connection_started(handle, transport, ts),
        ));
        self.handles.insert(handle, *address);
        self.pending_disconnections.remove(&handle);
    }

    /// Notes that a synchronous link `handle` to `address` was set up.
    pub fn report_sco_connection_start(
        &mut self,
        address: &Address,
        handle: ConnectionHandle,
        ts: Timestamp,
    )
        ensures
            final(self)@ == old(self)@.sco_connection_started(*address, handle, ts),
    {
        let i = match find_device(&self.devices, *address) {
            Some(i) => i,
            None => {
                return ;
            },
        };
        if !self.devices[i].is_connection_active(Transport::BREDR) {
            return ;
        }
        let ghost before = self@;
        let n: usize = self.devices[i].bredr_acls.len();
        let acl_handle = self.devices[i].bredr_acls[n - 1].handle;
        self.devices[i].report_on_connection(
            0,
            Transport::BREDR,
            AclEvent::ProfileStart {
                profile_type: ProfileType::Hfp,
                profile_id: ProfileId::OnePerConnection(ProfileType::Hfp),
                initiator: InitiatorType::Host,
            },
            ts,
        );
        assert(device_views(self.devices@) =~= before.devices.update(
            i as int,
            before.devices[i as int].on_session(0, Transport::BREDR, voice_start(), ts),
        ));
        self.sco_handles.insert(handle, acl_handle);
    }

    /// Notes `event` in the session kept for `handle` among those of
    /// unknown devices, making one where none is kept.
    pub fn report_on_unknown_connection(
        &mut self,
        handle: ConnectionHandle,
        transport: Transport,
        event: AclEvent,
        ts: Timestamp,
    )
        ensures
            final(self)@ == old(self)@.on_unknown_session(handle, transport, event, ts),
    {
        let ghost before = self@;
        match find_session(&self.unknown_connections, handle) {
            Some(i) => {
                self.unknown_connections[i].report_event(event, ts);
                assert(acl_views(self.unknown_connections@) =~= before.unknown_connections.update(
                    i as int,
                    before.unknown_connections[i as int].after(event, ts),
                ));
            },
            None => {
                let mut acl = AclInformation::new(handle, transport);
                acl.report_event(event, ts);
                self.unknown_connections.push(acl);
                assert(acl_views(self.unknown_connections@) =~= before.unknown_connections.push(
                    AclView::fresh(handle, transport).after(event, ts),
                ));
            },
        }
    }

    /// Notes `event` in the session of the link `handle`.
    pub fn report_on_connection(
        &mut self,
        handle: ConnectionHandle,
        transport: Transport,
        event: AclEvent,
        ts: Timestamp,
    )
        ensures
            final(self)@ == old(self)@.on_session(handle, transport, event, ts),
    {
        let address = match lookup_address(&self.handles, handle) {
            Some(address) => address,
            None => {
                self.report_on_unknown_connection(handle, transport, event, ts);
                return ;
            },
        };
        if transport == Transport::Unknown {
            self.report_on_unknown_connection(handle, transport, event, ts);
            return ;
        }
        let i = self.get_or_allocate_device(&address);
        let ghost known = self@;
        self.devices[i].report_on_connection(handle, transport, event, ts);
        assert(device_views(self.devices@) =~= known.devices.update(
            i as int,
            known.devices[i as int].on_session(handle, transport, event, ts),
        ));
    }

    /// Notes that `initiator` tore down the link `handle`.
    pub fn report_teardown(
        &mut self,
        handle: ConnectionHandle,
        initiator: InitiatorType,
        ts: Timestamp,
    )
        ensures
            final(self)@ == old(self)@.teardown(handle, initiator, ts),
    {
        let ghost before = self@;
        let under = match self.sco_handles.get(&handle) {
            Some(link) => Some(*link),
            None => None,
        };
        if let Some(link) = under {
            self.report_on_connection(
                link,
                Transport::BREDR,
                AclEvent::ProfileEnd {
                    profile_type: ProfileType::Hfp,
                    profile_id: ProfileId::OnePerConnection(ProfileType::Hfp),
                    initiator,
                },
                ts,
            );
            forget_links_over(&mut self.sco_handles, link);
            return ;
        }
        match lookup_address(&self.handles, handle) {
            Some(address) => {
                match find_device(&self.devices, address) {
                    Some(i) => {
                        self.devices[i].report_connection_end(handle, initiator, ts);
                        assert(device_views(self.devices@) =~= before.devices.update(
                            i as int,
                            before.devices[i as int].connection_ended(handle, initiator, ts),
                        ));
                    },
                    None => {},
                }
                self.handles.remove(&handle);
                forget_links_over(&mut self.sco_handles, handle);
            },
            None => {
                self.report_on_unknown_connection(
                    handle,
                    Transport::Unknown,
                    AclEvent::End { initiator },
                    ts,
                );
            },
        }
    }

    /// Notes that the link `handle` was torn down: by the host where it
    /// has asked for that, else by the peer.
    pub fn report_connection_end(&mut self, handle: ConnectionHandle, ts: Timestamp)
        ensures
            final(self)@ == old(self)@.connection_ended(handle, ts),
    {
        let initiator = if self.pending_disconnections.contains_key(&handle) {
            InitiatorType::Host
        } else {
            InitiatorType::Peer
        };
        self.report_teardown(handle, initiator, ts);
    }

    /// Notes that the controller was reset, which drops every link.
    pub fn report_reset(&mut self, ts: Timestamp)
        ensures
            final(self)@ == old(self)@.reset(ts),
    {
        let links = self.handles.clone();
        let ghost before = self@;
        let mut k: u32 = 0;
        while k < 0x1_0000
            invariant
                k <= 0x1_0000,
                links@ == before.handles,
                before.teardown_all(before.handles.dom(), 0, ts) == self@.teardown_all(
                    before.handles.dom(),
                    k as int,
                    ts,
                ),
            decreases 0x1_0000 - k,
        {
            let handle: ConnectionHandle = k as ConnectionHandle;
            if links.contains_key(&handle) {
                self.report_teardown(handle, InitiatorType::Host, ts);
            }
            k += 1;
        }
        self.sco_handles.clear();
        self.pending_disconnections.clear();
    }

    /// Reads one record of advertising or inquiry data of `address`.
    pub fn process_gap_data(&mut self, address: &Address, data: &GapData)
        ensures
            final(self)@ == old(self)@.gap_record(*address, data@),
    {
        if data.data_type.is_local_name() {
            let name = decode_lossy(data.data.as_slice());
            self.report_name(address, &name);
        }
    }

    /// Reads the advertising or inquiry data of `address`, record by
    /// record, up to the first malformed record.
    pub fn process_raw_gap_data(&mut self, address: &Address, data: &[u8])
        ensures
            final(self)@ == old(self)@.gap_data(*address, data@),
    {
        let recs = GapData::parse_records(data);
        let ghost all = record_views(recs@);
        let ghost before = self@;
        let mut i: usize = 0;
        proof {
            assert(all.subrange(0, all.len() as int) =~= all);
        }
        while i < recs.len()
            invariant
                i <= recs.len(),
                all == record_views(recs@),
                before.gap_records(*address, all) == self@.gap_records(
                    *address,
                    all.subrange(i as int, all.len() as int),
                ),
            decreases recs.len() - i,
        {
            proof {
                let rest = all.subrange(i as int, all.len() as int);
                assert(rest[0] == recs@[i as int]@);
                assert(rest.drop_first() =~= all.subrange(i + 1, all.len() as int));
            }
            self.process_gap_data(address, &recs[i]);
            i += 1;
        }
    }

    /// Reads the devices of an advertising report.
    pub fn process_advertisements(&mut self, responses: &Vec<LeAdvertisingResponse>)
        ensures
            final(self)@ == old(self)@.advertisements(responses@),
    {
        let ghost before = self@;
        let mut i: usize = 0;
        proof {
            assert(responses@.subrange(0, responses@.len() as int) =~= responses@);
        }
        while i < responses.len()
            invariant
                i <= responses.len(),
                before.advertisements(responses@) == self@.advertisements(
                    responses@.subrange(i as int, responses@.len() as int),
                ),
            decreases responses.len() - i,
        {
            proof {
                let rest = responses@.subrange(i as int, responses@.len() as int);
                assert(rest[0] == responses@[i as int]);
                assert(rest.drop_first() =~= responses@.subrange(i + 1, responses@.len() as int));
            }
            let response = &responses[i];
            self.process_raw_gap_data(&response.address, response.advertising_data.as_slice());
            self.report_address_type(&response.address, AddressType::LE);
            i += 1;
        }
    }

    /// Notes that one side asked to open a channel on the link `handle`.
    pub fn report_l2cap_conn_req(
        &mut self,
        handle: ConnectionHandle,
        psm: Psm,
        cid: Cid,
        initiator: InitiatorType,
        ts: Timestamp,
    )
        ensures
            final(self)@ == old(self)@.on_session(
                handle,
                Transport::BREDR,
                AclEvent::ChannelRequest { psm, cid, initiator },
                ts,
            ),
    {
        self.report_on_connection(
            handle,
            Transport::BREDR,
            AclEvent::ChannelRequest { psm, cid, initiator },
            ts,
        );
    }

    /// Notes the answer to a request to open a channel on the link `handle`.
    pub fn report_l2cap_conn_rsp(
        &mut self,
        handle: ConnectionHandle,
        status: ConnectionResponseResult,
        host_cid: Cid,
        peer_cid: Cid,
        initiator: InitiatorType,
        ts: Timestamp,
    )
        ensures
            final(self)@ == old(self)@.channel_answered(
                handle,
                status,
                CidInformation { host_cid, peer_cid },
                initiator,
                ts,
            ),
    {
        if status == ConnectionResponseResult::Pending {
            return ;
        }
        let cid_info = CidInformation { host_cid, peer_cid };
        self.report_on_connection(
            handle,
            Transport::BREDR,
            AclEvent::ChannelResponse { status, cid_info, initiator },
            ts,
        );
    }

    /// Notes that a channel on the link `handle` was closed.
    pub fn report_l2cap_disconn_rsp(
        &mut self,
        handle: ConnectionHandle,
        host_cid: Cid,
        peer_cid: Cid,
        initiator: InitiatorType,
        ts: Timestamp,
    )
        ensures
            final(self)@ == old(self)@.on_session(
                handle,
                Transport::BREDR,
                AclEvent::ChannelClose {
                    cid_info: CidInformation { host_cid, peer_cid },
                    initiator,
                },
                ts,
            ),
    {
        let cid_info = CidInformation { host_cid, peer_cid };
        self.report_on_connection(
            handle,
            Transport::BREDR,
            AclEvent::ChannelClose { cid_info, initiator },
            ts,
        );
    }

    /// Reads a data packet that `sender` sent on a link.
    fn process_acl(&mut self, acl: &Acl, sender: InitiatorType, ts: Timestamp)
        requires
            sender != InitiatorType::Unknown,
        ensures
            final(self)@ == old(self)@.on_acl(*acl, sender, ts),
    {
        let receiver = match sender {
            InitiatorType::Host => InitiatorType::Peer,
            _ => InitiatorType::Host,
        };
        match acl.content {
            AclContent::Control(Control::ConnectionRequest { psm, source_cid }) => {
                self.report_l2cap_conn_req(acl.handle, psm, source_cid, sender, ts);
            },
            AclContent::Control(
                Control::ConnectionResponse { result, destination_cid, source_cid },
            ) => {
                match sender {
                    InitiatorType::Host => self.report_l2cap_conn_rsp(
                        acl.handle,
                        result,
                        destination_cid,
                        source_cid,
                        receiver,
                        ts,
                    ),
                    _ => self.report_l2cap_conn_rsp(
                        acl.handle,
                        result,
                        source_cid,
                        destination_cid,
                        receiver,
                        ts,
                    ),
                }
            },
            AclContent::Control(Control::DisconnectionResponse { destination_cid, source_cid }) => {
                match sender {
                    InitiatorType::Host => self.report_l2cap_disconn_rsp(
                        acl.handle,
                        destination_cid,
                        source_cid,
                        receiver,
                        ts,
                    ),
                    _ => self.report_l2cap_disconn_rsp(
                        acl.handle,
                        source_cid,
                        destination_cid,
                        receiver,
                        ts,
                    ),
                }
            },
            _ => {},
        }
    }

    /// Notes that a link was set up, or failed to be.
    fn report_connection_complete(
        &mut self,
        status: ErrorCode,
        address: &Address,
        handle: ConnectionHandle,
        transport: Transport,
        ts: Timestamp,
    )
        ensures
            final(self)@ == old(self)@.connection_completed(status, *address, handle, transport, ts),
    {
        self.report_connection_start(address, handle, transport, ts);
        if status != ErrorCode::Success {
            self.report_connection_end(handle, ts);
        }
    }

    /// Notes that an LE link was set up, or failed to be.
    fn report_le_connection_complete(
        &mut self,
        status: ErrorCode,
        address: &Address,
        handle: ConnectionHandle,
        ts: Timestamp,
    )
        ensures
            final(self)@ == old(self)@.le_connection_completed(status, *address, handle, ts),
    {
        self.report_connection_complete(status, address, handle, Transport::LE, ts);
        if status == ErrorCode::Success {
            self.report_address_type(address, AddressType::LE);
        }
    }

    /// Reads an event from the controller.
    fn process_event(&mut self, event: &Event, ts: Timestamp)
        ensures
            final(self)@ == old(self)@.on_event(*event, ts),
    {
        match event {
            Event::ConnectionComplete { status, connection_handle, bd_addr } => {
                self.report_connection_complete(
                    *status,
                    bd_addr,
                    *connection_handle,
                    Transport::BREDR,
                    ts,
                );
            },
            Event::SynchronousConnectionComplete { status, connection_handle, bd_addr } => {
                self.report_sco_connection_start(bd_addr, *connection_handle, ts);
                if *status != ErrorCode::Success {
                    self.report_connection_end(*connection_handle, ts);
                }
            },
            Event::DisconnectionComplete { connection_handle } => {
                let done = match self.pending_disconnections.get(connection_handle) {
                    Some(is_power_off) => *is_power_off,
                    None => false,
                };
                if !done {
                    self.report_connection_end(*connection_handle, ts);
                }
                self.pending_disconnections.remove(connection_handle);
            },
            Event::ExtendedInquiryResult { address, extended_inquiry_response } => {
                self.process_raw_gap_data(address, extended_inquiry_response.as_slice());
                self.report_address_type(address, AddressType::BREDR);
            },
            Event::RemoteNameRequestComplete { status, bd_addr, remote_name } => {
                if *status != ErrorCode::Success {
                    return ;
                }
                let decoded = decode_lossy(remote_name.as_slice());
                let name = trim_trailing_nuls(decoded.as_str());
                self.report_name(bd_addr, &name);
                self.report_address_type(bd_addr, AddressType::BREDR);
            },
            Event::LeMetaEvent(le) => {
                match le {
                    LeMetaEvent::LeConnectionComplete { status, connection_handle, peer_address } => {
                        self.report_le_connection_complete(
                            *status,
                            peer_address,
                            *connection_handle,
                            ts,
                        );
                    },
                    LeMetaEvent::LeEnhancedConnectionComplete {
                        status,
                        connection_handle,
                        peer_address,
                    } => {
                        self.report_le_connection_complete(
                            *status,
                            peer_address,
                            *connection_handle,
                            ts,
                        );
                    },
                    LeMetaEvent::LeAdvertisingReport { responses } => {
                        self.process_advertisements(responses);
                    },
                    LeMetaEvent::LeExtendedAdvertisingReport { responses } => {
                        self.process_advertisements(responses);
                    },
                    LeMetaEvent::Other => {},
                }
            },
            Event::Other => {},
        }
    }

    /// Reads a command of the host.
    fn process_command(&mut self, command: &Command, ts: Timestamp)
        ensures
            final(self)@ == old(self)@.on_command(*command, ts),
    {
        match command {
            Command::Reset => {
                self.report_reset(ts);
            },
            Command::CreateConnection { bd_addr } => {
                self.report_acl_state(bd_addr, Transport::BREDR, AclState::Initiating);
                self.report_address_type(bd_addr, AddressType::BREDR);
            },
            Command::AcceptConnectionRequest { bd_addr } => {
                self.report_acl_state(bd_addr, Transport::BREDR, AclState::Accepting);
                self.report_address_type(bd_addr, AddressType::BREDR);
            },
            Command::Disconnect { connection_handle, reason } => {
                let is_power_off = *reason
                    == DisconnectReason::RemoteDeviceTerminatedConnectionPowerOff;
                self.pending_disconnections.insert(*connection_handle, is_power_off);
                if is_power_off {
                    self.report_connection_end(*connection_handle, ts);
                }
            },
            Command::Other => {},
        }
    }

    /// Reads one packet of the log.
    ///
    /// A state that was in order at a time not later than the packet is
    /// in order at the time of the packet. At most one session stays
    /// active for each device and transport, unless the packet reports
    /// the setting up of a link to a device that has an active session
    /// on that transport already.
    pub fn process(&mut self, packet: &Packet)
        ensures
            final(self)@ == old(self)@.step(*packet),
            forall|now: Timestamp|
                #[trigger] old(self)@.sound(now) && now.le(packet.ts) ==> final(self)@.sound(
                    packet.ts,
                ),
            old(self)@.single_open() && !old(self)@.opens_over_active(*packet)
                ==> final(self)@.single_open(),
    {
        proof {
            assert forall|now: Timestamp|
                #[trigger] old(self)@.sound(now) && now.le(packet.ts) implies old(self)@.step(
                *packet,
            ).sound(packet.ts) by {
                lemma_step_sound(old(self)@, *packet, now);
            }
            if old(self)@.single_open() && !old(self)@.opens_over_active(*packet) {
                lemma_step_single_open(old(self)@, *packet);
            }
        }
        match &packet.inner {
            PacketChild::HciCommand(command) => self.process_command(command, packet.ts),
            PacketChild::HciEvent(event) => self.process_event(event, packet.ts),
            PacketChild::AclTx(acl) => self.process_acl(acl, InitiatorType::Host, packet.ts),
            PacketChild::AclRx(acl) => self.process_acl(acl, InitiatorType::Peer, packet.ts),
            PacketChild::Other => {},
        }
    }

    /// The signals of this analysis: it describes, and raises none.
    pub fn report_signals(&self) -> (signals: Vec<Signal>)
        ensures
            signals@.len() == 0,
    {
        Vec::new()
    }
}

} // verus!
