//! At most one session is active for each device and transport.

use vstd::prelude::*;
use crate::acl::AclEvent;
use crate::address::{Address, AddressType};
use crate::device::DeviceView;
use crate::device_laws::{
    lemma_device_single_open, lemma_device_started_single_open, lemma_fresh_device_single_open,
};
use crate::gap::GapRecord;
use crate::packet::{
    Acl, Command, DisconnectReason, ErrorCode, Event, LeAdvertisingResponse, LeMetaEvent, Packet,
    PacketChild,
};
use crate::rule::{device_position, voice_end, voice_start, RuleView};
use crate::rule_laws::lemma_device_position_found;
use crate::time::Timestamp;
use crate::types::{AclState, ConnectionHandle, InitiatorType, Transport};

verus! {

impl RuleView {
    /// Whether every device has at most one active session on each
    /// transport: every session but the last of its transport has ended.
    pub open spec fn single_open(self) -> bool {
        forall|i: int| 0 <= i < self.devices.len() ==> (#[trigger] self.devices[i]).single_open()
    }

    /// Whether a device with `address` has an active session on `transport`.
    pub open spec fn link_active(self, address: Address, transport: Transport) -> bool {
        exists|i: int|
            0 <= i < self.devices.len() && (#[trigger] self.devices[i]).address == address
                && self.devices[i].is_connection_active(transport)
    }

    /// Whether `packet` reports the setting up of a link to a device that
    /// has an active session on the same transport already.
    pub open spec fn opens_over_active(self, packet: Packet) -> bool {
        match packet.inner {
            PacketChild::HciEvent(Event::ConnectionComplete { bd_addr, .. }) => self.link_active(
                bd_addr,
                Transport::BREDR,
            ),
            PacketChild::HciEvent(
                Event::LeMetaEvent(LeMetaEvent::LeConnectionComplete { peer_address, .. }),
            ) => self.link_active(peer_address, Transport::LE),
            PacketChild::HciEvent(
                Event::LeMetaEvent(LeMetaEvent::LeEnhancedConnectionComplete { peer_address, .. }),
            ) => self.link_active(peer_address, Transport::LE),
            _ => false,
        }
    }

    /// Whether none of `packets`, read in turn, reports the setting up
    /// of a link to a device that has an active session on the same
    /// transport at that time.
    pub open spec fn never_opens_over_active(self, packets: Seq<Packet>) -> bool
        decreases packets.len(),
    {
        packets.len() == 0 || (!self.opens_over_active(packets[0]) && self.step(
            packets[0],
        ).never_opens_over_active(packets.drop_first()))
    }
}

/// Making sure of a device leaves every device as it was, and gives the
/// place of the device of the address: the place it had, or a new place
/// at the end for a device of which only the address is known.
pub proof fn lemma_device_slot(s: RuleView, address: Address)
    ensures
        0 <= s.device_slot(address) < s.with_device(address).devices.len(),
        s.with_device(address).devices[s.device_slot(address)].address == address,
        forall|i: int|
            0 <= i < s.devices.len() ==> s.with_device(address).devices[i] == s.devices[i],
        match device_position(s.devices, address) {
            Some(i) => s.with_device(address) == s && i == s.device_slot(address),
            None => s.with_device(address).devices == s.devices.push(DeviceView::fresh(address))
                && s.device_slot(address) == s.devices.len(),
        },
{
    lemma_device_position_found(s.devices, address);
}

/// Putting a device with at most one active session on each transport
/// in the place of another keeps it so for every device.
pub proof fn lemma_set_device_single_open(s: RuleView, i: int, d: DeviceView)
    requires
        s.single_open(),
        0 <= i < s.devices.len(),
        d.single_open(),
    ensures
        s.set_device(i, d).single_open(),
{
    let r = s.set_device(i, d);
    assert forall|k: int| 0 <= k < r.devices.len() implies (#[trigger] r.devices[k]).single_open() by {
        if k != i {
            assert(s.devices[k].single_open());
        }
    }
}

/// Making sure of a device opens no session.
pub proof fn lemma_with_device_single_open(s: RuleView, address: Address)
    requires
        s.single_open(),
    ensures
        s.with_device(address).single_open(),
{
    lemma_device_slot(s, address);
    lemma_fresh_device_single_open(address);
    let w = s.with_device(address);
    assert forall|k: int| 0 <= k < w.devices.len() implies (#[trigger] w.devices[k]).single_open() by {
        if k < s.devices.len() {
            assert(s.devices[k].single_open());
        }
    }
}

/// Noting a name, a transport or the setting up of a link opens no session.
pub proof fn lemma_notes_single_open(
    s: RuleView,
    address: Address,
    name: Seq<char>,
    address_type: AddressType,
    transport: Transport,
    state: AclState,
)
    requires
        s.single_open(),
    ensures
        s.name_reported(address, name).single_open(),
        s.address_type_reported(address, address_type).single_open(),
        s.acl_state_reported(address, transport, state).single_open(),
{
    lemma_device_slot(s, address);
    lemma_with_device_single_open(s, address);
    let w = s.with_device(address);
    let i = s.device_slot(address);
    lemma_device_single_open(
        w.devices[i],
        name,
        address_type,
        state,
        0,
        transport,
        AclEvent::End { initiator: InitiatorType::Unknown },
        InitiatorType::Unknown,
        Timestamp::never(),
    );
    lemma_set_device_single_open(w, i, w.devices[i].named(name));
    lemma_set_device_single_open(w, i, w.devices[i].typed(address_type));
    lemma_set_device_single_open(w, i, w.devices[i].with_acl_state(transport, state));
}

/// The setting up of a link to a device that has no active session on
/// the transport of the link leaves at most one active.
pub proof fn lemma_connection_started_single_open(
    s: RuleView,
    address: Address,
    handle: ConnectionHandle,
    transport: Transport,
    ts: Timestamp,
)
    requires
        s.single_open(),
        !s.link_active(address, transport),
    ensures
        s.connection_started(address, handle, transport, ts).single_open(),
{
    lemma_device_slot(s, address);
    lemma_with_device_single_open(s, address);
    lemma_fresh_device_single_open(address);
    let w = s.with_device(address);
    let i = s.device_slot(address);
    if device_position(s.devices, address) is Some {
        assert(s.devices[i].address == address);
        assert(!s.devices[i].is_connection_active(transport));
    }
    assert(!w.devices[i].is_connection_active(transport));
    lemma_device_started_single_open(w.devices[i], handle, transport, ts);
    let d = w.devices[i].connection_started(handle, transport, ts);
    lemma_set_device_single_open(w, i, d);
    assert(s.connection_started(address, handle, transport, ts).devices == w.set_device(
        i,
        d,
    ).devices);
}

/// Whatever happens in the session of a link leaves at most one session
/// active: where none is active, one is made, and no other.
pub proof fn lemma_on_session_single_open(
    s: RuleView,
    handle: ConnectionHandle,
    transport: Transport,
    event: AclEvent,
    ts: Timestamp,
)
    requires
        s.single_open(),
    ensures
        s.on_session(handle, transport, event, ts).single_open(),
        s.on_unknown_session(handle, transport, event, ts).single_open(),
{
    assert(s.on_unknown_session(handle, transport, event, ts).devices == s.devices);
    if s.handles.contains_key(handle) && transport != Transport::Unknown {
        let address = s.handles[handle];
        lemma_device_slot(s, address);
        lemma_with_device_single_open(s, address);
        let w = s.with_device(address);
        let i = s.device_slot(address);
        lemma_device_single_open(
            w.devices[i],
            Seq::empty(),
            AddressType::Unknown,
            AclState::Idle,
            handle,
            transport,
            event,
            InitiatorType::Unknown,
            ts,
        );
        lemma_set_device_single_open(w, i, w.devices[i].on_session(handle, transport, event, ts));
    }
}

/// The setting up of a synchronous link opens no session.
pub proof fn lemma_sco_connection_started_single_open(
    s: RuleView,
    address: Address,
    handle: ConnectionHandle,
    ts: Timestamp,
)
    requires
        s.single_open(),
    ensures
        s.sco_connection_started(address, handle, ts).single_open(),
{
    lemma_device_position_found(s.devices, address);
    match device_position(s.devices, address) {
        None => {},
        Some(i) => {
            if s.devices[i].is_connection_active(Transport::BREDR) {
                lemma_device_single_open(
                    s.devices[i],
                    Seq::empty(),
                    AddressType::Unknown,
                    AclState::Idle,
                    0,
                    Transport::BREDR,
                    voice_start(),
                    InitiatorType::Unknown,
                    ts,
                );
                let d = s.devices[i].on_session(0, Transport::BREDR, voice_start(), ts);
                lemma_set_device_single_open(s, i, d);
                assert(s.sco_connection_started(address, handle, ts).devices == s.set_device(
                    i,
                    d,
                ).devices);
            }
        },
    }
}

/// The teardown of a link opens no session.
pub proof fn lemma_teardown_single_open(
    s: RuleView,
    handle: ConnectionHandle,
    initiator: InitiatorType,
    ts: Timestamp,
)
    requires
        s.single_open(),
    ensures
        s.teardown(handle, initiator, ts).single_open(),
{
    let r = s.teardown(handle, initiator, ts);
    if s.sco_handles.contains_key(handle) {
        let link = s.sco_handles[handle];
        lemma_on_session_single_open(s, link, Transport::BREDR, voice_end(initiator), ts);
        assert(r.devices == s.on_session(
            link,
            Transport::BREDR,
            voice_end(initiator),
            ts,
        ).devices);
    } else if s.handles.contains_key(handle) {
        let address = s.handles[handle];
        lemma_device_position_found(s.devices, address);
        match device_position(s.devices, address) {
            Some(i) => {
                lemma_device_single_open(
                    s.devices[i],
                    Seq::empty(),
                    AddressType::Unknown,
                    AclState::Idle,
                    handle,
                    Transport::Unknown,
                    AclEvent::End { initiator },
                    initiator,
                    ts,
                );
                let d = s.devices[i].connection_ended(handle, initiator, ts);
                lemma_set_device_single_open(s, i, d);
                assert(r.devices == s.set_device(i, d).devices);
            },
            None => {},
        }
    } else {
        lemma_on_session_single_open(
            s,
            handle,
            Transport::Unknown,
            AclEvent::End { initiator },
            ts,
        );
    }
}

/// The teardown of a link, by whoever is taken to have asked for it,
/// opens no session.
pub proof fn lemma_connection_ended_single_open(s: RuleView, handle: ConnectionHandle, ts: Timestamp)
    requires
        s.single_open(),
    ensures
        s.connection_ended(handle, ts).single_open(),
{
    lemma_teardown_single_open(s, handle, s.teardown_initiator(handle), ts);
}

/// The teardown of every link opens no session.
pub proof fn lemma_teardown_all_single_open(
    s: RuleView,
    links: Set<ConnectionHandle>,
    from: int,
    ts: Timestamp,
)
    requires
        s.single_open(),
    ensures
        s.teardown_all(links, from, ts).single_open(),
    decreases 0x1_0000 - from,
{
    if from < 0 || from >= 0x1_0000 {
    } else if links.contains(from as ConnectionHandle) {
        lemma_teardown_single_open(s, from as ConnectionHandle, InitiatorType::Host, ts);
        lemma_teardown_all_single_open(
            s.teardown(from as ConnectionHandle, InitiatorType::Host, ts),
            links,
            from + 1,
            ts,
        );
    } else {
        lemma_teardown_all_single_open(s, links, from + 1, ts);
    }
}

/// Reading the records of a device opens no session.
pub proof fn lemma_gap_records_single_open(s: RuleView, address: Address, recs: Seq<GapRecord>)
    requires
        s.single_open(),
    ensures
        s.gap_records(address, recs).single_open(),
    decreases recs.len(),
{
    if recs.len() > 0 {
        lemma_notes_single_open(
            s,
            address,
            crate::text::lossy_text(recs[0].data),
            AddressType::Unknown,
            Transport::Unknown,
            AclState::Idle,
        );
        lemma_gap_records_single_open(s.gap_record(address, recs[0]), address, recs.drop_first());
    }
}

/// Reading an advertising report opens no session.
pub proof fn lemma_advertisements_single_open(s: RuleView, responses: Seq<LeAdvertisingResponse>)
    requires
        s.single_open(),
    ensures
        s.advertisements(responses).single_open(),
    decreases responses.len(),
{
    if responses.len() > 0 {
        let response = responses[0];
        lemma_gap_records_single_open(
            s,
            response.address,
            crate::gap::records(response.advertising_data@),
        );
        lemma_notes_single_open(
            s.gap_data(response.address, response.advertising_data@),
            response.address,
            Seq::empty(),
            AddressType::LE,
            Transport::Unknown,
            AclState::Idle,
        );
        lemma_advertisements_single_open(s.advertisement(response), responses.drop_first());
    }
}

/// The completion of the setting up of a link to a device that has no
/// active session on the transport of the link leaves at most one active.
pub proof fn lemma_connection_completed_single_open(
    s: RuleView,
    status: ErrorCode,
    address: Address,
    handle: ConnectionHandle,
    transport: Transport,
    ts: Timestamp,
)
    requires
        s.single_open(),
        !s.link_active(address, transport),
    ensures
        s.connection_completed(status, address, handle, transport, ts).single_open(),
{
    lemma_connection_started_single_open(s, address, handle, transport, ts);
    let started = s.connection_started(address, handle, transport, ts);
    lemma_connection_ended_single_open(started, handle, ts);
}

/// The completion of the setting up of an LE link to a device that has
/// no active session on LE leaves at most one active.
pub proof fn lemma_le_connection_completed_single_open(
    s: RuleView,
    status: ErrorCode,
    address: Address,
    handle: ConnectionHandle,
    ts: Timestamp,
)
    requires
        s.single_open(),
        !s.link_active(address, Transport::LE),
    ensures
        s.le_connection_completed(status, address, handle, ts).single_open(),
{
    lemma_connection_completed_single_open(s, status, address, handle, Transport::LE, ts);
    lemma_notes_single_open(
        s.connection_completed(status, address, handle, Transport::LE, ts),
        address,
        Seq::empty(),
        AddressType::LE,
        Transport::Unknown,
        AclState::Idle,
    );
}

/// An event from the controller leaves at most one session active,
/// unless it reports the setting up of a link to a device that has an
/// active session on that transport already.
pub proof fn lemma_on_event_single_open(s: RuleView, event: Event, ts: Timestamp)
    requires
        s.single_open(),
        !s.opens_over_active(Packet { ts, inner: PacketChild::HciEvent(event) }),
    ensures
        s.on_event(event, ts).single_open(),
{
    match event {
        Event::ConnectionComplete { status, connection_handle, bd_addr } => {
            lemma_connection_completed_single_open(
                s,
                status,
                bd_addr,
                connection_handle,
                Transport::BREDR,
                ts,
            );
        },
        Event::SynchronousConnectionComplete { status, connection_handle, bd_addr } => {
            lemma_sco_connection_started_single_open(s, bd_addr, connection_handle, ts);
            lemma_connection_ended_single_open(
                s.sco_connection_started(bd_addr, connection_handle, ts),
                connection_handle,
                ts,
            );
        },
        Event::DisconnectionComplete { connection_handle } => {
            lemma_connection_ended_single_open(s, connection_handle, ts);
            let done = s.pending_disconnections.contains_key(connection_handle)
                && s.pending_disconnections[connection_handle];
            let torn = if done {
                s
            } else {
                s.connection_ended(connection_handle, ts)
            };
            assert(s.disconnection_completed(connection_handle, ts).devices == torn.devices);
        },
        Event::ExtendedInquiryResult { address, extended_inquiry_response } => {
            lemma_gap_records_single_open(
                s,
                address,
                crate::gap::records(extended_inquiry_response@),
            );
            lemma_notes_single_open(
                s.gap_data(address, extended_inquiry_response@),
                address,
                Seq::empty(),
                AddressType::BREDR,
                Transport::Unknown,
                AclState::Idle,
            );
        },
        Event::RemoteNameRequestComplete { status, bd_addr, remote_name } => {
            if status == ErrorCode::Success {
                let name = crate::text::without_trailing_nuls(
                    crate::text::lossy_text(remote_name@),
                );
                lemma_notes_single_open(
                    s,
                    bd_addr,
                    name,
                    AddressType::Unknown,
                    Transport::Unknown,
                    AclState::Idle,
                );
                lemma_notes_single_open(
                    s.name_reported(bd_addr, name),
                    bd_addr,
                    name,
                    AddressType::BREDR,
                    Transport::Unknown,
                    AclState::Idle,
                );
            }
        },
        Event::LeMetaEvent(le) => {
            match le {
                LeMetaEvent::LeConnectionComplete { status, connection_handle, peer_address } => {
                    lemma_le_connection_completed_single_open(
                        s,
                        status,
                        peer_address,
                        connection_handle,
                        ts,
                    );
                },
                LeMetaEvent::LeEnhancedConnectionComplete {
                    status,
                    connection_handle,
                    peer_address,
                } => {
                    lemma_le_connection_completed_single_open(
                        s,
                        status,
                        peer_address,
                        connection_handle,
                        ts,
                    );
                },
                LeMetaEvent::LeAdvertisingReport { responses } => {
                    lemma_advertisements_single_open(s, responses@);
                },
                LeMetaEvent::LeExtendedAdvertisingReport { responses } => {
                    lemma_advertisements_single_open(s, responses@);
                },
                LeMetaEvent::Other => {},
            }
        },
        Event::Other => {},
    }
}

/// A command of the host opens no session.
pub proof fn lemma_on_command_single_open(s: RuleView, command: Command, ts: Timestamp)
    requires
        s.single_open(),
    ensures
        s.on_command(command, ts).single_open(),
{
    match command {
        Command::Reset => {
            lemma_teardown_all_single_open(s, s.handles.dom(), 0, ts);
            assert(s.reset(ts).devices == s.teardown_all(s.handles.dom(), 0, ts).devices);
        },
        Command::CreateConnection { bd_addr } => {
            lemma_notes_single_open(
                s,
                bd_addr,
                Seq::empty(),
                AddressType::Unknown,
                Transport::BREDR,
                AclState::Initiating,
            );
            lemma_notes_single_open(
                s.acl_state_reported(bd_addr, Transport::BREDR, AclState::Initiating),
                bd_addr,
                Seq::empty(),
                AddressType::BREDR,
                Transport::Unknown,
                AclState::Idle,
            );
        },
        Command::AcceptConnectionRequest { bd_addr } => {
            lemma_notes_single_open(
                s,
                bd_addr,
                Seq::empty(),
                AddressType::Unknown,
                Transport::BREDR,
                AclState::Accepting,
            );
            lemma_notes_single_open(
                s.acl_state_reported(bd_addr, Transport::BREDR, AclState::Accepting),
                bd_addr,
                Seq::empty(),
                AddressType::BREDR,
                Transport::Unknown,
                AclState::Idle,
            );
        },
        Command::Disconnect { connection_handle, reason } => {
            let is_power_off = reason == DisconnectReason::RemoteDeviceTerminatedConnectionPowerOff;
            let noted = RuleView {
                pending_disconnections: s.pending_disconnections.insert(
                    connection_handle,
                    is_power_off,
                ),
                ..s
            };
            assert(noted.single_open());
            lemma_connection_ended_single_open(noted, connection_handle, ts);
        },
        Command::Other => {},
    }
}

/// A data packet leaves at most one session active: where none is
/// active on its link, one is made, and no other.
pub proof fn lemma_on_acl_single_open(s: RuleView, acl: Acl, sender: InitiatorType, ts: Timestamp)
    requires
        s.single_open(),
    ensures
        s.on_acl(acl, sender, ts).single_open(),
{
    assert forall|event: AclEvent|
        (#[trigger] s.on_session(acl.handle, Transport::BREDR, event, ts)).single_open() by {
        lemma_on_session_single_open(s, acl.handle, Transport::BREDR, event, ts);
    }
}

/// At most one session is active for each device and transport, and
/// that is the last: every packet keeps it so, but one that reports the
/// setting up of a link to a device that has an active session on that
/// transport already.
pub proof fn lemma_step_single_open(s: RuleView, packet: Packet)
    requires
        s.single_open(),
        !s.opens_over_active(packet),
    ensures
        s.step(packet).single_open(),
{
    match packet.inner {
        PacketChild::HciCommand(command) => lemma_on_command_single_open(s, command, packet.ts),
        PacketChild::HciEvent(event) => {
            assert(s.opens_over_active(packet) == s.opens_over_active(
                Packet { ts: packet.ts, inner: PacketChild::HciEvent(event) },
            ));
            lemma_on_event_single_open(s, event, packet.ts);
        },
        PacketChild::AclTx(acl) => lemma_on_acl_single_open(s, acl, InitiatorType::Host, packet.ts),
        PacketChild::AclRx(acl) => lemma_on_acl_single_open(s, acl, InitiatorType::Peer, packet.ts),
        PacketChild::Other => {},
    }
}

/// At most one session is active for each device and transport after
/// any packets of which none reports the setting up of a link to a
/// device that has an active session on that transport at that time.
pub proof fn lemma_run_single_open(s: RuleView, packets: Seq<Packet>)
    requires
        s.single_open(),
        s.never_opens_over_active(packets),
    ensures
        s.run(packets).single_open(),
    decreases packets.len(),
{
    if packets.len() > 0 {
        lemma_step_single_open(s, packets[0]);
        lemma_run_single_open(s.step(packets[0]), packets.drop_first());
    }
}

/// Before any packet no session is active.
pub proof fn lemma_init_single_open()
    ensures
        RuleView::init().single_open(),
{
}

} // verus!
