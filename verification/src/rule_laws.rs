//! What holds of the analysis state after every packet.

use vstd::prelude::*;
use crate::acl::{AclEvent, AclView};
use crate::acl_laws::{lemma_after_kept, lemma_fresh_kept, lemma_still_kept};
use crate::address::{Address, AddressType};
use crate::device::DeviceView;
use crate::device_laws::{
    lemma_connection_ended_sound, lemma_connection_started_sound, lemma_device_still_sound,
    lemma_fresh_device_sound, lemma_notes_sound, lemma_on_session_sound,
};
use crate::gap::GapRecord;
use crate::packet::{
    Acl, Command, DisconnectReason, ErrorCode, Event, LeAdvertisingResponse, LeMetaEvent, Packet,
    PacketChild,
};
use crate::rule::{
    device_position, is_first_device, is_first_session, session_position, voice_end, voice_start,
    RuleView,
};
use crate::time::Timestamp;
use crate::types::{
    AclState, ConnectionHandle, InitiatorType, Transport,
};

verus! {

/// Whether a device with `address` is known.
pub open spec fn device_known(devices: Seq<DeviceView>, address: Address) -> bool {
    exists|i: int| 0 <= i < devices.len() && (#[trigger] devices[i]).address == address
}

impl RuleView {
    /// Whether the state is well formed: no address has two devices, no
    /// handle two sessions among those of unknown devices, and the device
    /// of every link that is up is known.
    pub open spec fn wf(self) -> bool {
        &&& forall|i: int, j: int|
            0 <= i < j < self.devices.len() ==> (#[trigger] self.devices[i]).address != (
            #[trigger] self.devices[j]).address
        &&& forall|i: int, j: int|
            0 <= i < j < self.unknown_connections.len() ==> (
            #[trigger] self.unknown_connections[i]).handle != (
            #[trigger] self.unknown_connections[j]).handle
        &&& forall|h: ConnectionHandle| #[trigger]
            self.handles.contains_key(h) ==> device_known(self.devices, self.handles[h])
    }

    /// Whether the state is in order at the time `now`: it is well
    /// formed, every device and every session is in order, and nothing
    /// in it is later than `now`.
    pub open spec fn sound(self, now: Timestamp) -> bool {
        &&& self.wf()
        &&& forall|i: int| 0 <= i < self.devices.len() ==> (#[trigger] self.devices[i]).sound(now)
        &&& forall|i: int|
            0 <= i < self.unknown_connections.len() ==> (
            #[trigger] self.unknown_connections[i]).kept(now)
    }

    /// Whether no session, of a known device or not, ends earlier than
    /// it starts.
    pub open spec fn ends_follow_starts(self) -> bool {
        &&& forall|i: int, k: int|
            0 <= i < self.devices.len() && 0 <= k < self.devices[i].bredr_acls.len() ==> (
            #[trigger] self.devices[i].bredr_acls[k]).ends_after_start()
        &&& forall|i: int, k: int|
            0 <= i < self.devices.len() && 0 <= k < self.devices[i].le_acls.len() ==> (
            #[trigger] self.devices[i].le_acls[k]).ends_after_start()
        &&& forall|k: int|
            0 <= k < self.unknown_connections.len() ==> (
            #[trigger] self.unknown_connections[k]).ends_after_start()
    }

    /// Whether no session of a known device that has ended has a profile
    /// running on.
    pub open spec fn quiet(self) -> bool {
        &&& forall|i: int, k: int|
            0 <= i < self.devices.len() && 0 <= k < self.devices[i].bredr_acls.len() ==> (
            #[trigger] self.devices[i].bredr_acls[k]).quiet()
        &&& forall|i: int, k: int|
            0 <= i < self.devices.len() && 0 <= k < self.devices[i].le_acls.len() ==> (
            #[trigger] self.devices[i].le_acls[k]).quiet()
    }
}

/// Whether the packets are in the order of their timestamps.
pub open spec fn chronological(packets: Seq<Packet>) -> bool {
    forall|i: int, j: int|
        0 <= i < j < packets.len() ==> (#[trigger] packets[i]).ts.le((#[trigger] packets[j]).ts)
}

/// An address that has a place among the devices has a first place.
proof fn lemma_device_has_first(devices: Seq<DeviceView>, address: Address, j: int)
    requires
        0 <= j < devices.len(),
        devices[j].address == address,
    ensures
        device_position(devices, address) is Some,
    decreases j,
{
    if exists|k: int| 0 <= k < j && (#[trigger] devices[k]).address == address {
        let k = choose|k: int| 0 <= k < j && (#[trigger] devices[k]).address == address;
        lemma_device_has_first(devices, address, k);
    } else {
        assert(is_first_device(devices, address, j));
    }
}

/// What `device_position` finds is a first place, and where it finds
/// none no device has the address.
pub proof fn lemma_device_position_found(devices: Seq<DeviceView>, address: Address)
    ensures
        match device_position(devices, address) {
            Some(i) => is_first_device(devices, address, i),
            None => forall|j: int|
                0 <= j < devices.len() ==> (#[trigger] devices[j]).address != address,
        },
{
    match device_position(devices, address) {
        Some(i) => {},
        None => {
            assert forall|j: int| 0 <= j < devices.len() implies (#[trigger] devices[j]).address
                != address by {
                if devices[j].address == address {
                    lemma_device_has_first(devices, address, j);
                }
            }
        },
    }
}

/// A handle that has a place among the sessions has a first place.
proof fn lemma_session_has_first(acls: Seq<AclView>, handle: ConnectionHandle, j: int)
    requires
        0 <= j < acls.len(),
        acls[j].handle == handle,
    ensures
        session_position(acls, handle) is Some,
    decreases j,
{
    if exists|k: int| 0 <= k < j && (#[trigger] acls[k]).handle == handle {
        let k = choose|k: int| 0 <= k < j && (#[trigger] acls[k]).handle == handle;
        lemma_session_has_first(acls, handle, k);
    } else {
        assert(is_first_session(acls, handle, j));
    }
}

/// What `session_position` finds is a first place, and where it finds
/// none no session has the handle.
pub proof fn lemma_session_position_found(acls: Seq<AclView>, handle: ConnectionHandle)
    ensures
        match session_position(acls, handle) {
            Some(i) => is_first_session(acls, handle, i),
            None => forall|j: int| 0 <= j < acls.len() ==> (#[trigger] acls[j]).handle != handle,
        },
{
    match session_position(acls, handle) {
        Some(i) => {},
        None => {
            assert forall|j: int| 0 <= j < acls.len() implies (#[trigger] acls[j]).handle
                != handle by {
                if acls[j].handle == handle {
                    lemma_session_has_first(acls, handle, j);
                }
            }
        },
    }
}

/// The state before any packet is in order.
pub proof fn lemma_init_sound(now: Timestamp)
    ensures
        RuleView::init().sound(now),
{
}

/// A state that is in order stays so as time goes by.
pub proof fn lemma_still_sound(s: RuleView, now: Timestamp, later: Timestamp)
    requires
        s.sound(now),
        now.le(later),
    ensures
        s.sound(later),
{
    assert forall|i: int| 0 <= i < s.devices.len() implies (#[trigger] s.devices[i]).sound(
        later,
    ) by {
        lemma_device_still_sound(s.devices[i], now, later);
    }
    assert forall|i: int| 0 <= i < s.unknown_connections.len() implies (
    #[trigger] s.unknown_connections[i]).kept(later) by {
        lemma_still_kept(s.unknown_connections[i], now, later);
    }
}

/// Making sure of a device keeps the state in order, and gives the
/// device of the address.
pub proof fn lemma_with_device(s: RuleView, address: Address, now: Timestamp)
    requires
        s.sound(now),
    ensures
        s.with_device(address).sound(now),
        0 <= s.device_slot(address) < s.with_device(address).devices.len(),
        s.with_device(address).devices[s.device_slot(address)].address == address,
        s.with_device(address).devices.len() >= s.devices.len(),
        forall|i: int|
            0 <= i < s.devices.len() ==> s.with_device(address).devices[i] == s.devices[i],
        device_position(s.devices, address) is None ==> s.with_device(address).devices[s.device_slot(
            address,
        )] == DeviceView::fresh(address),
{
    lemma_device_position_found(s.devices, address);
    lemma_fresh_device_sound(address, now);
    let w = s.with_device(address);
    if device_position(s.devices, address) is None {
        assert forall|h: ConnectionHandle| #[trigger] w.handles.contains_key(h) implies device_known(
            w.devices,
            w.handles[h],
        ) by {
            let j = choose|j: int|
                0 <= j < s.devices.len() && (#[trigger] s.devices[j]).address == s.handles[h];
            assert(w.devices[j].address == s.handles[h]);
        }
        assert forall|i: int| 0 <= i < w.devices.len() implies (#[trigger] w.devices[i]).sound(
            now,
        ) by {
            if i < s.devices.len() {
                assert(s.devices[i].sound(now));
            }
        }
        assert forall|i: int, j: int| 0 <= i < j < w.devices.len() implies (
        #[trigger] w.devices[i]).address != (#[trigger] w.devices[j]).address by {
            assert(w.devices[i] == s.devices[i]);
            if j < s.devices.len() {
                assert(w.devices[j] == s.devices[j]);
            }
        }
    }
}

/// Putting a device that is in order in the place of one of the same
/// address keeps the state in order.
pub proof fn lemma_set_device(s: RuleView, i: int, d: DeviceView, now: Timestamp)
    requires
        s.sound(now),
        0 <= i < s.devices.len(),
        d.sound(now),
        d.address == s.devices[i].address,
    ensures
        s.set_device(i, d).sound(now),
{
    let r = s.set_device(i, d);
    assert forall|h: ConnectionHandle| #[trigger] r.handles.contains_key(h) implies device_known(
        r.devices,
        r.handles[h],
    ) by {
        let j = choose|j: int|
            0 <= j < s.devices.len() && (#[trigger] s.devices[j]).address == s.handles[h];
        assert(r.devices[j].address == s.handles[h]);
    }
    assert forall|a: int, b: int| 0 <= a < b < r.devices.len() implies (
    #[trigger] r.devices[a]).address != (#[trigger] r.devices[b]).address by {
        assert(r.devices[a].address == s.devices[a].address);
        assert(r.devices[b].address == s.devices[b].address);
    }
    assert forall|k: int| 0 <= k < r.devices.len() implies (#[trigger] r.devices[k]).sound(now) by {
        if k != i {
            assert(s.devices[k].sound(now));
        }
    }
}

/// Noting a name, a transport or the setting up of a link keeps the
/// state in order.
pub proof fn lemma_notes(
    s: RuleView,
    address: Address,
    name: Seq<char>,
    address_type: AddressType,
    transport: Transport,
    state: AclState,
    now: Timestamp,
)
    requires
        s.sound(now),
    ensures
        s.name_reported(address, name).sound(now),
        s.address_type_reported(address, address_type).sound(now),
        s.acl_state_reported(address, transport, state).sound(now),
{
    lemma_with_device(s, address, now);
    let w = s.with_device(address);
    let i = s.device_slot(address);
    lemma_notes_sound(w.devices[i], name, address_type, transport, state, now);
    lemma_set_device(w, i, w.devices[i].named(name), now);
    lemma_set_device(w, i, w.devices[i].typed(address_type), now);
    lemma_set_device(w, i, w.devices[i].with_acl_state(transport, state), now);
}

/// The setting up of a link keeps the state in order.
pub proof fn lemma_connection_started(
    s: RuleView,
    address: Address,
    handle: ConnectionHandle,
    transport: Transport,
    ts: Timestamp,
    now: Timestamp,
)
    requires
        s.sound(now),
        now.le(ts),
    ensures
        s.connection_started(address, handle, transport, ts).sound(ts),
{
    lemma_still_sound(s, now, ts);
    lemma_with_device(s, address, ts);
    let w = s.with_device(address);
    let i = s.device_slot(address);
    let d = w.devices[i].connection_started(handle, transport, ts);
    lemma_connection_started_sound(w.devices[i], handle, transport, ts, ts);
    lemma_set_device(w, i, d, ts);
    let m = w.set_device(i, d);
    let r = s.connection_started(address, handle, transport, ts);
    assert(r.devices == m.devices);
    assert(r.unknown_connections == m.unknown_connections);
    assert(m.devices[i].address == address);
    assert forall|h: ConnectionHandle| #[trigger] r.handles.contains_key(h) implies device_known(
        r.devices,
        r.handles[h],
    ) by {
        if h == handle {
            assert(r.devices[i].address == address);
        } else {
            assert(m.handles.contains_key(h));
        }
    }
}

/// Whatever happens in the session kept for a handle of no known
/// device keeps the state in order.
pub proof fn lemma_on_unknown_session(
    s: RuleView,
    handle: ConnectionHandle,
    transport: Transport,
    event: AclEvent,
    ts: Timestamp,
    now: Timestamp,
)
    requires
        s.sound(now),
        now.le(ts),
    ensures
        s.on_unknown_session(handle, transport, event, ts).sound(ts),
{
    lemma_still_sound(s, now, ts);
    lemma_session_position_found(s.unknown_connections, handle);
    let r = s.on_unknown_session(handle, transport, event, ts);
    let before = s.unknown_connections;
    let after = r.unknown_connections;
    match session_position(before, handle) {
        Some(i) => {
            lemma_after_kept(before[i], event, ts, ts);
            assert forall|a: int, b: int| 0 <= a < b < after.len() implies (
            #[trigger] after[a]).handle != (#[trigger] after[b]).handle by {
                assert(after[a].handle == before[a].handle);
                assert(after[b].handle == before[b].handle);
            }
            assert forall|k: int| 0 <= k < after.len() implies (#[trigger] after[k]).kept(ts) by {
                if k != i {
                    assert(before[k].kept(ts));
                }
            }
        },
        None => {
            lemma_fresh_kept(handle, transport, ts);
            lemma_after_kept(AclView::fresh(handle, transport), event, ts, ts);
            assert forall|a: int, b: int| 0 <= a < b < after.len() implies (
            #[trigger] after[a]).handle != (#[trigger] after[b]).handle by {
                assert(after[a] == before[a]);
                if b < before.len() {
                    assert(after[b] == before[b]);
                }
            }
            assert forall|k: int| 0 <= k < after.len() implies (#[trigger] after[k]).kept(ts) by {
                if k < before.len() {
                    assert(before[k].kept(ts));
                }
            }
        },
    }
}

/// Whatever happens in the session of a link keeps the state in order.
pub proof fn lemma_on_session(
    s: RuleView,
    handle: ConnectionHandle,
    transport: Transport,
    event: AclEvent,
    ts: Timestamp,
    now: Timestamp,
)
    requires
        s.sound(now),
        now.le(ts),
    ensures
        s.on_session(handle, transport, event, ts).sound(ts),
{
    if !s.handles.contains_key(handle) || transport == Transport::Unknown {
        lemma_on_unknown_session(s, handle, transport, event, ts, now);
    } else {
        let address = s.handles[handle];
        lemma_still_sound(s, now, ts);
        lemma_with_device(s, address, ts);
        let w = s.with_device(address);
        let i = s.device_slot(address);
        lemma_on_session_sound(w.devices[i], handle, transport, event, ts, ts);
        lemma_set_device(w, i, w.devices[i].on_session(handle, transport, event, ts), ts);
    }
}

/// The setting up of a synchronous link keeps the state in order.
pub proof fn lemma_sco_connection_started(
    s: RuleView,
    address: Address,
    handle: ConnectionHandle,
    ts: Timestamp,
    now: Timestamp,
)
    requires
        s.sound(now),
        now.le(ts),
    ensures
        s.sco_connection_started(address, handle, ts).sound(ts),
{
    lemma_still_sound(s, now, ts);
    lemma_device_position_found(s.devices, address);
    match device_position(s.devices, address) {
        None => {},
        Some(i) => {
            if s.devices[i].is_connection_active(Transport::BREDR) {
                let d = s.devices[i].on_session(0, Transport::BREDR, voice_start(), ts);
                lemma_on_session_sound(s.devices[i], 0, Transport::BREDR, voice_start(), ts, ts);
                lemma_set_device(s, i, d, ts);
                let m = s.set_device(i, d);
                let r = s.sco_connection_started(address, handle, ts);
                assert(r.devices == m.devices);
                assert(r.handles == m.handles);
                assert(r.unknown_connections == m.unknown_connections);
            }
        },
    }
}

/// The teardown of a link keeps the state in order.
pub proof fn lemma_teardown(
    s: RuleView,
    handle: ConnectionHandle,
    initiator: InitiatorType,
    ts: Timestamp,
    now: Timestamp,
)
    requires
        s.sound(now),
        now.le(ts),
    ensures
        s.teardown(handle, initiator, ts).sound(ts),
{
    lemma_still_sound(s, now, ts);
    let r = s.teardown(handle, initiator, ts);
    if s.sco_handles.contains_key(handle) {
        let link = s.sco_handles[handle];
        lemma_on_session(s, link, Transport::BREDR, voice_end(initiator), ts, ts);
        let ended = s.on_session(link, Transport::BREDR, voice_end(initiator), ts);
        assert(r.devices == ended.devices);
        assert(r.handles == ended.handles);
        assert(r.unknown_connections == ended.unknown_connections);
    } else if s.handles.contains_key(handle) {
        let address = s.handles[handle];
        lemma_device_position_found(s.devices, address);
        match device_position(s.devices, address) {
            Some(i) => {
                let d = s.devices[i].connection_ended(handle, initiator, ts);
                lemma_connection_ended_sound(s.devices[i], handle, initiator, ts, ts);
                lemma_set_device(s, i, d, ts);
                let m = s.set_device(i, d);
                assert(r.devices == m.devices);
                assert(r.unknown_connections == m.unknown_connections);
                assert forall|h: ConnectionHandle| #[trigger]
                    r.handles.contains_key(h) implies device_known(r.devices, r.handles[h]) by {
                    assert(m.handles.contains_key(h));
                }
            },
            None => {
                assert forall|h: ConnectionHandle| #[trigger]
                    r.handles.contains_key(h) implies device_known(r.devices, r.handles[h]) by {
                    assert(s.handles.contains_key(h));
                }
            },
        }
    } else {
        lemma_on_unknown_session(
            s,
            handle,
            Transport::Unknown,
            AclEvent::End { initiator },
            ts,
            ts,
        );
    }
}

/// The teardown of every link keeps the state in order.
pub proof fn lemma_teardown_all(
    s: RuleView,
    links: Set<ConnectionHandle>,
    from: int,
    ts: Timestamp,
    now: Timestamp,
)
    requires
        s.sound(now),
        now.le(ts),
    ensures
        s.teardown_all(links, from, ts).sound(ts),
    decreases 0x1_0000 - from,
{
    lemma_still_sound(s, now, ts);
    if from < 0 || from >= 0x1_0000 {
    } else if links.contains(from as ConnectionHandle) {
        lemma_teardown(s, from as ConnectionHandle, InitiatorType::Host, ts, ts);
        lemma_teardown_all(
            s.teardown(from as ConnectionHandle, InitiatorType::Host, ts),
            links,
            from + 1,
            ts,
            ts,
        );
    } else {
        lemma_teardown_all(s, links, from + 1, ts, ts);
    }
}

/// A reset keeps the state in order, and leaves no link up.
pub proof fn lemma_reset(s: RuleView, ts: Timestamp, now: Timestamp)
    requires
        s.sound(now),
        now.le(ts),
    ensures
        s.reset(ts).sound(ts),
        s.reset(ts).sco_handles == Map::<ConnectionHandle, ConnectionHandle>::empty(),
        s.reset(ts).pending_disconnections == Map::<ConnectionHandle, bool>::empty(),
{
    lemma_teardown_all(s, s.handles.dom(), 0, ts, now);
    let t = s.teardown_all(s.handles.dom(), 0, ts);
    let r = s.reset(ts);
    assert(r.devices == t.devices);
    assert(r.handles == t.handles);
    assert(r.unknown_connections == t.unknown_connections);
}

/// Reading the records of a device keeps the state in order.
pub proof fn lemma_gap_records(s: RuleView, address: Address, recs: Seq<GapRecord>, now: Timestamp)
    requires
        s.sound(now),
    ensures
        s.gap_records(address, recs).sound(now),
    decreases recs.len(),
{
    if recs.len() > 0 {
        let one = s.gap_record(address, recs[0]);
        lemma_notes(
            s,
            address,
            crate::text::lossy_text(recs[0].data),
            AddressType::Unknown,
            Transport::Unknown,
            AclState::Idle,
            now,
        );
        lemma_gap_records(one, address, recs.drop_first(), now);
    }
}

/// Reading an advertising report keeps the state in order.
pub proof fn lemma_advertisements(
    s: RuleView,
    responses: Seq<LeAdvertisingResponse>,
    now: Timestamp,
)
    requires
        s.sound(now),
    ensures
        s.advertisements(responses).sound(now),
    decreases responses.len(),
{
    if responses.len() > 0 {
        let response = responses[0];
        lemma_gap_records(
            s,
            response.address,
            crate::gap::records(response.advertising_data@),
            now,
        );
        let read = s.gap_data(response.address, response.advertising_data@);
        lemma_notes(
            read,
            response.address,
            Seq::empty(),
            AddressType::LE,
            Transport::Unknown,
            AclState::Idle,
            now,
        );
        lemma_advertisements(s.advertisement(response), responses.drop_first(), now);
    }
}

/// The completion of the setting up of a link keeps the state in order.
pub proof fn lemma_connection_completed(
    s: RuleView,
    status: ErrorCode,
    address: Address,
    handle: ConnectionHandle,
    transport: Transport,
    ts: Timestamp,
    now: Timestamp,
)
    requires
        s.sound(now),
        now.le(ts),
    ensures
        s.connection_completed(status, address, handle, transport, ts).sound(ts),
{
    lemma_connection_started(s, address, handle, transport, ts, now);
    let started = s.connection_started(address, handle, transport, ts);
    lemma_teardown(started, handle, started.teardown_initiator(handle), ts, ts);
}

/// An event from the controller keeps the state in order.
pub proof fn lemma_on_event(s: RuleView, event: Event, ts: Timestamp, now: Timestamp)
    requires
        s.sound(now),
        now.le(ts),
    ensures
        s.on_event(event, ts).sound(ts),
{
    lemma_still_sound(s, now, ts);
    match event {
        Event::ConnectionComplete { status, connection_handle, bd_addr } => {
            lemma_connection_completed(
                s,
                status,
                bd_addr,
                connection_handle,
                Transport::BREDR,
                ts,
                ts,
            );
        },
        Event::SynchronousConnectionComplete { status, connection_handle, bd_addr } => {
            lemma_sco_connection_started(s, bd_addr, connection_handle, ts, ts);
            let started = s.sco_connection_started(bd_addr, connection_handle, ts);
            lemma_teardown(
                started,
                connection_handle,
                started.teardown_initiator(connection_handle),
                ts,
                ts,
            );
        },
        Event::DisconnectionComplete { connection_handle } => {
            lemma_teardown(s, connection_handle, s.teardown_initiator(connection_handle), ts, ts);
            let r = s.disconnection_completed(connection_handle, ts);
            let done = s.pending_disconnections.contains_key(connection_handle)
                && s.pending_disconnections[connection_handle];
            let torn = if done {
                s
            } else {
                s.connection_ended(connection_handle, ts)
            };
            assert(r.devices == torn.devices);
            assert(r.handles == torn.handles);
            assert(r.unknown_connections == torn.unknown_connections);
        },
        Event::ExtendedInquiryResult { address, extended_inquiry_response } => {
            lemma_gap_records(s, address, crate::gap::records(extended_inquiry_response@), ts);
            lemma_notes(
                s.gap_data(address, extended_inquiry_response@),
                address,
                Seq::empty(),
                AddressType::BREDR,
                Transport::Unknown,
                AclState::Idle,
                ts,
            );
        },
        Event::RemoteNameRequestComplete { status, bd_addr, remote_name } => {
            if status == ErrorCode::Success {
                let name = crate::text::without_trailing_nuls(
                    crate::text::lossy_text(remote_name@),
                );
                lemma_notes(
                    s,
                    bd_addr,
                    name,
                    AddressType::Unknown,
                    Transport::Unknown,
                    AclState::Idle,
                    ts,
                );
                lemma_notes(
                    s.name_reported(bd_addr, name),
                    bd_addr,
                    name,
                    AddressType::BREDR,
                    Transport::Unknown,
                    AclState::Idle,
                    ts,
                );
            }
        },
        Event::LeMetaEvent(le) => {
            match le {
                LeMetaEvent::LeConnectionComplete { status, connection_handle, peer_address } => {
                    lemma_le_connection_completed(s, status, peer_address, connection_handle, ts);
                },
                LeMetaEvent::LeEnhancedConnectionComplete {
                    status,
                    connection_handle,
                    peer_address,
                } => {
                    lemma_le_connection_completed(s, status, peer_address, connection_handle, ts);
                },
                LeMetaEvent::LeAdvertisingReport { responses } => {
                    lemma_advertisements(s, responses@, ts);
                },
                LeMetaEvent::LeExtendedAdvertisingReport { responses } => {
                    lemma_advertisements(s, responses@, ts);
                },
                LeMetaEvent::Other => {},
            }
        },
        Event::Other => {},
    }
}

/// The completion of the setting up of an LE link keeps the state in order.
pub proof fn lemma_le_connection_completed(
    s: RuleView,
    status: ErrorCode,
    address: Address,
    handle: ConnectionHandle,
    ts: Timestamp,
)
    requires
        s.sound(ts),
    ensures
        s.le_connection_completed(status, address, handle, ts).sound(ts),
{
    lemma_connection_completed(s, status, address, handle, Transport::LE, ts, ts);
    let completed = s.connection_completed(status, address, handle, Transport::LE, ts);
    lemma_notes(
        completed,
        address,
        Seq::empty(),
        AddressType::LE,
        Transport::Unknown,
        AclState::Idle,
        ts,
    );
}

/// A command of the host keeps the state in order.
pub proof fn lemma_on_command(s: RuleView, command: Command, ts: Timestamp, now: Timestamp)
    requires
        s.sound(now),
        now.le(ts),
    ensures
        s.on_command(command, ts).sound(ts),
{
    lemma_still_sound(s, now, ts);
    match command {
        Command::Reset => {
            lemma_reset(s, ts, ts);
        },
        Command::CreateConnection { bd_addr } => {
            lemma_notes(
                s,
                bd_addr,
                Seq::empty(),
                AddressType::Unknown,
                Transport::BREDR,
                AclState::Initiating,
                ts,
            );
            lemma_notes(
                s.acl_state_reported(bd_addr, Transport::BREDR, AclState::Initiating),
                bd_addr,
                Seq::empty(),
                AddressType::BREDR,
                Transport::Unknown,
                AclState::Idle,
                ts,
            );
        },
        Command::AcceptConnectionRequest { bd_addr } => {
            lemma_notes(
                s,
                bd_addr,
                Seq::empty(),
                AddressType::Unknown,
                Transport::BREDR,
                AclState::Accepting,
                ts,
            );
            lemma_notes(
                s.acl_state_reported(bd_addr, Transport::BREDR, AclState::Accepting),
                bd_addr,
                Seq::empty(),
                AddressType::BREDR,
                Transport::Unknown,
                AclState::Idle,
                ts,
            );
        },
        Command::Disconnect { connection_handle, reason } => {
            let is_power_off = reason == DisconnectReason::RemoteDeviceTerminatedConnectionPowerOff;
            let noted = RuleView {
                pending_disconnections: s.pending_disconnections.insert(
                    connection_handle,
                    is_power_off,
                ),
                ..s
            };
            assert(noted.sound(ts));
            lemma_teardown(
                noted,
                connection_handle,
                noted.teardown_initiator(connection_handle),
                ts,
                ts,
            );
        },
        Command::Other => {},
    }
}

/// A data packet keeps the state in order.
pub proof fn lemma_on_acl(s: RuleView, acl: Acl, sender: InitiatorType, ts: Timestamp, now: Timestamp)
    requires
        s.sound(now),
        now.le(ts),
    ensures
        s.on_acl(acl, sender, ts).sound(ts),
{
    lemma_still_sound(s, now, ts);
    assert forall|event: AclEvent|
        (#[trigger] s.on_session(acl.handle, Transport::BREDR, event, ts)).sound(ts) by {
        lemma_on_session(s, acl.handle, Transport::BREDR, event, ts, ts);
    }
}

/// Every packet keeps the state in order, as long as time does not
/// run backwards: the state stays well formed, nothing in it is later
/// than the packet, no session and no profile ends earlier than it
/// starts, and no profile runs on in a session of a known device that
/// has ended.
pub proof fn lemma_step_sound(s: RuleView, packet: Packet, now: Timestamp)
    requires
        s.sound(now),
        now.le(packet.ts),
    ensures
        s.step(packet).sound(packet.ts),
{
    match packet.inner {
        PacketChild::HciCommand(command) => lemma_on_command(s, command, packet.ts, now),
        PacketChild::HciEvent(event) => lemma_on_event(s, event, packet.ts, now),
        PacketChild::AclTx(acl) => lemma_on_acl(s, acl, InitiatorType::Host, packet.ts, now),
        PacketChild::AclRx(acl) => lemma_on_acl(s, acl, InitiatorType::Peer, packet.ts, now),
        PacketChild::Other => lemma_still_sound(s, now, packet.ts),
    }
}

/// A state that is in order has no session that ends earlier than it
/// starts, and no profile running on in a session of a known device
/// that has ended.
pub proof fn lemma_sound_is_ordered(s: RuleView, now: Timestamp)
    requires
        s.sound(now),
    ensures
        s.ends_follow_starts(),
        s.quiet(),
{
    assert forall|i: int, k: int|
        0 <= i < s.devices.len() && 0 <= k < s.devices[i].bredr_acls.len() implies (
    #[trigger] s.devices[i].bredr_acls[k]).ends_after_start() && s.devices[i].bredr_acls[k].quiet() by {
        assert(s.devices[i].sound(now));
        assert(s.devices[i].bredr_acls[k].kept(now));
    }
    assert forall|i: int, k: int|
        0 <= i < s.devices.len() && 0 <= k < s.devices[i].le_acls.len() implies (
    #[trigger] s.devices[i].le_acls[k]).ends_after_start() && s.devices[i].le_acls[k].quiet() by {
        assert(s.devices[i].sound(now));
        assert(s.devices[i].le_acls[k].kept(now));
    }
    assert forall|k: int| 0 <= k < s.unknown_connections.len() implies (
    #[trigger] s.unknown_connections[k]).ends_after_start() by {
        assert(s.unknown_connections[k].kept(now));
    }
}

/// After packets in the order of their timestamps, from a state that was
/// in order at a time not later than the first of them, the state is in
/// order.
pub proof fn lemma_run_sound(s: RuleView, packets: Seq<Packet>, now: Timestamp)
    requires
        s.sound(now),
        chronological(packets),
        packets.len() > 0 ==> now.le(packets[0].ts),
    ensures
        packets.len() > 0 ==> s.run(packets).sound(packets.last().ts),
        packets.len() == 0 ==> s.run(packets).sound(now),
    decreases packets.len(),
{
    if packets.len() > 0 {
        lemma_step_sound(s, packets[0], now);
        let rest = packets.drop_first();
        assert forall|i: int, j: int| 0 <= i < j < rest.len() implies (#[trigger] rest[i]).ts.le(
            (#[trigger] rest[j]).ts,
        ) by {
            assert(rest[i] == packets[i + 1]);
            assert(rest[j] == packets[j + 1]);
        }
        if rest.len() > 0 {
            assert(rest[0] == packets[1]);
            assert(rest.last() == packets.last());
        }
        lemma_run_sound(s.step(packets[0]), rest, packets[0].ts);
    }
}

/// From the first packet on, as long as the packets come in the order
/// of their timestamps, no session ends earlier than it starts, and no
/// profile runs on in a session of a known device that has ended.
pub proof fn lemma_run_ordered(packets: Seq<Packet>)
    requires
        chronological(packets),
    ensures
        RuleView::init().run(packets).wf(),
        RuleView::init().run(packets).ends_follow_starts(),
        RuleView::init().run(packets).quiet(),
{
    let start = if packets.len() > 0 {
        packets[0].ts
    } else {
        Timestamp::never()
    };
    lemma_init_sound(start);
    lemma_run_sound(RuleView::init(), packets, start);
    let end = if packets.len() > 0 {
        packets.last().ts
    } else {
        start
    };
    lemma_sound_is_ordered(RuleView::init().run(packets), end);
}

} // verus!
