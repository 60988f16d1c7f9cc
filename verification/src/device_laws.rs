//! What holds of every device, whatever is seen of it.

use vstd::prelude::*;
use crate::acl::{AclEvent, AclView};
use crate::acl_laws::{lemma_after_kept, lemma_ended_kept, lemma_fresh_kept, lemma_still_kept};
use crate::address::{Address, AddressType};
use crate::device::DeviceView;
use crate::time::Timestamp;
use crate::types::{AclState, ConnectionHandle, InitiatorType, Transport};

verus! {

/// Whether every session of `acls` is in order, and none that has ended
/// has a profile running on.
pub open spec fn sessions_kept(acls: Seq<AclView>, now: Timestamp) -> bool {
    forall|i: int| 0 <= i < acls.len() ==> (#[trigger] acls[i]).kept(now) && acls[i].quiet()
}

/// Whether every session of `acls` but the last has ended: at most one
/// is active, and that is the last.
pub open spec fn single_open(acls: Seq<AclView>) -> bool {
    forall|i: int| 0 <= i < acls.len() - 1 ==> !(#[trigger] acls[i]).is_open()
}

impl DeviceView {
    /// Whether the device is in order: no name occurs twice, and every
    /// session is in order.
    pub open spec fn sound(self, now: Timestamp) -> bool {
        &&& self.names.no_duplicates()
        &&& sessions_kept(self.bredr_acls, now)
        &&& sessions_kept(self.le_acls, now)
    }

    /// Whether at most one session is active on each transport.
    pub open spec fn single_open(self) -> bool {
        single_open(self.bredr_acls) && single_open(self.le_acls)
    }
}

/// Sessions that are in order stay so as time goes by.
pub proof fn lemma_sessions_still_kept(acls: Seq<AclView>, now: Timestamp, later: Timestamp)
    requires
        sessions_kept(acls, now),
        now.le(later),
    ensures
        sessions_kept(acls, later),
{
    assert forall|i: int| 0 <= i < acls.len() implies (#[trigger] acls[i]).kept(later)
        && acls[i].quiet() by {
        lemma_still_kept(acls[i], now, later);
    }
}

/// A device that is in order stays so as time goes by.
pub proof fn lemma_device_still_sound(d: DeviceView, now: Timestamp, later: Timestamp)
    requires
        d.sound(now),
        now.le(later),
    ensures
        d.sound(later),
{
    lemma_sessions_still_kept(d.bredr_acls, now, later);
    lemma_sessions_still_kept(d.le_acls, now, later);
}

/// A device of which only the address is known is in order.
pub proof fn lemma_fresh_device_sound(address: Address, now: Timestamp)
    ensures
        DeviceView::fresh(address).sound(now),
        DeviceView::fresh(address).address == address,
{
}

/// A device stays in order when a name, a transport or the setting up
/// of a link is noted of it. A name is noted once.
pub proof fn lemma_notes_sound(
    d: DeviceView,
    name: Seq<char>,
    address_type: AddressType,
    transport: Transport,
    state: AclState,
    now: Timestamp,
)
    requires
        d.sound(now),
    ensures
        d.named(name).sound(now),
        d.named(name).names.contains(name),
        d.named(name).address == d.address,
        d.typed(address_type).sound(now),
        d.typed(address_type).address == d.address,
        d.with_acl_state(transport, state).sound(now),
        d.with_acl_state(transport, state).address == d.address,
{
    if !d.names.contains(name) {
        let r = d.named(name);
        assert(r.names[d.names.len() as int] == name);
        assert forall|i: int, j: int| 0 <= i < r.names.len() && 0 <= j < r.names.len() && i
            != j implies r.names[i] != r.names[j] by {
            if i < d.names.len() && j < d.names.len() {
            } else if i < d.names.len() {
                assert(d.names.contains(d.names[i]));
            } else {
                assert(d.names.contains(d.names[j]));
            }
        }
    }
}

/// A device stays in order when a session is made sure of, and then
/// has an active session on the transport, unless that is unknown.
pub proof fn lemma_allocated_sound(
    d: DeviceView,
    handle: ConnectionHandle,
    transport: Transport,
    now: Timestamp,
)
    requires
        d.sound(now),
    ensures
        d.allocated(handle, transport).sound(now),
        d.allocated(handle, transport).address == d.address,
        transport != Transport::Unknown ==> d.allocated(handle, transport).is_connection_active(
            transport,
        ),
{
    lemma_fresh_kept(handle, transport, now);
    let r = d.allocated(handle, transport);
    if transport != Transport::Unknown && !d.is_connection_active(transport) {
        let before = d.acls(transport);
        let after = r.acls(transport);
        assert(after == before.push(AclView::fresh(handle, transport)));
        assert forall|i: int| 0 <= i < after.len() implies (#[trigger] after[i]).kept(now)
            && after[i].quiet() by {
            if i < before.len() {
                assert(before[i].kept(now));
            }
        }
    }
}

/// A device stays in order whatever happens in its active session, as
/// long as time does not run backwards.
pub proof fn lemma_on_session_sound(
    d: DeviceView,
    handle: ConnectionHandle,
    transport: Transport,
    event: AclEvent,
    ts: Timestamp,
    now: Timestamp,
)
    requires
        d.sound(now),
        now.le(ts),
    ensures
        d.on_session(handle, transport, event, ts).sound(ts),
        d.on_session(handle, transport, event, ts).address == d.address,
{
    lemma_allocated_sound(d, handle, transport, now);
    let ready = d.allocated(handle, transport);
    lemma_device_still_sound(ready, now, ts);
    let acls = ready.acls(transport);
    let r = d.on_session(handle, transport, event, ts);
    if acls.len() > 0 {
        assert(transport != Transport::Unknown);
        assert(acls.last().kept(now));
        lemma_after_kept(acls.last(), event, ts, now);
        let after = r.acls(transport);
        assert(after == acls.update(acls.len() - 1, acls.last().after(event, ts)));
        assert forall|i: int| 0 <= i < after.len() implies (#[trigger] after[i]).kept(ts)
            && after[i].quiet() by {
            if i < acls.len() - 1 {
                assert(acls[i].kept(ts));
            }
        }
    }
}

/// A device stays in order when a link to it is set up.
pub proof fn lemma_connection_started_sound(
    d: DeviceView,
    handle: ConnectionHandle,
    transport: Transport,
    ts: Timestamp,
    now: Timestamp,
)
    requires
        d.sound(now),
        now.le(ts),
    ensures
        d.connection_started(handle, transport, ts).sound(ts),
        d.connection_started(handle, transport, ts).address == d.address,
{
    lemma_device_still_sound(d, now, ts);
    lemma_fresh_kept(handle, transport, ts);
    let r = d.connection_started(handle, transport, ts);
    if transport != Transport::Unknown {
        let before = d.acls(transport);
        let after = r.acls(transport);
        let acl = AclView::fresh(handle, transport).started(d.acl_state(transport).initiator(), ts);
        assert(acl.kept(ts) && acl.quiet());
        assert(after == before.push(acl));
        assert forall|i: int| 0 <= i < after.len() implies (#[trigger] after[i]).kept(ts)
            && after[i].quiet() by {
            if i < before.len() {
                assert(before[i].kept(ts));
            }
        }
    }
}

/// A device stays in order when a link to it is torn down.
pub proof fn lemma_connection_ended_sound(
    d: DeviceView,
    handle: ConnectionHandle,
    initiator: InitiatorType,
    ts: Timestamp,
    now: Timestamp,
)
    requires
        d.sound(now),
        now.le(ts),
    ensures
        d.connection_ended(handle, initiator, ts).sound(ts),
        d.connection_ended(handle, initiator, ts).address == d.address,
{
    lemma_device_still_sound(d, now, ts);
    let r = d.connection_ended(handle, initiator, ts);
    match d.transport_of(handle) {
        Some(transport) => {
            let before = d.acls(transport);
            let after = r.acls(transport);
            assert(before.last().kept(now));
            lemma_ended_kept(before.last(), initiator, ts, now);
            assert(after == before.update(before.len() - 1, before.last().ended(initiator, ts)));
            assert forall|i: int| 0 <= i < after.len() implies (#[trigger] after[i]).kept(ts)
                && after[i].quiet() by {
                if i < before.len() - 1 {
                    assert(before[i].kept(ts));
                }
            }
        },
        None => {},
    }
}

/// A device of which only the address is known has no session.
pub proof fn lemma_fresh_device_single_open(address: Address)
    ensures
        DeviceView::fresh(address).single_open(),
        !DeviceView::fresh(address).is_connection_active(Transport::BREDR),
        !DeviceView::fresh(address).is_connection_active(Transport::LE),
        !DeviceView::fresh(address).is_connection_active(Transport::Unknown),
{
}

/// A device has at most one active session on each transport whatever is
/// noted of it, whatever happens in its active session, and when a link
/// to it is torn down.
pub proof fn lemma_device_single_open(
    d: DeviceView,
    name: Seq<char>,
    address_type: AddressType,
    state: AclState,
    handle: ConnectionHandle,
    transport: Transport,
    event: AclEvent,
    initiator: InitiatorType,
    ts: Timestamp,
)
    requires
        d.single_open(),
    ensures
        d.named(name).single_open(),
        d.typed(address_type).single_open(),
        d.with_acl_state(transport, state).single_open(),
        d.allocated(handle, transport).single_open(),
        d.on_session(handle, transport, event, ts).single_open(),
        d.connection_ended(handle, initiator, ts).single_open(),
{
    let ready = d.allocated(handle, transport);
    if transport != Transport::Unknown && !d.is_connection_active(transport) {
        let before = d.acls(transport);
        let after = ready.acls(transport);
        assert(after == before.push(AclView::fresh(handle, transport)));
        assert forall|i: int| 0 <= i < after.len() - 1 implies !(#[trigger] after[i]).is_open() by {
            assert(after[i] == before[i]);
            if i < before.len() - 1 {
                assert(!before[i].is_open());
            }
        }
    }
    assert(ready.single_open());
    let acls = ready.acls(transport);
    if acls.len() > 0 {
        let after = d.on_session(handle, transport, event, ts).acls(transport);
        assert(after == acls.update(acls.len() - 1, acls.last().after(event, ts)));
        assert forall|i: int| 0 <= i < after.len() - 1 implies !(#[trigger] after[i]).is_open() by {
            assert(after[i] == acls[i]);
        }
    }
    match d.transport_of(handle) {
        Some(t) => {
            let before = d.acls(t);
            let after = d.connection_ended(handle, initiator, ts).acls(t);
            assert(after == before.update(before.len() - 1, before.last().ended(initiator, ts)));
            assert forall|i: int| 0 <= i < after.len() - 1 implies !(#[trigger] after[i]).is_open() by {
                assert(after[i] == before[i]);
            }
        },
        None => {},
    }
}

/// A device has at most one active session on each transport after a
/// link to it was set up, provided that it had none on the transport of
/// the link before.
pub proof fn lemma_device_started_single_open(
    d: DeviceView,
    handle: ConnectionHandle,
    transport: Transport,
    ts: Timestamp,
)
    requires
        d.single_open(),
        !d.is_connection_active(transport),
    ensures
        d.connection_started(handle, transport, ts).single_open(),
{
    if transport != Transport::Unknown {
        let before = d.acls(transport);
        let after = d.connection_started(handle, transport, ts).acls(transport);
        let acl = AclView::fresh(handle, transport).started(d.acl_state(transport).initiator(), ts);
        assert(after == before.push(acl));
        assert forall|i: int| 0 <= i < after.len() - 1 implies !(#[trigger] after[i]).is_open() by {
            assert(after[i] == before[i]);
            if i < before.len() - 1 {
                assert(!before[i].is_open());
            }
        }
    }
}

} // verus!
