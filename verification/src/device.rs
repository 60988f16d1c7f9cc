//! What is known of one device address: its names, the transports it was
//! seen on, and the link sessions it had on each.

use vstd::prelude::*;
use crate::acl::{acl_views, AclEvent, AclInformation, AclView};
use crate::address::{Address, AddressType};
use crate::time::Timestamp;
use crate::types::{AclState, ConnectionHandle, InitiatorType, Transport};

verus! {

/// What is known of one device address.
///
/// The names are kept in the order in which they were first seen, each
/// once. The sessions of a transport are kept in the order in which they
/// were opened; only the last of them can be active.
pub struct DeviceInformation {
    pub names: Vec<String>,
    pub address: Address,
    pub address_type: AddressType,
    pub bredr_acls: Vec<AclInformation>,
    pub le_acls: Vec<AclInformation>,
    pub bredr_state: AclState,
    pub le_state: AclState,
}

/// The mathematical value of what is known of a device.
pub struct DeviceView {
    pub names: Seq<Seq<char>>,
    pub address: Address,
    pub address_type: AddressType,
    pub bredr_acls: Seq<AclView>,
    pub le_acls: Seq<AclView>,
    pub bredr_state: AclState,
    pub le_state: AclState,
}

/// The values of a list of names.
pub open spec fn name_views(v: Seq<String>) -> Seq<Seq<char>> {
    v.map_values(|s: String| s@)
}

impl View for DeviceInformation {
    type V = DeviceView;

    open spec fn view(&self) -> DeviceView {
        DeviceView {
            names: name_views(self.names@),
            address: self.address,
            address_type: self.address_type,
            bredr_acls: acl_views(self.bredr_acls@),
            le_acls: acl_views(self.le_acls@),
            bredr_state: self.bredr_state,
            le_state: self.le_state,
        }
    }
}

impl DeviceView {
    /// A device of which nothing but its address is known.
    pub open spec fn fresh(address: Address) -> DeviceView {
        DeviceView {
            names: Seq::empty(),
            address,
            address_type: AddressType::Unknown,
            bredr_acls: Seq::empty(),
            le_acls: Seq::empty(),
            bredr_state: AclState::Idle,
            le_state: AclState::Idle,
        }
    }

    /// The sessions on `transport`; none on the unknown transport.
    pub open spec fn acls(self, transport: Transport) -> Seq<AclView> {
        match transport {
            Transport::BREDR => self.bredr_acls,
            Transport::LE => self.le_acls,
            Transport::Unknown => Seq::empty(),
        }
    }

    pub open spec fn with_acls(self, transport: Transport, acls: Seq<AclView>) -> DeviceView {
        match transport {
            Transport::BREDR => DeviceView { bredr_acls: acls, ..self },
            Transport::LE => DeviceView { le_acls: acls, ..self },
            Transport::Unknown => self,
        }
    }

    /// What is noted of the link that is being set up on `transport`.
    pub open spec fn acl_state(self, transport: Transport) -> AclState {
        match transport {
            Transport::BREDR => self.bredr_state,
            Transport::LE => self.le_state,
            Transport::Unknown => AclState::Idle,
        }
    }

    pub open spec fn with_acl_state(self, transport: Transport, state: AclState) -> DeviceView {
        match transport {
            Transport::BREDR => DeviceView { bredr_state: state, ..self },
            Transport::LE => DeviceView { le_state: state, ..self },
            Transport::Unknown => self,
        }
    }

    /// Whether a session is active on `transport`: there is one, and the
    /// last has not ended.
    pub open spec fn is_connection_active(self, transport: Transport) -> bool {
        self.acls(transport).len() > 0 && self.acls(transport).last().is_open()
    }

    /// The device with an active session on `transport`: the one it has,
    /// or else a new one for `handle`, of which the start was not seen.
    pub open spec fn allocated(self, handle: ConnectionHandle, transport: Transport) -> DeviceView {
        if transport == Transport::Unknown || self.is_connection_active(transport) {
            self
        } else {
            self.with_acls(transport, self.acls(transport).push(AclView::fresh(handle, transport)))
        }
    }

    /// The device after `event` happened at `ts` in its active session
    /// on `transport`, a session being made for `handle` where none is active.
    pub open spec fn on_session(
        self,
        handle: ConnectionHandle,
        transport: Transport,
        event: AclEvent,
        ts: Timestamp,
    ) -> DeviceView {
        let ready = self.allocated(handle, transport);
        let acls = ready.acls(transport);
        if acls.len() > 0 {
            ready.with_acls(transport, acls.update(acls.len() - 1, acls.last().after(event, ts)))
        } else {
            ready
        }
    }

    /// The device after a link on `transport` was set up. Who began it is
    /// what was noted when the setting up began; the note is used up.
    pub open spec fn connection_started(
        self,
        handle: ConnectionHandle,
        transport: Transport,
        ts: Timestamp,
    ) -> DeviceView {
        if transport == Transport::Unknown {
            self
        } else {
            let acl = AclView::fresh(handle, transport).started(
                self.acl_state(transport).initiator(),
                ts,
            );
            self.with_acls(transport, self.acls(transport).push(acl)).with_acl_state(
                transport,
                AclState::Connected,
            )
        }
    }

    /// Whether the active session on `transport` is that of `handle`.
    pub open spec fn holds_handle(self, handle: ConnectionHandle, transport: Transport) -> bool {
        self.is_connection_active(transport) && self.acls(transport).last().handle == handle
    }

    /// The transport on which `handle` has its active session: BR/EDR
    /// before LE, where both have one.
    pub open spec fn transport_of(self, handle: ConnectionHandle) -> Option<Transport> {
        if self.holds_handle(handle, Transport::BREDR) {
            Some(Transport::BREDR)
        } else if self.holds_handle(handle, Transport::LE) {
            Some(Transport::LE)
        } else {
            None
        }
    }

    /// The device after the link of `handle` was torn down: its active
    /// session has ended. A handle with no active session changes nothing.
    pub open spec fn connection_ended(
        self,
        handle: ConnectionHandle,
        initiator: InitiatorType,
        ts: Timestamp,
    ) -> DeviceView {
        match self.transport_of(handle) {
            Some(transport) => {
                let acls = self.acls(transport);
                self.with_acls(
                    transport,
                    acls.update(acls.len() - 1, acls.last().ended(initiator, ts)),
                ).with_acl_state(transport, AclState::Idle)
            },
            None => self,
        }
    }

    /// The device after `name` was seen for it.
    pub open spec fn named(self, name: Seq<char>) -> DeviceView {
        if self.names.contains(name) {
            self
        } else {
            DeviceView { names: self.names.push(name), ..self }
        }
    }

    /// The device after it was seen on `address_type`.
    pub open spec fn typed(self, address_type: AddressType) -> DeviceView {
        DeviceView { address_type: self.address_type.merge(address_type), ..self }
    }
}

/// Ends the last session of `acls`.
fn end_last(acls: &mut Vec<AclInformation>, initiator: InitiatorType, ts: Timestamp)
    requires
        old(acls).len() > 0,
    ensures
        acl_views(final(acls)@) == acl_views(old(acls)@).update(
            old(acls).len() - 1,
            acl_views(old(acls)@).last().ended(initiator, ts),
        ),
{
    let n: usize = acls.len();
    acls[n - 1].report_end(initiator, ts);
    assert(acl_views(acls@) =~= acl_views(old(acls)@).update(
        n - 1,
        acl_views(old(acls)@).last().ended(initiator, ts),
    ));
}

/// Whether `acls` has a last session, and that has not ended.
fn last_is_open(acls: &Vec<AclInformation>) -> (r: bool)
    ensures
        r == (acl_views(acls@).len() > 0 && acl_views(acls@).last().is_open()),
{
    let n: usize = acls.len();
    n > 0 && acls[n - 1].is_open()
}

/// Whether `acls` has a last session that has not ended and is that of `handle`.
fn last_holds(acls: &Vec<AclInformation>, handle: ConnectionHandle) -> (r: bool)
    ensures
        r == (acl_views(acls@).len() > 0 && acl_views(acls@).last().is_open() && acl_views(
            acls@,
        ).last().handle == handle),
{
    let n: usize = acls.len();
    n > 0 && acls[n - 1].is_open() && acls[n - 1].handle == handle
}

/// Notes `event` in the last session of `acls`.
fn report_on_last(acls: &mut Vec<AclInformation>, event: AclEvent, ts: Timestamp)
    requires
        old(acls).len() > 0,
    ensures
        acl_views(final(acls)@) == acl_views(old(acls)@).update(
            old(acls).len() - 1,
            acl_views(old(acls)@).last().after(event, ts),
        ),
{
    let n: usize = acls.len();
    acls[n - 1].report_event(event, ts);
    assert(acl_views(acls@) =~= acl_views(old(acls)@).update(
        n - 1,
        acl_views(old(acls)@).last().after(event, ts),
    ));
}

/// Appends `acl` to `acls`.
fn push_acl(acls: &mut Vec<AclInformation>, acl: AclInformation)
    ensures
        acl_views(final(acls)@) == acl_views(old(acls)@).push(acl@),
{
    acls.push(acl);
    assert(acl_views(acls@) =~= acl_views(old(acls)@).push(acl@));
}

impl DeviceInformation {
    pub fn new(address: Address) -> (d: DeviceInformation)
        ensures
            d@ == DeviceView::fresh(address),
    {
        let d = DeviceInformation {
            names: Vec::new(),
            address,
            address_type: AddressType::Unknown,
            bredr_acls: Vec::new(),
            le_acls: Vec::new(),
            bredr_state: AclState::Idle,
            le_state: AclState::Idle,
        };
        assert(d@.names =~= Seq::<Seq<char>>::empty());
        assert(d@.bredr_acls =~= Seq::<AclView>::empty());
        assert(d@.le_acls =~= Seq::<AclView>::empty());
        d
    }

    /// Whether a session is active on `transport`.
    pub fn is_connection_active(&self, transport: Transport) -> (r: bool)
        ensures
            r == self@.is_connection_active(transport),
    {
        match transport {
            Transport::Unknown => false,
            Transport::BREDR => last_is_open(&self.bredr_acls),
            Transport::LE => last_is_open(&self.le_acls),
        }
    }

    /// Makes sure that a session is active on `transport`, opening one
    /// for `handle` where none is.
    pub fn get_or_allocate_connection(&mut self, handle: ConnectionHandle, transport: Transport)
        ensures
            final(self)@ == old(self)@.allocated(handle, transport),
    {
        if !self.is_connection_active(transport) {
            match transport {
                Transport::Unknown => {},
                Transport::BREDR => push_acl(
                    &mut self.bredr_acls,
                    AclInformation::new(handle, transport),
                ),
                Transport::LE => push_acl(&mut self.le_acls, AclInformation::new(handle, transport)),
            }
        }
    }

    /// Notes `event` in the active session on `transport`, opening one
    /// for `handle` where none is active.
    pub fn report_on_connection(
        &mut self,
        handle: ConnectionHandle,
        transport: Transport,
        event: AclEvent,
        ts: Timestamp,
    )
        ensures
            final(self)@ == old(self)@.on_session(handle, transport, event, ts),
    {
        self.get_or_allocate_connection(handle, transport);
        match transport {
            Transport::Unknown => {},
            Transport::BREDR => {
                if self.bredr_acls.len() > 0 {
                    report_on_last(&mut self.bredr_acls, event, ts);
                }
            },
            Transport::LE => {
                if self.le_acls.len() > 0 {
                    report_on_last(&mut self.le_acls, event, ts);
                }
            },
        }
    }

    pub fn report_connection_start(
        &mut self,
        handle: ConnectionHandle,
        transport: Transport,
        ts: Timestamp,
    )
        ensures
            final(self)@ == old(self)@.connection_started(handle, transport, ts),
    {
        match transport {
            Transport::Unknown => {},
            Transport::BREDR => {
                let mut acl = AclInformation::new(handle, transport);
                acl.report_start(self.bredr_state.get_connection_initiator(), ts);
                push_acl(&mut self.bredr_acls, acl);
                self.bredr_state = AclState::Connected;
            },
            Transport::LE => {
                let mut acl = AclInformation::new(handle, transport);
                acl.report_start(self.le_state.get_connection_initiator(), ts);
                push_acl(&mut self.le_acls, acl);
                self.le_state = AclState::Connected;
            },
        }
    }

    /// Ends the active session of `handle`, on BR/EDR before LE. Returns
    /// whether there was one.
    pub fn report_connection_end(
        &mut self,
        handle: ConnectionHandle,
        initiator: InitiatorType,
        ts: Timestamp,
    ) -> (found: bool)
        ensures
            final(self)@ == old(self)@.connection_ended(handle, initiator, ts),
            found == old(self)@.transport_of(handle).is_some(),
    {
        if last_holds(&self.bredr_acls, handle) {
            end_last(&mut self.bredr_acls, initiator, ts);
            self.bredr_state = AclState::Idle;
            true
        } else if last_holds(&self.le_acls, handle) {
            end_last(&mut self.le_acls, initiator, ts);
            self.le_state = AclState::Idle;
            true
        } else {
            false
        }
    }

    /// Notes what is being set up on `transport`.
    pub fn report_acl_state(&mut self, transport: Transport, state: AclState)
        ensures
            final(self)@ == old(self)@.with_acl_state(transport, state),
    {
        match transport {
            Transport::Unknown => {},
            Transport::BREDR => {
                self.bredr_state = state;
            },
            Transport::LE => {
                self.le_state = state;
            },
        }
    }

    /// Notes that the device was seen on `address_type`.
    pub fn report_address_type(&mut self, address_type: AddressType)
        ensures
            final(self)@ == old(self)@.typed(address_type),
    {
        self.address_type.update(address_type);
    }

    /// Notes a name of the device.
    pub fn report_name(&mut self, name: String)
        ensures
            final(self)@ == old(self)@.named(name@),
    {
        let mut i: usize = 0;
        while i < self.names.len()
            invariant
                i <= self.names.len(),
                *self == *old(self),
                forall|j: int| 0 <= j < i ==> (#[trigger] name_views(self.names@)[j]) != name@,
            decreases self.names.len() - i,
        {
            if self.names[i] == name {
                assert(name_views(self.names@)[i as int] == name@);
                return ;
            }
            i += 1;
        }
        self.names.push(name);
        assert(name_views(self.names@) =~= name_views(old(self).names@).push(name@));
    }
}

} // verus!
