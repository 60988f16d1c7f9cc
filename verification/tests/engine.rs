use hcidoc::acl::{AclEvent, AclInformation};
use hcidoc::address::{Address, AddressType};
use hcidoc::device::DeviceInformation;
use hcidoc::group::get_informational_group;
use hcidoc::packet::{
    Acl, AclContent, Command, Control, DisconnectReason, ErrorCode, Event, LeAdvertisingResponse,
    LeMetaEvent, Packet, PacketChild,
};
use hcidoc::profile::ProfileInformation;
use hcidoc::rule::InformationalRule;
use hcidoc::time::Timestamp;
use hcidoc::types::{
    AclState, CidInformation, CidState, ConnectionResponseResult, InitiatorType, ProfileId,
    ProfileType, Transport,
};

fn at(secs: u64) -> Timestamp {
    Timestamp::from_micros(secs * 1_000_000)
}

fn addr(b: u8) -> Address {
    Address::from_bytes(&[b; 6])
}

fn command(secs: u64, c: Command) -> Packet {
    Packet { ts: at(secs), inner: PacketChild::HciCommand(c) }
}

fn event(secs: u64, e: Event) -> Packet {
    Packet { ts: at(secs), inner: PacketChild::HciEvent(e) }
}

fn tx(secs: u64, handle: u16, c: Control) -> Packet {
    Packet { ts: at(secs), inner: PacketChild::AclTx(Acl { handle, content: AclContent::Control(c) }) }
}

fn rx(secs: u64, handle: u16, c: Control) -> Packet {
    Packet { ts: at(secs), inner: PacketChild::AclRx(Acl { handle, content: AclContent::Control(c) }) }
}

fn connect(rule: &mut InformationalRule, secs: u64, handle: u16, a: Address) {
    rule.process(&command(secs, Command::CreateConnection { bd_addr: a }));
    rule.process(&event(
        secs,
        Event::ConnectionComplete { status: ErrorCode::Success, connection_handle: handle, bd_addr: a },
    ));
}

fn device<'a>(rule: &'a InformationalRule, a: Address) -> &'a DeviceInformation {
    rule.devices.iter().find(|d| d.address == a).unwrap()
}

#[test]
fn scenario_a_connection_started_by_host() {
    let mut rule = InformationalRule::new();
    let a = addr(0xAA);
    rule.process(&command(1, Command::CreateConnection { bd_addr: a }));
    rule.process(&event(
        1,
        Event::ConnectionComplete { status: ErrorCode::Success, connection_handle: 1, bd_addr: a },
    ));
    assert_eq!(rule.devices.len(), 1);
    let d = device(&rule, a);
    assert_eq!(d.address_type, AddressType::BREDR);
    assert_eq!(d.bredr_acls.len(), 1);
    assert_eq!(d.le_acls.len(), 0);
    let acl = &d.bredr_acls[0];
    assert_eq!(acl.handle, 1);
    assert_eq!(acl.transport, Transport::BREDR);
    assert_eq!(acl.start_initiator, InitiatorType::Host);
    assert_eq!(acl.start_time, at(1));
    assert!(acl.is_open());
    assert!(d.is_connection_active(Transport::BREDR));
    assert_eq!(d.bredr_state, AclState::Connected);
    assert_eq!(rule.handles.get(&1), Some(&a));
}

#[test]
fn scenario_b_disconnect_confirmed_later() {
    let mut rule = InformationalRule::new();
    let a = addr(0xAA);
    connect(&mut rule, 1, 1, a);
    rule.process(&command(
        2,
        Command::Disconnect { connection_handle: 1, reason: DisconnectReason::Other },
    ));
    assert!(device(&rule, a).bredr_acls[0].is_open());
    assert_eq!(rule.pending_disconnections.get(&1), Some(&false));
    rule.process(&event(3, Event::DisconnectionComplete { connection_handle: 1 }));
    let acl = &device(&rule, a).bredr_acls[0];
    assert_eq!(acl.end_initiator, InitiatorType::Host);
    assert_eq!(acl.end_time, at(3));
    assert_eq!(acl.start_time, at(1));
    assert!(rule.handles.is_empty());
    assert!(rule.pending_disconnections.is_empty());
    assert_eq!(device(&rule, a).bredr_state, AclState::Idle);
}

#[test]
fn scenario_c_power_off_ends_at_once() {
    let mut rule = InformationalRule::new();
    let a = addr(0xAA);
    connect(&mut rule, 1, 1, a);
    rule.process(&command(
        2,
        Command::Disconnect {
            connection_handle: 1,
            reason: DisconnectReason::RemoteDeviceTerminatedConnectionPowerOff,
        },
    ));
    let acl = &device(&rule, a).bredr_acls[0];
    assert_eq!(acl.end_initiator, InitiatorType::Host);
    assert_eq!(acl.end_time, at(2));
    assert!(rule.handles.is_empty());
    // a confirmation that does arrive is not acted on again
    rule.process(&event(3, Event::DisconnectionComplete { connection_handle: 1 }));
    assert_eq!(device(&rule, a).bredr_acls.len(), 1);
    assert_eq!(device(&rule, a).bredr_acls[0].end_time, at(2));
    assert!(rule.unknown_connections.is_empty());
    assert!(rule.pending_disconnections.is_empty());
}

#[test]
fn scenario_d_channel_opens_and_closes_a_profile() {
    let mut rule = InformationalRule::new();
    let a = addr(0xAA);
    connect(&mut rule, 1, 1, a);
    rule.process(&tx(2, 1, Control::ConnectionRequest { psm: 1, source_cid: 0x40 }));
    {
        let acl = &device(&rule, a).bredr_acls[0];
        assert_eq!(acl.host_cids.get(&0x40), Some(&CidState::Pending(1)));
        assert!(acl.active_profiles.is_empty());
    }
    rule.process(&rx(
        3,
        1,
        Control::ConnectionResponse {
            result: ConnectionResponseResult::Success,
            destination_cid: 0x50,
            source_cid: 0x40,
        },
    ));
    let id = ProfileId::L2capCid(CidInformation { host_cid: 0x40, peer_cid: 0x50 });
    {
        let acl = &device(&rule, a).bredr_acls[0];
        assert_eq!(acl.host_cids.get(&0x40), Some(&CidState::Connected(0x50, 1)));
        assert_eq!(acl.peer_cids.get(&0x50), Some(&CidState::Connected(0x40, 1)));
        assert_eq!(acl.active_profiles.len(), 1);
        let p = &acl.active_profiles[0];
        assert_eq!(p.profile_type, ProfileType::Sdp);
        assert_eq!(p.profile_type.to_string(), "SDP");
        assert_eq!(p.profile_id, id);
        assert_eq!(p.start_time, at(3));
        assert_eq!(p.start_initiator, InitiatorType::Host);
        assert!(!p.end_time.has_value());
    }
    rule.process(&rx(4, 1, Control::DisconnectionResponse { destination_cid: 0x50, source_cid: 0x40 }));
    let acl = &device(&rule, a).bredr_acls[0];
    assert!(acl.active_profiles.is_empty());
    assert_eq!(acl.inactive_profiles.len(), 1);
    let p = &acl.inactive_profiles[0];
    assert_eq!(p.profile_id, id);
    assert_eq!(p.start_time, at(3));
    assert_eq!(p.end_time, at(4));
    assert_eq!(p.end_initiator, InitiatorType::Host);
    assert!(acl.host_cids.is_empty());
    assert!(acl.peer_cids.is_empty());
}

#[test]
fn scenario_e_reset_ends_every_link() {
    let mut rule = InformationalRule::new();
    let a = addr(0xAA);
    let b = addr(0xBB);
    connect(&mut rule, 1, 1, a);
    connect(&mut rule, 2, 2, b);
    rule.process(&event(
        3,
        Event::SynchronousConnectionComplete {
            status: ErrorCode::Success,
            connection_handle: 9,
            bd_addr: a,
        },
    ));
    rule.process(&command(
        3,
        Command::Disconnect { connection_handle: 7, reason: DisconnectReason::Other },
    ));
    assert_eq!(rule.sco_handles.get(&9), Some(&1));
    rule.process(&command(4, Command::Reset));
    for x in [a, b] {
        let acl = &device(&rule, x).bredr_acls[0];
        assert_eq!(acl.end_time, at(4));
        assert_eq!(acl.end_initiator, InitiatorType::Host);
        assert!(acl.active_profiles.is_empty());
    }
    // the voice profile ended with its link
    let acl = &device(&rule, a).bredr_acls[0];
    assert_eq!(acl.inactive_profiles.len(), 1);
    assert_eq!(acl.inactive_profiles[0].profile_type, ProfileType::Hfp);
    assert_eq!(acl.inactive_profiles[0].end_time, at(4));
    assert_eq!(acl.inactive_profiles[0].end_initiator, InitiatorType::Host);
    assert!(rule.handles.is_empty());
    assert!(rule.sco_handles.is_empty());
    assert!(rule.pending_disconnections.is_empty());
}

#[test]
fn scenario_f_unknown_handle_goes_to_the_unknown_block() {
    let mut rule = InformationalRule::new();
    rule.process(&event(5, Event::DisconnectionComplete { connection_handle: 0x123 }));
    assert!(rule.devices.is_empty());
    assert_eq!(rule.unknown_connections.len(), 1);
    let acl = &rule.unknown_connections[0];
    assert_eq!(acl.handle, 0x123);
    assert_eq!(acl.transport, Transport::Unknown);
    assert_eq!(acl.end_time, at(5));
    assert_eq!(acl.end_initiator, InitiatorType::Peer);
    assert!(!acl.start_time.has_value());
    let text = rule.report();
    assert_eq!(
        text,
        "InformationalRule report:\n\
         Connections initiated before snoop start, 1 connections\n\
         \x20 Handle: 291 (??), N/A to 00:00:05 (by peer)\n"
    );
}

#[test]
fn unknown_session_is_not_moved_to_a_device_later() {
    let mut rule = InformationalRule::new();
    rule.process(&tx(1, 5, Control::ConnectionRequest { psm: 3, source_cid: 0x41 }));
    assert_eq!(rule.unknown_connections.len(), 1);
    assert_eq!(rule.unknown_connections[0].transport, Transport::BREDR);
    connect(&mut rule, 2, 5, addr(1));
    assert_eq!(rule.unknown_connections.len(), 1);
    assert_eq!(device(&rule, addr(1)).bredr_acls.len(), 1);
    assert!(device(&rule, addr(1)).bredr_acls[0].host_cids.is_empty());
}

#[test]
fn accepted_connection_is_started_by_peer() {
    let mut rule = InformationalRule::new();
    let a = addr(3);
    rule.process(&command(1, Command::AcceptConnectionRequest { bd_addr: a }));
    assert_eq!(device(&rule, a).bredr_state, AclState::Accepting);
    rule.process(&event(
        2,
        Event::ConnectionComplete { status: ErrorCode::Success, connection_handle: 4, bd_addr: a },
    ));
    assert_eq!(device(&rule, a).bredr_acls[0].start_initiator, InitiatorType::Peer);
    // the note is used up
    rule.process(&event(3, Event::DisconnectionComplete { connection_handle: 4 }));
    assert_eq!(device(&rule, a).bredr_acls[0].end_initiator, InitiatorType::Peer);
    rule.process(&event(
        4,
        Event::ConnectionComplete { status: ErrorCode::Success, connection_handle: 4, bd_addr: a },
    ));
    assert_eq!(device(&rule, a).bredr_acls[1].start_initiator, InitiatorType::Unknown);
}

#[test]
fn failed_connection_is_a_session_of_no_duration() {
    let mut rule = InformationalRule::new();
    let a = addr(3);
    rule.process(&command(1, Command::CreateConnection { bd_addr: a }));
    rule.process(&event(
        2,
        Event::ConnectionComplete { status: ErrorCode::Failure, connection_handle: 4, bd_addr: a },
    ));
    let acl = &device(&rule, a).bredr_acls[0];
    assert_eq!(acl.start_time, at(2));
    assert_eq!(acl.end_time, at(2));
    assert_eq!(acl.start_initiator, InitiatorType::Host);
    assert_eq!(acl.end_initiator, InitiatorType::Peer);
    assert!(rule.handles.is_empty());
    assert_eq!(acl.to_string(), "  Handle: 4 (BR), 00:00:02 (by host) - Failed\n");
}

#[test]
fn le_connection_has_a_session_on_le() {
    let mut rule = InformationalRule::new();
    let a = addr(7);
    rule.process(&event(
        1,
        Event::LeMetaEvent(LeMetaEvent::LeConnectionComplete {
            status: ErrorCode::Success,
            connection_handle: 0x40,
            peer_address: a,
        }),
    ));
    let d = device(&rule, a);
    assert_eq!(d.address_type, AddressType::LE);
    assert_eq!(d.le_acls.len(), 1);
    assert_eq!(d.bredr_acls.len(), 0);
    assert_eq!(d.le_acls[0].start_initiator, InitiatorType::Unknown);
    assert_eq!(d.le_acls[0].start_time, at(1));
    assert_eq!(d.le_acls[0].transport, Transport::LE);
    assert!(d.is_connection_active(Transport::LE));
    assert!(!d.is_connection_active(Transport::BREDR));
    assert!(!d.is_connection_active(Transport::Unknown));
    rule.process(&event(2, Event::DisconnectionComplete { connection_handle: 0x40 }));
    let d = device(&rule, a);
    assert_eq!(d.le_acls[0].end_time, at(2));
    assert_eq!(d.le_state, AclState::Idle);
    // the enhanced event is read alike, and makes the device dual once seen on BR/EDR
    rule.process(&command(3, Command::CreateConnection { bd_addr: a }));
    rule.process(&event(
        4,
        Event::LeMetaEvent(LeMetaEvent::LeEnhancedConnectionComplete {
            status: ErrorCode::Success,
            connection_handle: 0x41,
            peer_address: a,
        }),
    ));
    let d = device(&rule, a);
    assert_eq!(d.address_type, AddressType::Dual);
    assert_eq!(d.le_acls.len(), 2);
}

#[test]
fn failed_le_connection_is_a_session_of_no_duration() {
    let mut rule = InformationalRule::new();
    let a = addr(7);
    rule.process(&event(
        1,
        Event::LeMetaEvent(LeMetaEvent::LeConnectionComplete {
            status: ErrorCode::Failure,
            connection_handle: 0x40,
            peer_address: a,
        }),
    ));
    let d = device(&rule, a);
    assert_eq!(d.le_acls.len(), 1);
    assert_eq!(d.le_acls[0].start_time, at(1));
    assert_eq!(d.le_acls[0].end_time, at(1));
    assert_eq!(d.address_type, AddressType::Unknown);
    assert!(rule.handles.is_empty());
}

#[test]
fn names_come_from_inquiry_and_advertising_data() {
    let mut rule = InformationalRule::new();
    let a = addr(1);
    let b = addr(2);
    rule.process(&event(
        1,
        Event::ExtendedInquiryResult {
            address: a,
            extended_inquiry_response: vec![2, 1, 6, 4, 9, b'a', b'b', b'c', 0, 0, 0],
        },
    ));
    assert_eq!(device(&rule, a).names, vec!["abc".to_string()]);
    assert_eq!(device(&rule, a).address_type, AddressType::BREDR);
    rule.process(&event(
        2,
        Event::LeMetaEvent(LeMetaEvent::LeAdvertisingReport {
            responses: vec![
                LeAdvertisingResponse { address: b, advertising_data: vec![3, 8, b'h', b'i'] },
                LeAdvertisingResponse { address: a, advertising_data: vec![4, 9, b'a', b'b', b'c'] },
                LeAdvertisingResponse { address: a, advertising_data: vec![0, 0, 2, 8, b'x', 9, 9] },
            ],
        }),
    ));
    assert_eq!(device(&rule, b).names, vec!["hi".to_string()]);
    assert_eq!(device(&rule, b).address_type, AddressType::LE);
    // a name is kept once, and names in the order in which they were seen
    assert_eq!(device(&rule, a).names, vec!["abc".to_string(), "x".to_string()]);
    assert_eq!(device(&rule, a).address_type, AddressType::Dual);
    rule.process(&event(
        3,
        Event::LeMetaEvent(LeMetaEvent::LeExtendedAdvertisingReport {
            responses: vec![LeAdvertisingResponse { address: addr(3), advertising_data: vec![] }],
        }),
    ));
    assert!(device(&rule, addr(3)).names.is_empty());
    assert_eq!(device(&rule, addr(3)).address_type, AddressType::LE);
}

#[test]
fn invalid_name_octets_are_replaced() {
    let mut rule = InformationalRule::new();
    let a = addr(1);
    rule.process(&event(
        1,
        Event::ExtendedInquiryResult {
            address: a,
            extended_inquiry_response: vec![4, 9, b'a', 0xFF, b'b'],
        },
    ));
    assert_eq!(device(&rule, a).names, vec!["a\u{FFFD}b".to_string()]);
}

#[test]
fn remote_name_is_trimmed_of_padding() {
    let mut rule = InformationalRule::new();
    let a = addr(1);
    let mut name = b"Head set".to_vec();
    name.resize(248, 0);
    rule.process(&event(
        1,
        Event::RemoteNameRequestComplete { status: ErrorCode::Success, bd_addr: a, remote_name: name },
    ));
    assert_eq!(device(&rule, a).names, vec!["Head set".to_string()]);
    assert_eq!(device(&rule, a).address_type, AddressType::BREDR);
    rule.process(&event(
        2,
        Event::RemoteNameRequestComplete {
            status: ErrorCode::Failure,
            bd_addr: addr(2),
            remote_name: b"x".to_vec(),
        },
    ));
    assert_eq!(rule.devices.len(), 1);
}

#[test]
fn pending_answer_changes_nothing() {
    let mut rule = InformationalRule::new();
    let a = addr(1);
    connect(&mut rule, 1, 1, a);
    rule.process(&rx(2, 1, Control::ConnectionRequest { psm: 25, source_cid: 0x60 }));
    assert_eq!(device(&rule, a).bredr_acls[0].peer_cids.get(&0x60), Some(&CidState::Pending(25)));
    rule.process(&tx(
        3,
        1,
        Control::ConnectionResponse {
            result: ConnectionResponseResult::Pending,
            destination_cid: 0x70,
            source_cid: 0x60,
        },
    ));
    {
        let acl = &device(&rule, a).bredr_acls[0];
        assert_eq!(acl.peer_cids.get(&0x60), Some(&CidState::Pending(25)));
        assert!(acl.active_profiles.is_empty() && acl.inactive_profiles.is_empty());
    }
    rule.process(&tx(
        4,
        1,
        Control::ConnectionResponse {
            result: ConnectionResponseResult::Success,
            destination_cid: 0x70,
            source_cid: 0x60,
        },
    ));
    let acl = &device(&rule, a).bredr_acls[0];
    assert_eq!(acl.active_profiles.len(), 1);
    assert_eq!(acl.active_profiles[0].profile_type, ProfileType::Avdtp);
    assert_eq!(acl.active_profiles[0].start_initiator, InitiatorType::Peer);
    assert_eq!(
        acl.active_profiles[0].profile_id,
        ProfileId::L2capCid(CidInformation { host_cid: 0x70, peer_cid: 0x60 })
    );
    assert_eq!(acl.host_cids.get(&0x70), Some(&CidState::Connected(0x60, 25)));
    assert_eq!(acl.peer_cids.get(&0x60), Some(&CidState::Connected(0x70, 25)));
}

#[test]
fn refused_channel_is_a_profile_of_no_duration() {
    let mut rule = InformationalRule::new();
    let a = addr(1);
    connect(&mut rule, 1, 1, a);
    rule.process(&tx(2, 1, Control::ConnectionRequest { psm: 3, source_cid: 0x40 }));
    rule.process(&rx(
        3,
        1,
        Control::ConnectionResponse {
            result: ConnectionResponseResult::Refused,
            destination_cid: 0,
            source_cid: 0x40,
        },
    ));
    let acl = &device(&rule, a).bredr_acls[0];
    assert!(acl.active_profiles.is_empty());
    assert_eq!(acl.inactive_profiles.len(), 1);
    let p = &acl.inactive_profiles[0];
    assert_eq!(p.profile_type, ProfileType::Rfcomm);
    assert_eq!(p.start_time, at(3));
    assert_eq!(p.end_time, at(3));
    assert_eq!(acl.host_cids.get(&0x40), Some(&CidState::Pending(3)));
}

#[test]
fn answer_to_an_unseen_request_changes_nothing() {
    let mut rule = InformationalRule::new();
    let a = addr(1);
    connect(&mut rule, 1, 1, a);
    rule.process(&rx(
        3,
        1,
        Control::ConnectionResponse {
            result: ConnectionResponseResult::Success,
            destination_cid: 0x50,
            source_cid: 0x40,
        },
    ));
    let acl = &device(&rule, a).bredr_acls[0];
    assert!(acl.active_profiles.is_empty() && acl.inactive_profiles.is_empty());
    assert!(acl.host_cids.is_empty() && acl.peer_cids.is_empty());
}

#[test]
fn unknown_service_opens_no_profile() {
    let mut rule = InformationalRule::new();
    let a = addr(1);
    connect(&mut rule, 1, 1, a);
    rule.process(&tx(2, 1, Control::ConnectionRequest { psm: 0x1001, source_cid: 0x40 }));
    rule.process(&rx(
        3,
        1,
        Control::ConnectionResponse {
            result: ConnectionResponseResult::Success,
            destination_cid: 0x50,
            source_cid: 0x40,
        },
    ));
    rule.process(&tx(4, 1, Control::DisconnectionResponse { destination_cid: 0x40, source_cid: 0x50 }));
    let acl = &device(&rule, a).bredr_acls[0];
    assert!(acl.active_profiles.is_empty() && acl.inactive_profiles.is_empty());
    assert!(acl.host_cids.is_empty() && acl.peer_cids.is_empty());
}

#[test]
fn closing_an_unseen_channel_reports_no_profile() {
    let mut rule = InformationalRule::new();
    let a = addr(1);
    connect(&mut rule, 1, 1, a);
    rule.process(&rx(4, 1, Control::DisconnectionResponse { destination_cid: 0x50, source_cid: 0x40 }));
    let acl = &device(&rule, a).bredr_acls[0];
    assert!(acl.active_profiles.is_empty() && acl.inactive_profiles.is_empty());
}

#[test]
fn closing_falls_back_on_the_peer_table() {
    let mut acl = AclInformation::new(1, Transport::BREDR);
    acl.peer_cids.insert(0x50, CidState::Connected(0x40, 17));
    let cid_info = CidInformation { host_cid: 0x40, peer_cid: 0x50 };
    acl.report_l2cap_disconn_rsp(cid_info, InitiatorType::Peer, at(9));
    assert_eq!(acl.inactive_profiles.len(), 1);
    assert_eq!(acl.inactive_profiles[0].profile_type, ProfileType::HidCtrl);
    assert_eq!(acl.inactive_profiles[0].end_time, at(9));
    assert!(!acl.inactive_profiles[0].start_time.has_value());
    assert!(acl.peer_cids.is_empty());
    // the host's table is preferred where both know the channel
    let mut acl = AclInformation::new(1, Transport::BREDR);
    acl.host_cids.insert(0x40, CidState::Connected(0x50, 19));
    acl.peer_cids.insert(0x50, CidState::Connected(0x40, 17));
    acl.report_l2cap_disconn_rsp(cid_info, InitiatorType::Peer, at(9));
    assert_eq!(acl.inactive_profiles[0].profile_type, ProfileType::HidIntr);
}

#[test]
fn session_end_ends_every_running_profile() {
    let mut acl = AclInformation::new(1, Transport::BREDR);
    acl.report_start(InitiatorType::Host, at(1));
    let hfp = ProfileId::OnePerConnection(ProfileType::Hfp);
    let chan = ProfileId::L2capCid(CidInformation { host_cid: 1, peer_cid: 2 });
    let other = ProfileId::L2capCid(CidInformation { host_cid: 3, peer_cid: 4 });
    acl.report_profile_start(ProfileType::Hfp, hfp, InitiatorType::Host, at(2));
    acl.report_profile_start(ProfileType::Sdp, chan, InitiatorType::Peer, at(3));
    acl.report_profile_start(ProfileType::Sdp, other, InitiatorType::Peer, at(4));
    acl.report_profile_end(ProfileType::Sdp, chan, InitiatorType::Host, at(5));
    assert_eq!(acl.active_profiles.len(), 2);
    assert_eq!(acl.inactive_profiles.len(), 1);
    acl.report_event(AclEvent::End { initiator: InitiatorType::Peer }, at(6));
    assert!(acl.active_profiles.is_empty());
    assert_eq!(acl.end_time, at(6));
    assert_eq!(acl.end_initiator, InitiatorType::Peer);
    let ids: Vec<ProfileId> = acl.inactive_profiles.iter().map(|p| p.profile_id).collect();
    assert_eq!(ids, vec![chan, hfp, other]);
    assert_eq!(acl.inactive_profiles[0].end_time, at(5));
    assert_eq!(acl.inactive_profiles[0].end_initiator, InitiatorType::Host);
    for p in &acl.inactive_profiles[1..] {
        assert_eq!(p.end_time, at(6));
        assert_eq!(p.end_initiator, InitiatorType::Peer);
    }
    assert_eq!(acl.inactive_profiles[1].start_time, at(2));
}

#[test]
fn restarted_profile_displaces_the_running_one() {
    let mut acl = AclInformation::new(1, Transport::BREDR);
    let hfp = ProfileId::OnePerConnection(ProfileType::Hfp);
    acl.report_profile_start(ProfileType::Hfp, hfp, InitiatorType::Host, at(2));
    acl.report_profile_start(ProfileType::Hfp, hfp, InitiatorType::Peer, at(3));
    assert_eq!(acl.active_profiles.len(), 1);
    assert_eq!(acl.active_profiles[0].start_time, at(3));
    assert_eq!(acl.inactive_profiles.len(), 1);
    assert_eq!(acl.inactive_profiles[0].start_time, at(2));
    assert!(!acl.inactive_profiles[0].end_time.has_value());
    let p = ProfileInformation::new(ProfileType::Hfp, hfp);
    assert!(!p.start_time.has_value() && !p.end_time.has_value());
    assert_eq!(p.start_initiator, InitiatorType::Unknown);
}

#[test]
fn synchronous_link_runs_the_voice_profile() {
    let mut rule = InformationalRule::new();
    let a = addr(1);
    // without a link to the device nothing is noted
    rule.process(&event(
        1,
        Event::SynchronousConnectionComplete {
            status: ErrorCode::Success,
            connection_handle: 9,
            bd_addr: a,
        },
    ));
    assert!(rule.devices.is_empty() && rule.sco_handles.is_empty());
    connect(&mut rule, 2, 1, a);
    rule.process(&event(
        3,
        Event::SynchronousConnectionComplete {
            status: ErrorCode::Success,
            connection_handle: 9,
            bd_addr: a,
        },
    ));
    assert_eq!(rule.sco_handles.get(&9), Some(&1));
    {
        let acl = &device(&rule, a).bredr_acls[0];
        assert_eq!(acl.active_profiles.len(), 1);
        assert_eq!(acl.active_profiles[0].profile_type, ProfileType::Hfp);
        assert_eq!(acl.active_profiles[0].start_initiator, InitiatorType::Host);
        assert_eq!(acl.active_profiles[0].profile_id, ProfileId::OnePerConnection(ProfileType::Hfp));
    }
    rule.process(&event(4, Event::DisconnectionComplete { connection_handle: 9 }));
    let acl = &device(&rule, a).bredr_acls[0];
    assert!(acl.is_open());
    assert!(acl.active_profiles.is_empty());
    assert_eq!(acl.inactive_profiles[0].end_time, at(4));
    assert_eq!(acl.inactive_profiles[0].end_initiator, InitiatorType::Peer);
    assert!(rule.sco_handles.is_empty());
    assert_eq!(rule.handles.get(&1), Some(&a));
}

#[test]
fn link_teardown_forgets_its_synchronous_links() {
    let mut rule = InformationalRule::new();
    let a = addr(1);
    connect(&mut rule, 2, 1, a);
    connect(&mut rule, 2, 2, addr(2));
    for h in [9, 10] {
        rule.process(&event(
            3,
            Event::SynchronousConnectionComplete {
                status: ErrorCode::Success,
                connection_handle: h,
                bd_addr: a,
            },
        ));
    }
    rule.process(&event(
        3,
        Event::SynchronousConnectionComplete {
            status: ErrorCode::Success,
            connection_handle: 11,
            bd_addr: addr(2),
        },
    ));
    assert_eq!(rule.sco_handles.len(), 3);
    rule.process(&event(4, Event::DisconnectionComplete { connection_handle: 1 }));
    assert_eq!(rule.sco_handles.len(), 1);
    assert_eq!(rule.sco_handles.get(&11), Some(&2));
    let acl = &device(&rule, a).bredr_acls[0];
    assert!(acl.active_profiles.is_empty());
    assert_eq!(acl.end_time, at(4));
}

#[test]
fn at_most_one_session_is_open_per_transport() {
    let mut rule = InformationalRule::new();
    let a = addr(1);
    for round in 0..3u64 {
        connect(&mut rule, 10 * round + 1, 1, a);
        rule.process(&tx(10 * round + 2, 1, Control::ConnectionRequest { psm: 1, source_cid: 0x40 }));
        rule.process(&event(10 * round + 3, Event::DisconnectionComplete { connection_handle: 1 }));
        // a frame after the teardown opens a session of its own in the unknown block
        rule.process(&tx(10 * round + 4, 1, Control::ConnectionRequest { psm: 1, source_cid: 0x40 }));
    }
    let d = device(&rule, a);
    assert_eq!(d.bredr_acls.len(), 3);
    let open = d.bredr_acls.iter().filter(|acl| acl.is_open()).count();
    assert_eq!(open, 0);
    connect(&mut rule, 40, 1, a);
    let d = device(&rule, a);
    let open: Vec<usize> =
        d.bredr_acls.iter().enumerate().filter(|(_, acl)| acl.is_open()).map(|(i, _)| i).collect();
    assert_eq!(open, vec![3]);
    for acl in &d.bredr_acls {
        if acl.end_time.has_value() {
            assert!(acl.start_time.micros <= acl.end_time.micros);
            assert!(acl.active_profiles.is_empty());
        }
    }
    assert_eq!(rule.unknown_connections.len(), 1);
}

#[test]
fn second_link_over_an_active_one_leaves_both_open() {
    let mut rule = InformationalRule::new();
    let a = addr(1);
    connect(&mut rule, 1, 1, a);
    rule.process(&event(
        2,
        Event::ConnectionComplete { status: ErrorCode::Success, connection_handle: 2, bd_addr: a },
    ));
    let d = device(&rule, a);
    assert_eq!(d.bredr_acls.len(), 2);
    assert!(d.bredr_acls[0].is_open());
    assert!(d.bredr_acls[1].is_open());
    assert_eq!(d.bredr_acls[1].start_initiator, InitiatorType::Unknown);
    // the teardown of the first handle finds no active session of that handle
    rule.process(&event(3, Event::DisconnectionComplete { connection_handle: 1 }));
    let d = device(&rule, a);
    assert!(d.bredr_acls[0].is_open() && d.bredr_acls[1].is_open());
    assert!(rule.handles.get(&1).is_none());
}

#[test]
fn frames_on_a_known_handle_reach_the_active_session() {
    let mut rule = InformationalRule::new();
    let a = addr(1);
    connect(&mut rule, 1, 1, a);
    rule.report_l2cap_conn_req(1, 31, 4, InitiatorType::Host, at(2));
    rule.report_l2cap_conn_rsp(1, ConnectionResponseResult::Success, 4, 5, InitiatorType::Host, at(3));
    assert_eq!(device(&rule, a).bredr_acls[0].active_profiles[0].profile_type, ProfileType::Att);
    rule.report_l2cap_disconn_rsp(1, 4, 5, InitiatorType::Peer, at(4));
    assert_eq!(device(&rule, a).bredr_acls[0].inactive_profiles[0].end_initiator, InitiatorType::Peer);
    assert!(rule.unknown_connections.is_empty());
    assert_eq!(rule.report_signals().len(), 0);
}

#[test]
fn device_session_helpers() {
    let mut d = DeviceInformation::new(addr(1));
    assert!(!d.is_connection_active(Transport::BREDR));
    d.get_or_allocate_connection(3, Transport::BREDR);
    assert_eq!(d.bredr_acls.len(), 1);
    assert!(!d.bredr_acls[0].start_time.has_value());
    d.get_or_allocate_connection(4, Transport::BREDR);
    assert_eq!(d.bredr_acls.len(), 1);
    d.get_or_allocate_connection(4, Transport::Unknown);
    assert_eq!(d.bredr_acls.len() + d.le_acls.len(), 1);
    assert!(!d.report_connection_end(4, InitiatorType::Host, at(1)));
    assert!(d.report_connection_end(3, InitiatorType::Host, at(1)));
    assert!(!d.is_connection_active(Transport::BREDR));
    d.report_connection_start(5, Transport::Unknown, at(2));
    assert_eq!(d.bredr_acls.len() + d.le_acls.len(), 1);
    d.report_acl_state(Transport::LE, AclState::Accepting);
    d.report_connection_start(5, Transport::LE, at(2));
    assert_eq!(d.le_acls[0].start_initiator, InitiatorType::Peer);
    assert_eq!(d.le_state, AclState::Connected);
    d.report_name("a".to_string());
    d.report_name("a".to_string());
    assert_eq!(d.names.len(), 1);
}

#[test]
fn group_holds_the_analysis() {
    let mut group = get_informational_group();
    assert_eq!(group.rules.len(), 1);
    assert_eq!(group.report(), "");
    group.process(&command(1, Command::CreateConnection { bd_addr: addr(0xAA) }));
    assert_eq!(group.rules[0].devices.len(), 1);
    assert_eq!(
        group.report(),
        "InformationalRule report:\nAA:AA:AA:AA:AA:AA (BR/EDR, <Unknown name>), 0 connections\n"
    );
    group.process(&Packet { ts: at(2), inner: PacketChild::Other });
    group.process(&command(2, Command::Other));
    group.process(&event(2, Event::Other));
    group.process(&event(2, Event::LeMetaEvent(LeMetaEvent::Other)));
    group.process(&tx(2, 1, Control::Other));
    group.process(&Packet {
        ts: at(2),
        inner: PacketChild::AclRx(Acl { handle: 1, content: AclContent::Other }),
    });
    assert_eq!(group.rules[0].devices.len(), 1);
    assert!(group.rules[0].unknown_connections.is_empty());
}
