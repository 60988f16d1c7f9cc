use hcidoc::address::{Address, AddressType};
use hcidoc::device::DeviceInformation;
use hcidoc::order::{address_precedes, sort_addresses, str_precedes};
use hcidoc::packet::{
    Acl, AclContent, Command, Control, ErrorCode, Event, LeAdvertisingResponse, LeMetaEvent,
    Packet, PacketChild,
};
use hcidoc::report::{print_set, print_timestamps_and_initiator};
use hcidoc::rule::InformationalRule;
use hcidoc::time::Timestamp;
use hcidoc::types::{ConnectionResponseResult, InitiatorType, Transport};

fn secs(n: u64) -> Timestamp {
    Timestamp::from_micros(n * 1_000_000)
}

fn named(address: u8, names: &[&str]) -> DeviceInformation {
    let mut d = DeviceInformation::new(Address::from_bytes(&[address; 6]));
    for n in names {
        d.report_name(n.to_string());
    }
    d
}

#[test]
fn span_of_times() {
    let never = Timestamp::unset();
    assert_eq!(
        print_timestamps_and_initiator(never, InitiatorType::Unknown, never, InitiatorType::Unknown),
        "N/A to N/A"
    );
    assert_eq!(
        print_timestamps_and_initiator(secs(61), InitiatorType::Host, never, InitiatorType::Unknown),
        "00:01:01 (by host) to N/A"
    );
    assert_eq!(
        print_timestamps_and_initiator(never, InitiatorType::Unknown, secs(2), InitiatorType::Peer),
        "N/A to 00:00:02 (by peer)"
    );
    assert_eq!(
        print_timestamps_and_initiator(secs(1), InitiatorType::Unknown, secs(2), InitiatorType::Host),
        "00:00:01 (by ??) to 00:00:02 (by host)"
    );
    assert_eq!(
        print_timestamps_and_initiator(secs(3), InitiatorType::Peer, secs(3), InitiatorType::Host),
        "00:00:03 (by peer) - Failed"
    );
}

#[test]
fn names_of_a_device() {
    assert_eq!(DeviceInformation::print_names(&vec![]), "<Unknown name>");
    assert_eq!(DeviceInformation::print_names(&vec!["a b".to_string()]), "a b");
    assert_eq!(
        DeviceInformation::print_names(&vec!["a".to_string(), "b\"c".to_string()]),
        "{\"a\", \"b\\\"c\"}"
    );
    assert_eq!(
        DeviceInformation::print_names(&vec!["x".to_string(), "y".to_string(), "z\n".to_string()]),
        "{\"x\", \"y\", \"z\\n\"}"
    );
}

#[test]
fn items_written_as_a_set() {
    assert_eq!(print_set(&vec![]), "{}");
    assert_eq!(print_set(&vec!["a".to_string()]), "{a}");
    assert_eq!(print_set(&vec!["a".to_string(), "b c".to_string(), "".to_string()]), "{a, b c, }");
}

#[test]
fn dictionary_order_of_texts() {
    assert!(str_precedes("", "a"));
    assert!(!str_precedes("a", ""));
    assert!(!str_precedes("", ""));
    assert!(str_precedes("a", "b"));
    assert!(!str_precedes("b", "a"));
    assert!(str_precedes("ab", "abc"));
    assert!(!str_precedes("abc", "ab"));
    assert!(!str_precedes("abc", "abc"));
    assert!(str_precedes("Z", "a"));
    assert!(str_precedes("a", "\u{e9}"));
    assert!(str_precedes("\u{e9}", "\u{4e2d}"));
    for (a, b) in [("x", "y"), ("abc", "abd"), ("", "q"), ("\u{7f}", "\u{80}"), ("same", "same")] {
        assert_eq!(str_precedes(a, b), a < b);
        assert_eq!(str_precedes(b, a), b < a);
    }
}

#[test]
fn order_of_addresses() {
    let low = Address::from_bytes(&[0xFF, 0xFF, 0xFF, 0xFF, 0xFF, 0x00]);
    let high = Address::from_bytes(&[0x00, 0x00, 0x00, 0x00, 0x00, 0x01]);
    assert!(address_precedes(&low, &high));
    assert!(!address_precedes(&high, &low));
    assert!(!address_precedes(&low, &low));
    assert!(address_precedes(&Address(1), &Address(2)));
}

#[test]
fn devices_are_shown_in_order() {
    let mut connected_unnamed = named(9, &[]);
    connected_unnamed.report_connection_start(1, Transport::BREDR, secs(1));
    let mut connected_named = named(8, &["zz"]);
    connected_named.report_connection_start(2, Transport::LE, secs(1));
    let mut dual = named(1, &["a"]);
    dual.report_address_type(AddressType::Dual);
    let mut le = named(2, &["b"]);
    le.report_address_type(AddressType::LE);
    let mut bredr_b = named(3, &["b"]);
    bredr_b.report_address_type(AddressType::BREDR);
    let mut bredr_a = named(4, &["a"]);
    bredr_a.report_address_type(AddressType::BREDR);
    let mut bredr_a_low = named(0, &["a"]);
    bredr_a_low.report_address_type(AddressType::BREDR);
    let untyped = named(5, &["q"]);
    let nameless = named(6, &[]);
    let devices = vec![
        nameless,           // 0
        dual,               // 1
        connected_unnamed,  // 2
        le,                 // 3
        bredr_b,            // 4
        untyped,            // 5
        bredr_a,            // 6
        connected_named,    // 7
        bredr_a_low,        // 8
    ];
    assert_eq!(sort_addresses(&devices), vec![7, 2, 5, 8, 6, 4, 3, 1, 0]);
    assert_eq!(sort_addresses(&vec![]), Vec::<usize>::new());
}

#[test]
fn report_of_nothing_is_empty() {
    assert_eq!(InformationalRule::new().report(), "");
}

#[test]
fn report_of_a_whole_log() {
    let a = Address::from_bytes(&[0xAA; 6]);
    let b = Address::from_bytes(&[0x01, 0x02, 0x03, 0x04, 0x05, 0x06]);
    let mut rule = InformationalRule::new();
    let packets = vec![
        Packet {
            ts: secs(1),
            inner: PacketChild::HciEvent(Event::LeMetaEvent(LeMetaEvent::LeAdvertisingReport {
                responses: vec![LeAdvertisingResponse {
                    address: b,
                    advertising_data: vec![5, 9, b'b', b'u', b'd', b's'],
                }],
            })),
        },
        Packet { ts: secs(2), inner: PacketChild::HciCommand(Command::CreateConnection { bd_addr: a }) },
        Packet {
            ts: Timestamp::from_micros(3_500_000),
            inner: PacketChild::HciEvent(Event::ConnectionComplete {
                status: ErrorCode::Success,
                connection_handle: 1,
                bd_addr: a,
            }),
        },
        Packet {
            ts: secs(4),
            inner: PacketChild::AclTx(Acl {
                handle: 1,
                content: AclContent::Control(Control::ConnectionRequest { psm: 1, source_cid: 64 }),
            }),
        },
        Packet {
            ts: secs(5),
            inner: PacketChild::AclRx(Acl {
                handle: 1,
                content: AclContent::Control(Control::ConnectionResponse {
                    result: ConnectionResponseResult::Success,
                    destination_cid: 65,
                    source_cid: 64,
                }),
            }),
        },
        Packet {
            ts: secs(6),
            inner: PacketChild::HciEvent(Event::SynchronousConnectionComplete {
                status: ErrorCode::Success,
                connection_handle: 2,
                bd_addr: a,
            }),
        },
        Packet {
            ts: secs(7),
            inner: PacketChild::AclRx(Acl {
                handle: 1,
                content: AclContent::Control(Control::DisconnectionResponse {
                    destination_cid: 65,
                    source_cid: 64,
                }),
            }),
        },
        Packet {
            ts: secs(8),
            inner: PacketChild::HciEvent(Event::DisconnectionComplete { connection_handle: 77 }),
        },
    ];
    for p in &packets {
        rule.process(p);
    }
    let expected = "InformationalRule report:\n\
        Connections initiated before snoop start, 1 connections\n\
        \x20 Handle: 77 (??), N/A to 00:00:08 (by peer)\n\
        AA:AA:AA:AA:AA:AA (BR/EDR, <Unknown name>), 1 connections\n\
        \x20 Handle: 1 (BR), 00:00:03.500 (by host) to N/A\n\
        \x20   SDP, 00:00:05 (by host) to 00:00:07 (by host) (CID: host=64, peer=65)\n\
        \x20   HFP, 00:00:06 (by host) to N/A \n\
        06:05:04:03:02:01 (LE, buds), 0 connections\n";
    assert_eq!(rule.report(), expected);
    // the report changes nothing and can be asked for again
    assert_eq!(rule.report(), expected);
}
