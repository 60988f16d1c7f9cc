use hcidoc::address::{Address, AddressType};
use hcidoc::stack::{APIMessage, BluetoothAPI, SuspendMode};
use hcidoc::gap::GapParseError;
use hcidoc::text::{append_decimal, trim_trailing_nuls};
use hcidoc::time::{Timestamp, UNSET_MICROS};
use hcidoc::types::{AclState, InitiatorType, ProfileId, ProfileType, CidInformation, Transport};

#[test]
fn address_packs_octets_least_significant_first() {
    let a = Address::from_bytes(&[0x01, 0x02, 0x03, 0x04, 0x05, 0x06]);
    assert_eq!(a.0, 0x0605_0403_0201);
    assert_eq!(a.to_bytes(), [0x01, 0x02, 0x03, 0x04, 0x05, 0x06]);
    assert_eq!(Address(0).to_bytes(), [0; 6]);
    assert_eq!(Address::from_bytes(&[0xFF; 6]).0, 0xFFFF_FFFF_FFFF);
    assert_eq!(Address::from(&[0x01, 0x02, 0x03, 0x04, 0x05, 0x06]), a);
    assert_eq!(<[u8; 6]>::from(a), [0x01, 0x02, 0x03, 0x04, 0x05, 0x06]);
    // bits above the 48th are no part of the octets
    assert_eq!(<[u8; 6]>::from(Address(0xABCD_0000_0000_0001)), [1, 0, 0, 0, 0, 0]);
}

#[test]
fn address_text_is_most_significant_first() {
    let a = Address::from_bytes(&[0x01, 0x02, 0x03, 0x0A, 0xBC, 0xF6]);
    assert_eq!(a.to_string(), "F6:BC:0A:03:02:01");
    assert_eq!(Address(0).to_string(), "00:00:00:00:00:00");
    assert_eq!(Address::from_bytes(&[0xAA; 6]).to_string(), "AA:AA:AA:AA:AA:AA");
}

#[test]
fn address_type_merge_table() {
    let (unknown, bredr, le, dual) =
        (AddressType::Unknown, AddressType::BREDR, AddressType::LE, AddressType::Dual);
    let all = [unknown, bredr, le, dual];
    let expected = [
        [unknown, bredr, le, dual],
        [bredr, bredr, dual, dual],
        [le, dual, le, dual],
        [dual, dual, dual, dual],
    ];
    for (i, a) in all.iter().enumerate() {
        for (j, b) in all.iter().enumerate() {
            let mut t = *a;
            t.update(*b);
            assert_eq!(t, expected[i][j]);
            let mut u = *b;
            u.update(*a);
            assert_eq!(t, u);
        }
        let mut t = *a;
        t.update(*a);
        assert_eq!(t, *a);
    }
}

#[test]
fn address_type_text_and_rank() {
    assert_eq!(AddressType::Unknown.to_string(), "Unknown type");
    assert_eq!(AddressType::BREDR.to_string(), "BR/EDR");
    assert_eq!(AddressType::LE.to_string(), "LE");
    assert_eq!(AddressType::Dual.to_string(), "Dual");
    assert!(AddressType::Unknown.order_rank() < AddressType::BREDR.order_rank());
    assert!(AddressType::BREDR.order_rank() < AddressType::LE.order_rank());
    assert!(AddressType::LE.order_rank() < AddressType::Dual.order_rank());
}

#[test]
fn vocabulary_texts() {
    assert_eq!(Transport::Unknown.to_string(), "??");
    assert_eq!(Transport::BREDR.to_string(), "BR");
    assert_eq!(Transport::LE.to_string(), "LE");
    assert_eq!(InitiatorType::Unknown.to_string(), "by ??");
    assert_eq!(InitiatorType::Host.to_string(), "by host");
    assert_eq!(InitiatorType::Peer.to_string(), "by peer");
    assert_eq!(ProfileType::Att.to_string(), "ATT");
    assert_eq!(ProfileType::Avctp.to_string(), "AVCTP");
    assert_eq!(ProfileType::Avdtp.to_string(), "AVDTP");
    assert_eq!(ProfileType::Eatt.to_string(), "EATT");
    assert_eq!(ProfileType::Hfp.to_string(), "HFP");
    assert_eq!(ProfileType::HidCtrl.to_string(), "HID CTRL");
    assert_eq!(ProfileType::HidIntr.to_string(), "HID INTR");
    assert_eq!(ProfileType::Rfcomm.to_string(), "RFCOMM");
    assert_eq!(ProfileType::Sdp.to_string(), "SDP");
    assert_eq!(ProfileId::OnePerConnection(ProfileType::Hfp).to_string(), "");
    assert_eq!(
        ProfileId::L2capCid(CidInformation { host_cid: 64, peer_cid: 65535 }).to_string(),
        "(CID: host=64, peer=65535)"
    );
}

#[test]
fn profile_of_service_number() {
    assert_eq!(ProfileType::from_psm(1), Some(ProfileType::Sdp));
    assert_eq!(ProfileType::from_psm(3), Some(ProfileType::Rfcomm));
    assert_eq!(ProfileType::from_psm(17), Some(ProfileType::HidCtrl));
    assert_eq!(ProfileType::from_psm(19), Some(ProfileType::HidIntr));
    assert_eq!(ProfileType::from_psm(23), Some(ProfileType::Avctp));
    assert_eq!(ProfileType::from_psm(25), Some(ProfileType::Avdtp));
    assert_eq!(ProfileType::from_psm(31), Some(ProfileType::Att));
    assert_eq!(ProfileType::from_psm(39), Some(ProfileType::Eatt));
    assert_eq!(ProfileType::from_psm(0), None);
    assert_eq!(ProfileType::from_psm(2), None);
    assert_eq!(ProfileType::from_psm(4097), None);
}

#[test]
fn initiator_of_noted_state() {
    assert_eq!(AclState::Initiating.get_connection_initiator(), InitiatorType::Host);
    assert_eq!(AclState::Accepting.get_connection_initiator(), InitiatorType::Peer);
    assert_eq!(AclState::Idle.get_connection_initiator(), InitiatorType::Unknown);
    assert_eq!(AclState::Connected.get_connection_initiator(), InitiatorType::Unknown);
}

#[test]
fn decimal_numerals() {
    for (n, text) in [
        (0u128, "0"),
        (7, "7"),
        (10, "10"),
        (65535, "65535"),
        (18446744073709551615, "18446744073709551615"),
    ] {
        let mut s = String::from("n=");
        append_decimal(&mut s, n);
        assert_eq!(s, format!("n={}", text));
    }
    assert_eq!(
        GapParseError::SizeExceedsData { size: 255, remaining: 100 }.to_string(),
        "size 255 is bigger than remaining length 100"
    );
    assert_eq!(GapParseError::UnknownType(0).to_string(), "can't parse data type 0");
}

#[test]
fn trailing_nuls_are_trimmed() {
    assert_eq!(trim_trailing_nuls("abc\0\0\0"), "abc");
    assert_eq!(trim_trailing_nuls("a\0b\0"), "a\0b");
    assert_eq!(trim_trailing_nuls("\0\0"), "");
    assert_eq!(trim_trailing_nuls(""), "");
    assert_eq!(trim_trailing_nuls("caf\u{e9}\0"), "caf\u{e9}");
}

#[test]
fn time_of_day_without_fraction() {
    assert_eq!(Timestamp::from_micros(0).time_to_string(), "00:00:00");
    assert_eq!(Timestamp::from_micros(1_000_000).time_to_string(), "00:00:01");
    // 2021-01-01 12:34:56 UTC
    assert_eq!(Timestamp::from_micros(1_609_504_496_000_000).time_to_string(), "12:34:56");
    assert_eq!(Timestamp::from_micros(86_399_000_000).time_to_string(), "23:59:59");
    assert_eq!(Timestamp::from_micros(86_400_000_000).time_to_string(), "00:00:00");
}

#[test]
fn time_of_day_with_fraction() {
    assert_eq!(Timestamp::from_micros(1_500_000).time_to_string(), "00:00:01.500");
    assert_eq!(Timestamp::from_micros(1_000_001).time_to_string(), "00:00:01.000001");
    assert_eq!(Timestamp::from_micros(3_723_045_600).time_to_string(), "01:02:03.045600");
    assert_eq!(Timestamp::from_micros(3_723_045_000).time_to_string(), "01:02:03.045");
}

#[test]
fn unset_timestamp() {
    assert!(!Timestamp::unset().has_value());
    assert_eq!(Timestamp::unset().micros, UNSET_MICROS);
    assert!(Timestamp::from_micros(0).has_value());
    assert_eq!(Timestamp::from_micros(5), Timestamp { micros: 5 });
}

#[test]
fn suspend_mode_numbers() {
    assert_eq!(SuspendMode::Normal.to_u32(), 0);
    assert_eq!(SuspendMode::Suspending.to_u32(), 1);
    assert_eq!(SuspendMode::Suspended.to_u32(), 2);
    assert_eq!(SuspendMode::Resuming.to_u32(), 3);
    for n in 0..4u32 {
        assert_eq!(SuspendMode::from_u32(n).unwrap().to_u32(), n);
    }
    assert_eq!(SuspendMode::from_u32(4), None);
    assert_eq!(SuspendMode::from_u32(u32::MAX), None);
    assert_ne!(APIMessage::IsReady(BluetoothAPI::Admin), APIMessage::ShutDown);
}
