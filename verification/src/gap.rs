//! Advertising and inquiry data: length-prefixed records of a type and a payload.

use vstd::prelude::*;
use vstd::slice::{slice_subrange, slice_to_vec};
use crate::text::{append_decimal, decimal_text};

verus! {

/// The kinds of record that advertising and inquiry data can hold.
#[derive(Clone, Copy, PartialEq, Eq, Structural, Debug)]
pub enum GapDataType {
    Invalid,
    Flags,
    IncompleteList16BitUuids,
    CompleteList16BitUuids,
    IncompleteList32BitUuids,
    CompleteList32BitUuids,
    IncompleteList128BitUuids,
    CompleteList128BitUuids,
    ShortenedLocalName,
    CompleteLocalName,
    TxPowerLevel,
    ClassOfDevice,
    SimplePairingHashC,
    SimplePairingRandomizerR,
    DeviceId,
    SecurityManagerOobFlags,
    SlaveConnectionIntervalRange,
    List16BitServiceSolicitationUuids,
    List128BitServiceSolicitationUuids,
    ServiceData16BitUuids,
    PublicTargetAddress,
    RandomTargetAddress,
    Appearance,
    AdvertisingInterval,
    LeBluetoothDeviceAddress,
    LeRole,
    SimplePairingHashC256,
    SimplePairingRandomizerR256,
    List32BitServiceSolicitationUuids,
    ServiceData32BitUuids,
    ServiceData128BitUuids,
    LeSecureConnectionsConfirmationValue,
    LeSecureConnectionsRandomValue,
    Uri,
    IndoorPositioning,
    TransportDiscoveryData,
    LeSupportedFeatures,
    ChannelMapUpdateIndication,
    MeshPbAdv,
    MeshMessage,
    MeshBeacon,
    BigInfo,
    BroadcastCode,
    ThreeDInformationData,
    ManufacturerSpecificData,
}

impl GapDataType {
    /// The octet that stands for this kind on the air.
    pub open spec fn code(self) -> u8 {
        match self {
            GapDataType::Invalid => 0x00,
            GapDataType::Flags => 0x01,
            GapDataType::IncompleteList16BitUuids => 0x02,
            GapDataType::CompleteList16BitUuids => 0x03,
            GapDataType::IncompleteList32BitUuids => 0x04,
            GapDataType::CompleteList32BitUuids => 0x05,
            GapDataType::IncompleteList128BitUuids => 0x06,
            GapDataType::CompleteList128BitUuids => 0x07,
            GapDataType::ShortenedLocalName => 0x08,
            GapDataType::CompleteLocalName => 0x09,
            GapDataType::TxPowerLevel => 0x0A,
            GapDataType::ClassOfDevice => 0x0D,
            GapDataType::SimplePairingHashC => 0x0E,
            GapDataType::SimplePairingRandomizerR => 0x0F,
            GapDataType::DeviceId => 0x10,
            GapDataType::SecurityManagerOobFlags => 0x11,
            GapDataType::SlaveConnectionIntervalRange => 0x12,
            GapDataType::List16BitServiceSolicitationUuids => 0x14,
            GapDataType::List128BitServiceSolicitationUuids => 0x15,
            GapDataType::ServiceData16BitUuids => 0x16,
            GapDataType::PublicTargetAddress => 0x17,
            GapDataType::RandomTargetAddress => 0x18,
            GapDataType::Appearance => 0x19,
            GapDataType::AdvertisingInterval => 0x1A,
            GapDataType::LeBluetoothDeviceAddress => 0x1B,
            GapDataType::LeRole => 0x1C,
            GapDataType::SimplePairingHashC256 => 0x1D,
            GapDataType::SimplePairingRandomizerR256 => 0x1E,
            GapDataType::List32BitServiceSolicitationUuids => 0x1F,
            GapDataType::ServiceData32BitUuids => 0x20,
            GapDataType::ServiceData128BitUuids => 0x21,
            GapDataType::LeSecureConnectionsConfirmationValue => 0x22,
            GapDataType::LeSecureConnectionsRandomValue => 0x23,
            GapDataType::Uri => 0x24,
            GapDataType::IndoorPositioning => 0x25,
            GapDataType::TransportDiscoveryData => 0x26,
            GapDataType::LeSupportedFeatures => 0x27,
            GapDataType::ChannelMapUpdateIndication => 0x28,
            GapDataType::MeshPbAdv => 0x29,
            GapDataType::MeshMessage => 0x2A,
            GapDataType::MeshBeacon => 0x2B,
            GapDataType::BigInfo => 0x2C,
            GapDataType::BroadcastCode => 0x2D,
            GapDataType::ThreeDInformationData => 0x3D,
            GapDataType::ManufacturerSpecificData => 0xFF,
        }
    }

    /// The kind that an octet stands for, where it stands for one.
    pub open spec fn of_code(code: u8) -> Option<GapDataType> {
        if code == 0x00 {
            Some(GapDataType::Invalid)
        } else if code == 0x01 {
            Some(GapDataType::Flags)
        } else if code == 0x02 {
            Some(GapDataType::IncompleteList16BitUuids)
        } else if code == 0x03 {
            Some(GapDataType::CompleteList16BitUuids)
        } else if code == 0x04 {
            Some(GapDataType::IncompleteList32BitUuids)
        } else if code == 0x05 {
            Some(GapDataType::CompleteList32BitUuids)
        } else if code == 0x06 {
            Some(GapDataType::IncompleteList128BitUuids)
        } else if code == 0x07 {
            Some(GapDataType::CompleteList128BitUuids)
        } else if code == 0x08 {
            Some(GapDataType::ShortenedLocalName)
        } else if code == 0x09 {
            Some(GapDataType::CompleteLocalName)
        } else if code == 0x0A {
            Some(GapDataType::TxPowerLevel)
        } else if code == 0x0D {
            Some(GapDataType::ClassOfDevice)
        } else if code == 0x0E {
            Some(GapDataType::SimplePairingHashC)
        } else if code == 0x0F {
            Some(GapDataType::SimplePairingRandomizerR)
        } else if code == 0x10 {
            Some(GapDataType::DeviceId)
        } else if code == 0x11 {
            Some(GapDataType::SecurityManagerOobFlags)
        } else if code == 0x12 {
            Some(GapDataType::SlaveConnectionIntervalRange)
        } else if code == 0x14 {
            Some(GapDataType::List16BitServiceSolicitationUuids)
        } else if code == 0x15 {
            Some(GapDataType::List128BitServiceSolicitationUuids)
        } else if code == 0x16 {
            Some(GapDataType::ServiceData16BitUuids)
        } else if code == 0x17 {
            Some(GapDataType::PublicTargetAddress)
        } else if code == 0x18 {
            Some(GapDataType::RandomTargetAddress)
        } else if code == 0x19 {
            Some(GapDataType::Appearance)
        } else if code == 0x1A {
            Some(GapDataType::AdvertisingInterval)
        } else if code == 0x1B {
            Some(GapDataType::LeBluetoothDeviceAddress)
        } else if code == 0x1C {
            Some(GapDataType::LeRole)
        } else if code == 0x1D {
            Some(GapDataType::SimplePairingHashC256)
        } else if code == 0x1E {
            Some(GapDataType::SimplePairingRandomizerR256)
        } else if code == 0x1F {
            Some(GapDataType::List32BitServiceSolicitationUuids)
        } else if code == 0x20 {
            Some(GapDataType::ServiceData32BitUuids)
        } else if code == 0x21 {
            Some(GapDataType::ServiceData128BitUuids)
        } else if code == 0x22 {
            Some(GapDataType::LeSecureConnectionsConfirmationValue)
        } else if code == 0x23 {
            Some(GapDataType::LeSecureConnectionsRandomValue)
        } else if code == 0x24 {
            Some(GapDataType::Uri)
        } else if code == 0x25 {
            Some(GapDataType::IndoorPositioning)
        } else if code == 0x26 {
            Some(GapDataType::TransportDiscoveryData)
        } else if code == 0x27 {
            Some(GapDataType::LeSupportedFeatures)
        } else if code == 0x28 {
            Some(GapDataType::ChannelMapUpdateIndication)
        } else if code == 0x29 {
            Some(GapDataType::MeshPbAdv)
        } else if code == 0x2A {
            Some(GapDataType::MeshMessage)
        } else if code == 0x2B {
            Some(GapDataType::MeshBeacon)
        } else if code == 0x2C {
            Some(GapDataType::BigInfo)
        } else if code == 0x2D {
            Some(GapDataType::BroadcastCode)
        } else if code == 0x3D {
            Some(GapDataType::ThreeDInformationData)
        } else if code == 0xFF {
            Some(GapDataType::ManufacturerSpecificData)
        } else {
            None
        }
    }

    pub fn to_code(&self) -> (code: u8)
        ensures
            code == self.code(),
    {
        match self {
            GapDataType::Invalid => 0x00,
            GapDataType::Flags => 0x01,
            GapDataType::IncompleteList16BitUuids => 0x02,
            GapDataType::CompleteList16BitUuids => 0x03,
            GapDataType::IncompleteList32BitUuids => 0x04,
            GapDataType::CompleteList32BitUuids => 0x05,
            GapDataType::IncompleteList128BitUuids => 0x06,
            GapDataType::CompleteList128BitUuids => 0x07,
            GapDataType::ShortenedLocalName => 0x08,
            GapDataType::CompleteLocalName => 0x09,
            GapDataType::TxPowerLevel => 0x0A,
            GapDataType::ClassOfDevice => 0x0D,
            GapDataType::SimplePairingHashC => 0x0E,
            GapDataType::SimplePairingRandomizerR => 0x0F,
            GapDataType::DeviceId => 0x10,
            GapDataType::SecurityManagerOobFlags => 0x11,
            GapDataType::SlaveConnectionIntervalRange => 0x12,
            GapDataType::List16BitServiceSolicitationUuids => 0x14,
            GapDataType::List128BitServiceSolicitationUuids => 0x15,
            GapDataType::ServiceData16BitUuids => 0x16,
            GapDataType::PublicTargetAddress => 0x17,
            GapDataType::RandomTargetAddress => 0x18,
            GapDataType::Appearance => 0x19,
            GapDataType::AdvertisingInterval => 0x1A,
            GapDataType::LeBluetoothDeviceAddress => 0x1B,
            GapDataType::LeRole => 0x1C,
            GapDataType::SimplePairingHashC256 => 0x1D,
            GapDataType::SimplePairingRandomizerR256 => 0x1E,
            GapDataType::List32BitServiceSolicitationUuids => 0x1F,
            GapDataType::ServiceData32BitUuids => 0x20,
            GapDataType::ServiceData128BitUuids => 0x21,
            GapDataType::LeSecureConnectionsConfirmationValue => 0x22,
            GapDataType::LeSecureConnectionsRandomValue => 0x23,
            GapDataType::Uri => 0x24,
            GapDataType::IndoorPositioning => 0x25,
            GapDataType::TransportDiscoveryData => 0x26,
            GapDataType::LeSupportedFeatures => 0x27,
            GapDataType::ChannelMapUpdateIndication => 0x28,
            GapDataType::MeshPbAdv => 0x29,
            GapDataType::MeshMessage => 0x2A,
            GapDataType::MeshBeacon => 0x2B,
            GapDataType::BigInfo => 0x2C,
            GapDataType::BroadcastCode => 0x2D,
            GapDataType::ThreeDInformationData => 0x3D,
            GapDataType::ManufacturerSpecificData => 0xFF,
        }
    }

    pub fn from_code(code: u8) -> (r: Option<GapDataType>)
        ensures
            r == Self::of_code(code),
    {
        match code {
            0x00 => Some(GapDataType::Invalid),
            0x01 => Some(GapDataType::Flags),
            0x02 => Some(GapDataType::IncompleteList16BitUuids),
            0x03 => Some(GapDataType::CompleteList16BitUuids),
            0x04 => Some(GapDataType::IncompleteList32BitUuids),
            0x05 => Some(GapDataType::CompleteList32BitUuids),
            0x06 => Some(GapDataType::IncompleteList128BitUuids),
            0x07 => Some(GapDataType::CompleteList128BitUuids),
            0x08 => Some(GapDataType::ShortenedLocalName),
            0x09 => Some(GapDataType::CompleteLocalName),
            0x0A => Some(GapDataType::TxPowerLevel),
            0x0D => Some(GapDataType::ClassOfDevice),
            0x0E => Some(GapDataType::SimplePairingHashC),
            0x0F => Some(GapDataType::SimplePairingRandomizerR),
            0x10 => Some(GapDataType::DeviceId),
            0x11 => Some(GapDataType::SecurityManagerOobFlags),
            0x12 => Some(GapDataType::SlaveConnectionIntervalRange),
            0x14 => Some(GapDataType::List16BitServiceSolicitationUuids),
            0x15 => Some(GapDataType::List128BitServiceSolicitationUuids),
            0x16 => Some(GapDataType::ServiceData16BitUuids),
            0x17 => Some(GapDataType::PublicTargetAddress),
            0x18 => Some(GapDataType::RandomTargetAddress),
            0x19 => Some(GapDataType::Appearance),
            0x1A => Some(GapDataType::AdvertisingInterval),
            0x1B => Some(GapDataType::LeBluetoothDeviceAddress),
            0x1C => Some(GapDataType::LeRole),
            0x1D => Some(GapDataType::SimplePairingHashC256),
            0x1E => Some(GapDataType::SimplePairingRandomizerR256),
            0x1F => Some(GapDataType::List32BitServiceSolicitationUuids),
            0x20 => Some(GapDataType::ServiceData32BitUuids),
            0x21 => Some(GapDataType::ServiceData128BitUuids),
            0x22 => Some(GapDataType::LeSecureConnectionsConfirmationValue),
            0x23 => Some(GapDataType::LeSecureConnectionsRandomValue),
            0x24 => Some(GapDataType::Uri),
            0x25 => Some(GapDataType::IndoorPositioning),
            0x26 => Some(GapDataType::TransportDiscoveryData),
            0x27 => Some(GapDataType::LeSupportedFeatures),
            0x28 => Some(GapDataType::ChannelMapUpdateIndication),
            0x29 => Some(GapDataType::MeshPbAdv),
            0x2A => Some(GapDataType::MeshMessage),
            0x2B => Some(GapDataType::MeshBeacon),
            0x2C => Some(GapDataType::BigInfo),
            0x2D => Some(GapDataType::BroadcastCode),
            0x3D => Some(GapDataType::ThreeDInformationData),
            0xFF => Some(GapDataType::ManufacturerSpecificData),
            _ => None,
        }
    }

    /// Whether a record of this kind carries a device name.
    pub open spec fn names_device(self) -> bool {
        self == GapDataType::CompleteLocalName || self == GapDataType::ShortenedLocalName
    }

    pub fn is_local_name(&self) -> (r: bool)
        ensures
            r == self.names_device(),
    {
        match self {
            GapDataType::CompleteLocalName | GapDataType::ShortenedLocalName => true,
            _ => false,
        }
    }
}

/// Every kind is found again from its octet, and from no other.
pub proof fn lemma_code_round_trip(t: GapDataType, code: u8)
    ensures
        GapDataType::of_code(t.code()) == Some(t),
        GapDataType::of_code(code) == Some(t) ==> t.code() == code,
{
}

/// One decoded record.
pub struct GapData {
    pub data_type: GapDataType,
    pub data: Vec<u8>,
}

/// The mathematical value of a record.
pub struct GapRecord {
    pub data_type: GapDataType,
    pub data: Seq<u8>,
}

impl View for GapData {
    type V = GapRecord;

    open spec fn view(&self) -> GapRecord {
        GapRecord { data_type: self.data_type, data: self.data@ }
    }
}

/// Why a buffer does not start with a record.
#[derive(Clone, Copy, PartialEq, Eq, Structural, Debug)]
pub enum GapParseError {
    /// The buffer is empty.
    NoData,
    /// The buffer is one octet, and not the zero of padding.
    LoneByte(u8),
    /// The length octet announces more than the buffer holds after it.
    SizeExceedsData { size: usize, remaining: usize },
    /// The type octet stands for no known kind.
    UnknownType(u8),
}

impl GapParseError {
    pub open spec fn text(self) -> Seq<char> {
        match self {
            GapParseError::NoData => "no data to parse"@,
            GapParseError::LoneByte(b) => "can't parse 1 byte of data: "@ + decimal_text(b as nat),
            GapParseError::SizeExceedsData { size, remaining } => "size "@ + decimal_text(
                size as nat,
            ) + " is bigger than remaining length "@ + decimal_text(remaining as nat),
            GapParseError::UnknownType(b) => "can't parse data type "@ + decimal_text(b as nat),
        }
    }

    pub fn to_string(&self) -> (s: String)
        ensures
            s@ == self.text(),
    {
        match self {
            GapParseError::NoData => "no data to parse".to_owned(),
            GapParseError::LoneByte(b) => {
                let mut s = "can't parse 1 byte of data: ".to_owned();
                append_decimal(&mut s, *b as u128);
                s
            },
            GapParseError::SizeExceedsData { size, remaining } => {
                let mut s = "size ".to_owned();
                append_decimal(&mut s, *size as u128);
                s.append(" is bigger than remaining length ");
                append_decimal(&mut s, *remaining as u128);
                s
            },
            GapParseError::UnknownType(b) => {
                let mut s = "can't parse data type ".to_owned();
                append_decimal(&mut s, *b as u128);
                s
            },
        }
    }
}

/// What the front of `bytes` decodes to.
///
/// An empty buffer holds nothing. A single octet is padding if it is zero,
/// and malformed otherwise. A zero length octet marks padding too: in
/// both cases the record has the placeholder kind and no payload. Any
/// other length octet counts the type octet and the payload, which the
/// buffer must hold.
pub open spec fn parse_spec(bytes: Seq<u8>) -> Result<GapRecord, GapParseError> {
    if bytes.len() == 0 {
        Err(GapParseError::NoData)
    } else if bytes.len() == 1 {
        if bytes[0] != 0 {
            Err(GapParseError::LoneByte(bytes[0]))
        } else {
            Ok(GapRecord { data_type: GapDataType::Invalid, data: Seq::empty() })
        }
    } else if bytes[0] == 0 {
        Ok(GapRecord { data_type: GapDataType::Invalid, data: Seq::empty() })
    } else if bytes[0] > bytes.len() - 1 {
        Err(
            GapParseError::SizeExceedsData {
                size: bytes[0] as usize,
                remaining: (bytes.len() - 1) as usize,
            },
        )
    } else {
        match GapDataType::of_code(bytes[1]) {
            Some(data_type) => Ok(
                GapRecord { data_type, data: bytes.subrange(2, bytes[0] as int + 1) },
            ),
            None => Err(GapParseError::UnknownType(bytes[1])),
        }
    }
}

/// What is left of `bytes` after its first `n` octets.
pub open spec fn remainder(bytes: Seq<u8>, n: int) -> Seq<u8> {
    if n >= bytes.len() {
        Seq::empty()
    } else {
        bytes.subrange(n, bytes.len() as int)
    }
}

/// The records that are decoded from `bytes` one after the other, each
/// from what the one before it left, up to the end of the buffer or the
/// first malformed record.
pub open spec fn records(bytes: Seq<u8>) -> Seq<GapRecord>
    decreases bytes.len(),
{
    if bytes.len() == 0 {
        Seq::empty()
    } else {
        match parse_spec(bytes) {
            Ok(rec) => seq![rec] + records(remainder(bytes, rec.span())),
            Err(_) => Seq::empty(),
        }
    }
}

/// The values of a list of records.
pub open spec fn record_views(v: Seq<GapData>) -> Seq<GapRecord> {
    v.map_values(|g: GapData| g@)
}

impl GapData {
    /// Decodes the record at the front of `bytes`.
    pub fn decode(bytes: &[u8]) -> (r: Result<GapData, GapParseError>)
        ensures
            match r {
                Ok(g) => parse_spec(bytes@) == Ok::<GapRecord, GapParseError>(g@),
                Err(e) => parse_spec(bytes@) == Err::<GapRecord, GapParseError>(e),
            },
    {
        if bytes.len() == 0 {
            return Err(GapParseError::NoData);
        } else if bytes.len() == 1 {
            if bytes[0] != 0 {
                return Err(GapParseError::LoneByte(bytes[0]));
            }
            return Ok(GapData { data_type: GapDataType::Invalid, data: Vec::new() });
        }
        let data_size: usize = bytes[0] as usize;
        if data_size == 0 {
            return Ok(GapData { data_type: GapDataType::Invalid, data: Vec::new() });
        }
        if data_size > bytes.len() - 1 {
            return Err(
                GapParseError::SizeExceedsData { size: data_size, remaining: bytes.len() - 1 },
            );
        }
        match GapDataType::from_code(bytes[1]) {
            Some(data_type) => {
                let data = slice_to_vec(slice_subrange(bytes, 2, data_size + 1));
                Ok(GapData { data_type, data })
            },
            None => Err(GapParseError::UnknownType(bytes[1])),
        }
    }

    /// Decodes the record at the front of `bytes`, or says in words why there is none.
    pub fn parse(bytes: &[u8]) -> (r: Result<GapData, String>)
        ensures
            match r {
                Ok(g) => parse_spec(bytes@) == Ok::<GapRecord, GapParseError>(g@),
                Err(msg) => parse_spec(bytes@) is Err && msg@ == parse_spec(bytes@)->Err_0.text(),
            },
    {
        match GapData::decode(bytes) {
            Ok(g) => Ok(g),
            Err(e) => Err(e.to_string()),
        }
    }

    /// Decodes record after record, each from what the one before it left,
    /// and stops at the end of the buffer or at the first malformed record.
    pub fn parse_records(bytes: &[u8]) -> (out: Vec<GapData>)
        ensures
            record_views(out@) == records(bytes@),
    {
        let mut out: Vec<GapData> = Vec::new();
        let mut offset: usize = 0;
        proof {
            assert(remainder(bytes@, 0) =~= bytes@);
            assert(record_views(out@) + records(bytes@) =~= records(bytes@));
        }
        while offset < bytes.len()
            invariant
                offset <= bytes.len(),
                records(bytes@) == record_views(out@) + records(remainder(bytes@, offset as int)),
            decreases bytes.len() - offset,
        {
            let rest = slice_subrange(bytes, offset, bytes.len());
            assert(rest@ == remainder(bytes@, offset as int));
            match GapData::decode(rest) {
                Ok(g) => {
                    let step: usize = g.data.len() + 2;
                    proof {
                        let ghost before = record_views(out@);
                        let ghost next = remainder(rest@, step as int);
                        assert(records(rest@) == seq![g@] + records(next));
                        assert(record_views(out@.push(g)) =~= before.push(g@));
                        assert(before + (seq![g@] + records(next)) =~= before.push(g@) + records(
                            next,
                        ));
                        if offset + step >= bytes.len() {
                            assert(next =~= remainder(bytes@, bytes.len() as int));
                        } else {
                            assert(next =~= remainder(bytes@, offset + step));
                        }
                    }
                    out.push(g);
                    offset = if step >= bytes.len() - offset {
                        bytes.len()
                    } else {
                        offset + step
                    };
                },
                Err(_) => {
                    proof {
                        assert(records(rest@) == Seq::<GapRecord>::empty());
                        assert(record_views(out@) + Seq::<GapRecord>::empty() =~= record_views(
                            out@,
                        ));
                        assert(records(remainder(bytes@, bytes.len() as int)) == Seq::<
                            GapRecord,
                        >::empty());
                    }
                    offset = bytes.len();
                },
            }
        }
        proof {
            assert(records(remainder(bytes@, offset as int)) == Seq::<GapRecord>::empty());
            assert(record_views(out@) + Seq::<GapRecord>::empty() =~= record_views(out@));
        }
        out
    }
}

impl GapRecord {
    /// How many octets the decoding loop moves on after this record: the
    /// payload and the two octets before it.
    pub open spec fn span(self) -> int {
        self.data.len() as int + 2
    }

    /// The octets that a length-prefixed record is decoded from: the
    /// length octet, the type octet, the payload.
    pub open spec fn encoding(self) -> Seq<u8> {
        seq![(self.data.len() + 1) as u8, self.data_type.code()] + self.data
    }
}

/// Whether `bytes` starts with a length-prefixed record: neither padding
/// nor malformed.
pub open spec fn starts_with_record(bytes: Seq<u8>) -> bool {
    bytes.len() >= 2 && bytes[0] != 0 && parse_spec(bytes) is Ok
}

/// The length-prefixed records at the front of `bytes`, up to the first
/// padding or malformed record.
pub open spec fn framed_records(bytes: Seq<u8>) -> Seq<GapRecord>
    decreases bytes.len(),
{
    if starts_with_record(bytes) {
        let rec = parse_spec(bytes)->Ok_0;
        seq![rec] + framed_records(remainder(bytes, rec.span()))
    } else {
        Seq::empty()
    }
}

/// Whether `bytes` is length-prefixed records from end to end.
pub open spec fn fully_framed(bytes: Seq<u8>) -> bool
    decreases bytes.len(),
{
    bytes.len() == 0 || (starts_with_record(bytes) && fully_framed(
        remainder(bytes, parse_spec(bytes)->Ok_0.span()),
    ))
}

/// The encodings of `recs`, one after the other.
pub open spec fn concat_encodings(recs: Seq<GapRecord>) -> Seq<u8>
    decreases recs.len(),
{
    if recs.len() == 0 {
        Seq::empty()
    } else {
        recs[0].encoding() + concat_encodings(recs.drop_first())
    }
}

/// A length-prefixed record is exactly the octets it was decoded from.
pub proof fn lemma_record_exact(bytes: Seq<u8>)
    requires
        starts_with_record(bytes),
    ensures
        parse_spec(bytes)->Ok_0.span() <= bytes.len(),
        parse_spec(bytes)->Ok_0.encoding() == bytes.subrange(
            0,
            parse_spec(bytes)->Ok_0.span(),
        ),
{
    let rec = parse_spec(bytes)->Ok_0;
    lemma_code_round_trip(rec.data_type, bytes[1]);
    assert(rec.encoding() =~= bytes.subrange(0, rec.span()));
}

/// Decoding is exact: the encodings of the records decoded from the front
/// of a buffer, put one after the other, are the buffer up to its first
/// padding or malformed record; and the whole buffer where it holds
/// nothing else. Those records are the first that the decoding loop yields.
pub proof fn lemma_decoding_exact(bytes: Seq<u8>)
    ensures
        concat_encodings(framed_records(bytes)).len() <= bytes.len(),
        concat_encodings(framed_records(bytes)) == bytes.subrange(
            0,
            concat_encodings(framed_records(bytes)).len() as int,
        ),
        fully_framed(bytes) ==> concat_encodings(framed_records(bytes)) == bytes,
        framed_records(bytes).len() <= records(bytes).len(),
        framed_records(bytes) == records(bytes).subrange(0, framed_records(bytes).len() as int),
    decreases bytes.len(),
{
    if starts_with_record(bytes) {
        let rec = parse_spec(bytes)->Ok_0;
        let rest = remainder(bytes, rec.span());
        lemma_record_exact(bytes);
        lemma_decoding_exact(rest);
        let tail = framed_records(rest);
        let all = framed_records(bytes);
        assert(all == seq![rec] + tail);
        assert(all.drop_first() =~= tail);
        assert(concat_encodings(all) == rec.encoding() + concat_encodings(tail));
        assert(rest =~= bytes.subrange(rec.span(), bytes.len() as int));
        assert(concat_encodings(all) =~= bytes.subrange(0, concat_encodings(all).len() as int));
        if fully_framed(bytes) {
            assert(concat_encodings(all) =~= bytes);
        }
        assert(records(bytes) == seq![rec] + records(rest));
        assert(all =~= records(bytes).subrange(0, all.len() as int));
    } else {
        assert(concat_encodings(framed_records(bytes)) =~= bytes.subrange(0, 0));
        assert(framed_records(bytes) =~= records(bytes).subrange(0, 0));
    }
}

} // verus!
