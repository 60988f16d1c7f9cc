//! Device addresses and the transports an address has been seen on.

use vstd::prelude::*;
use crate::text::{append_hex_octet, hex_octet_text};

verus! {

/// A 48-bit device address, packed into the low bits of a `u64`.
#[derive(Clone, Copy, PartialEq, Eq, Structural, Debug, Hash)]
pub struct Address(pub u64);

/// The value of six octets, the first being the least significant.
pub open spec fn packed(octets: Seq<u8>) -> nat
    recommends
        octets.len() == 6,
{
    (octets[0] as nat) + 0x100 * ((octets[1] as nat) + 0x100 * ((octets[2] as nat) + 0x100 * ((
    octets[3] as nat) + 0x100 * ((octets[4] as nat) + 0x100 * (octets[5] as nat)))))
}

/// An octet below a multiple of 256 is the remainder, and what stands above it the quotient.
proof fn lemma_octet_split(low: nat, high: nat)
    requires
        low < 0x100,
    ensures
        (low + 0x100 * high) % 0x100 == low,
        (low + 0x100 * high) / 0x100 == high,
{
}

impl Address {
    /// The six octets, the least significant first. Bits above the 48th are left out.
    pub open spec fn octets(self) -> Seq<u8> {
        let v0 = self.0 as nat;
        let v1 = v0 / 0x100;
        let v2 = v1 / 0x100;
        let v3 = v2 / 0x100;
        let v4 = v3 / 0x100;
        let v5 = v4 / 0x100;
        seq![
            (v0 % 0x100) as u8,
            (v1 % 0x100) as u8,
            (v2 % 0x100) as u8,
            (v3 % 0x100) as u8,
            (v4 % 0x100) as u8,
            (v5 % 0x100) as u8,
        ]
    }

    /// Six colon-separated pairs of capital hexadecimal digits, the most
    /// significant octet first.
    pub open spec fn text(self) -> Seq<char> {
        let o = self.octets();
        hex_octet_text(o[5]) + seq![':'] + hex_octet_text(o[4]) + seq![':'] + hex_octet_text(o[3])
            + seq![':'] + hex_octet_text(o[2]) + seq![':'] + hex_octet_text(o[1]) + seq![':']
            + hex_octet_text(o[0])
    }

    /// Packs six octets, the first being the least significant.
    pub fn from_bytes(bytes: &[u8; 6]) -> (a: Address)
        ensures
            a.0 == packed(bytes@),
            a.0 < 0x1_0000_0000_0000,
            a.octets() == bytes@,
    {
        let h4: u64 = (bytes[4] as u64) + 0x100 * (bytes[5] as u64);
        let h3: u64 = (bytes[3] as u64) + 0x100 * h4;
        let h2: u64 = (bytes[2] as u64) + 0x100 * h3;
        let h1: u64 = (bytes[1] as u64) + 0x100 * h2;
        let h0: u64 = (bytes[0] as u64) + 0x100 * h1;
        let a = Address(h0);
        proof {
            lemma_octet_split(bytes[4] as nat, bytes[5] as nat);
            lemma_octet_split(bytes[3] as nat, h4 as nat);
            lemma_octet_split(bytes[2] as nat, h3 as nat);
            lemma_octet_split(bytes[1] as nat, h2 as nat);
            lemma_octet_split(bytes[0] as nat, h1 as nat);
            assert(a.octets() =~= bytes@);
        }
        a
    }

    /// The six octets, the least significant first.
    pub fn to_bytes(&self) -> (bytes: [u8; 6])
        ensures
            bytes@ == self.octets(),
    {
        let v0: u64 = self.0;
        let v1: u64 = v0 / 0x100;
        let v2: u64 = v1 / 0x100;
        let v3: u64 = v2 / 0x100;
        let v4: u64 = v3 / 0x100;
        let v5: u64 = v4 / 0x100;
        let bytes: [u8; 6] = [
            (v0 % 0x100) as u8,
            (v1 % 0x100) as u8,
            (v2 % 0x100) as u8,
            (v3 % 0x100) as u8,
            (v4 % 0x100) as u8,
            (v5 % 0x100) as u8,
        ];
        assert(bytes@ =~= self.octets());
        bytes
    }

    pub fn to_string(&self) -> (s: String)
        ensures
            s@ == self.text(),
    {
        let b = self.to_bytes();
        proof {
            reveal_strlit(":");
        }
        let mut s = String::new();
        append_hex_octet(&mut s, b[5]);
        s.append(":");
        append_hex_octet(&mut s, b[4]);
        s.append(":");
        append_hex_octet(&mut s, b[3]);
        s.append(":");
        append_hex_octet(&mut s, b[2]);
        s.append(":");
        append_hex_octet(&mut s, b[1]);
        s.append(":");
        append_hex_octet(&mut s, b[0]);
        assert(":"@ =~= seq![':']);
        assert(s@ =~= self.text());
        s
    }
}

/// An address from its six octets, the least significant first.
impl From<&[u8; 6]> for Address {
    fn from(bytes: &[u8; 6]) -> (a: Address) {
        Address::from_bytes(bytes)
    }
}

impl vstd::std_specs::convert::FromSpecImpl<&[u8; 6]> for Address {
    open spec fn obeys_from_spec() -> bool {
        true
    }

    open spec fn from_spec(bytes: &[u8; 6]) -> Address {
        Address(packed(bytes@) as u64)
    }
}

/// The six octets of an address, the least significant first.
impl From<Address> for [u8; 6] {
    fn from(address: Address) -> (bytes: [u8; 6]) {
        address.to_bytes()
    }
}

impl vstd::std_specs::convert::FromSpecImpl<Address> for [u8; 6] {
    open spec fn obeys_from_spec() -> bool {
        true
    }

    open spec fn from_spec(address: Address) -> [u8; 6] {
        choose|bytes: [u8; 6]| bytes@ == address.octets()
    }
}

/// Packing the octets of an address of at most 48 bits gives the address back.
pub proof fn lemma_octets_round_trip(a: Address)
    requires
        a.0 < 0x1_0000_0000_0000,
    ensures
        packed(a.octets()) == a.0,
{
    let v0 = a.0 as nat;
    let v1 = v0 / 0x100;
    let v2 = v1 / 0x100;
    let v3 = v2 / 0x100;
    let v4 = v3 / 0x100;
    let v5 = v4 / 0x100;
    assert(v5 < 0x100);
    assert(v4 == v4 % 0x100 + 0x100 * v5);
    assert(v3 == v3 % 0x100 + 0x100 * v4);
    assert(v2 == v2 % 0x100 + 0x100 * v3);
    assert(v1 == v1 % 0x100 + 0x100 * v2);
    assert(v0 == v0 % 0x100 + 0x100 * v1);
}

/// The transports on which an address has been seen.
#[derive(Clone, Copy, PartialEq, Eq, Structural, Debug)]
pub enum AddressType {
    Unknown,
    BREDR,
    LE,
    Dual,
}

impl AddressType {
    /// What is known after `other` has been seen as well.
    pub open spec fn merge(self, other: AddressType) -> AddressType {
        match self {
            AddressType::Unknown => other,
            AddressType::Dual => AddressType::Dual,
            AddressType::BREDR => match other {
                AddressType::Dual | AddressType::LE => AddressType::Dual,
                _ => AddressType::BREDR,
            },
            AddressType::LE => match other {
                AddressType::Dual | AddressType::BREDR => AddressType::Dual,
                _ => AddressType::LE,
            },
        }
    }

    /// The place in the order Unknown, BR/EDR, LE, Dual.
    pub open spec fn rank(self) -> nat {
        match self {
            AddressType::Unknown => 0,
            AddressType::BREDR => 1,
            AddressType::LE => 2,
            AddressType::Dual => 3,
        }
    }

    pub open spec fn text(self) -> Seq<char> {
        match self {
            AddressType::Unknown => "Unknown type"@,
            AddressType::BREDR => "BR/EDR"@,
            AddressType::LE => "LE"@,
            AddressType::Dual => "Dual"@,
        }
    }

    /// Notes that the address was seen on `new_type` too.
    pub fn update(&mut self, new_type: AddressType)
        ensures
            *final(self) == old(self).merge(new_type),
    {
        *self = match *self {
            AddressType::Unknown => new_type,
            AddressType::Dual => AddressType::Dual,
            AddressType::BREDR => match new_type {
                AddressType::Dual | AddressType::LE => AddressType::Dual,
                _ => AddressType::BREDR,
            },
            AddressType::LE => match new_type {
                AddressType::Dual | AddressType::BREDR => AddressType::Dual,
                _ => AddressType::LE,
            },
        }
    }

    pub fn order_rank(&self) -> (r: u8)
        ensures
            r == self.rank(),
    {
        match self {
            AddressType::Unknown => 0,
            AddressType::BREDR => 1,
            AddressType::LE => 2,
            AddressType::Dual => 3,
        }
    }

    pub fn to_string(&self) -> (s: String)
        ensures
            s@ == self.text(),
    {
        match self {
            AddressType::Unknown => "Unknown type".to_owned(),
            AddressType::BREDR => "BR/EDR".to_owned(),
            AddressType::LE => "LE".to_owned(),
            AddressType::Dual => "Dual".to_owned(),
        }
    }
}

/// Merging is commutative and idempotent, and the two single transports
/// merge to `Dual` in either order.
pub proof fn lemma_merge_commutative_idempotent(a: AddressType, b: AddressType)
    ensures
        a.merge(b) == b.merge(a),
        a.merge(a) == a,
        AddressType::BREDR.merge(AddressType::LE) == AddressType::Dual,
        AddressType::LE.merge(AddressType::BREDR) == AddressType::Dual,
{
}

/// Merging is the join of a lattice: it is associative, `Unknown` is its
/// neutral element and `Dual` absorbs, and a merge never loses a transport.
pub proof fn lemma_merge_is_join(a: AddressType, b: AddressType, c: AddressType)
    ensures
        a.merge(b).merge(c) == a.merge(b.merge(c)),
        AddressType::Unknown.merge(a) == a,
        a.merge(AddressType::Dual) == AddressType::Dual,
        a.merge(b).merge(a) == a.merge(b),
        a.merge(b).merge(b) == a.merge(b),
        (a.merge(b) == b) <==> (b.merge(a) == b),
{
}

} // verus!
