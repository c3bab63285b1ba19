//! The flag fields of a DNS header and the two octets that carry them.

use vstd::prelude::*;

verus! {

/// The fields that share the third and fourth octet of a DNS header.
#[derive(Clone, Copy, Debug, PartialEq, Eq, Structural)]
pub struct Flags {
    /// Query (`false`) or response (`true`).
    pub qr: bool,
    /// Kind of query, four bits wide.
    pub opcode: u8,
    /// Authoritative answer.
    pub aa: bool,
    /// Truncation.
    pub tc: bool,
    /// Recursion desired.
    pub rd: bool,
    /// Recursion available.
    pub ra: bool,
    /// Reserved field, three bits wide.
    pub z: u8,
    /// Response code, four bits wide.
    pub rcode: u8,
}

/// The weight of a one-bit field that sits at the position whose weight is `weight`.
pub open spec fn bit(flag: bool, weight: int) -> int {
    if flag {
        weight
    } else {
        0
    }
}

impl Flags {
    /// Every numeric field fits the width that the header gives it.
    pub open spec fn wf(self) -> bool {
        &&& self.opcode <= 15
        &&& self.z <= 7
        &&& self.rcode <= 15
    }

    /// Whether every numeric field fits its width.
    pub fn fits_the_wire(&self) -> (fits: bool)
        ensures
            fits == self.wf(),
    {
        self.opcode <= 15 && self.z <= 7 && self.rcode <= 15
    }

    /// The first flag octet, most significant bit first: `qr`, four bits of
    /// `opcode`, `aa`, `tc`, `rd`.
    pub open spec fn octet1(self) -> int {
        bit(self.qr, 128) + 8 * self.opcode + bit(self.aa, 4) + bit(self.tc, 2) + bit(self.rd, 1)
    }

    /// The second flag octet, most significant bit first: `ra`, three bits
    /// of `z`, four bits of `rcode`.
    pub open spec fn octet2(self) -> int {
        bit(self.ra, 128) + 16 * self.z + self.rcode
    }

    /// The fields that a pair of flag octets carries.
    pub open spec fn from_octets(octet1: u8, octet2: u8) -> Flags {
        Flags {
            qr: octet1 / 128 == 1,
            opcode: ((octet1 / 8) % 16) as u8,
            aa: (octet1 / 4) % 2 == 1,
            tc: (octet1 / 2) % 2 == 1,
            rd: octet1 % 2 == 1,
            ra: octet2 / 128 == 1,
            z: ((octet2 / 16) % 8) as u8,
            rcode: (octet2 % 16) as u8,
        }
    }
}

/// Packs the flag fields into the two octets that follow the identifier.
pub fn pack_flags(flags: &Flags) -> (octets: (u8, u8))
    requires
        flags.wf(),
    ensures
        octets.0 == flags.octet1(),
        octets.1 == flags.octet2(),
{
    let opcode: u8 = flags.opcode;
    let qr: u8 = if flags.qr { 0x80 } else { 0 };
    let aa: u8 = if flags.aa { 0x04 } else { 0 };
    let tc: u8 = if flags.tc { 0x02 } else { 0 };
    let rd: u8 = if flags.rd { 0x01 } else { 0 };
    let first: u8 = (opcode << 3) | qr | aa | tc | rd;
    assert(first == 8 * opcode + qr + aa + tc + rd) by (bit_vector)
        requires
            opcode <= 15,
            qr == 0 || qr == 0x80,
            aa == 0 || aa == 0x04,
            tc == 0 || tc == 0x02,
            rd == 0 || rd == 0x01,
            first == (opcode << 3) | qr | aa | tc | rd,
    ;
    let z: u8 = flags.z;
    let rcode: u8 = flags.rcode;
    let ra: u8 = if flags.ra { 0x80 } else { 0 };
    let second: u8 = (z << 4) | ra | (rcode & 0x0F);
    assert(second == 16 * z + ra + rcode) by (bit_vector)
        requires
            z <= 7,
            rcode <= 15,
            ra == 0 || ra == 0x80,
            second == (z << 4) | ra | (rcode & 0x0F),
    ;
    (first, second)
}

/// Reads the flag fields out of the two octets that follow the identifier.
/// Every pair of octets stands for some flags.
pub fn unpack_flags(octet1: u8, octet2: u8) -> (flags: Flags)
    ensures
        flags == Flags::from_octets(octet1, octet2),
        flags.wf(),
{
    let qr: bool = octet1 & 0x80 != 0;
    let opcode: u8 = (octet1 & 0x78) >> 3;
    let aa: bool = octet1 & 0x04 != 0;
    let tc: bool = octet1 & 0x02 != 0;
    let rd: bool = octet1 & 0x01 != 0;
    let ra: bool = octet2 & 0x80 != 0;
    let z: u8 = (octet2 & 0x70) >> 4;
    let rcode: u8 = octet2 & 0x0F;
    assert((octet1 & 0x80 != 0) == (octet1 / 128 == 1)) by (bit_vector);
    assert((octet1 & 0x78) >> 3 == (octet1 / 8) % 16) by (bit_vector);
    assert((octet1 & 0x04 != 0) == ((octet1 / 4) % 2 == 1)) by (bit_vector);
    assert((octet1 & 0x02 != 0) == ((octet1 / 2) % 2 == 1)) by (bit_vector);
    assert((octet1 & 0x01 != 0) == (octet1 % 2 == 1)) by (bit_vector);
    assert((octet2 & 0x80 != 0) == (octet2 / 128 == 1)) by (bit_vector);
    assert((octet2 & 0x70) >> 4 == (octet2 / 16) % 8) by (bit_vector);
    assert(octet2 & 0x0F == octet2 % 16) by (bit_vector);
    Flags { qr, opcode, aa, tc, rd, ra, z, rcode }
}

/// Unpacking what was packed gives the flags back: for all well-formed
/// flags, the octets they pack into fit a byte each and carry exactly
/// those flags.
pub proof fn lemma_unpack_pack(flags: Flags)
    requires
        flags.wf(),
    ensures
        0 <= flags.octet1() <= 255,
        0 <= flags.octet2() <= 255,
        Flags::from_octets(flags.octet1() as u8, flags.octet2() as u8) == flags,
{
}

/// Packing what was unpacked gives the octets back: no two pairs of octets
/// carry the same flags.
pub proof fn lemma_pack_unpack(octet1: u8, octet2: u8)
    ensures
        Flags::from_octets(octet1, octet2).wf(),
        Flags::from_octets(octet1, octet2).octet1() == octet1,
        Flags::from_octets(octet1, octet2).octet2() == octet2,
{
}

} // verus!
