//! The header of an inbound reply.

use crate::buffer::{get_u16_le, get_u8, le16, remaining, unread};
use crate::flags::{unpack_flags, Flags};
use crate::ident::random_id;
use bytes::Bytes;
use vstd::prelude::*;

verus! {

/// Why a header could not be read.
#[derive(Clone, Copy, Debug, PartialEq, Eq, Structural)]
pub enum DecodeError {
    /// The stream ended before the identifier and the two flag octets:
    /// only `available` bytes were left.
    Underrun { available: usize },
}

/// The number of bytes that reading a header takes from the stream: the
/// identifier and the two flag octets.
pub const DECODED_LEN: usize = 4;

/// The header fields of a reply.
#[derive(Clone, Copy, Debug, PartialEq, Eq, Structural)]
pub struct DNSResponse {
    /// Transaction identifier.
    pub id: u16,
    /// Query (`false`) or response (`true`).
    pub qr: bool,
    /// Kind of query, four bits wide.
    pub opcode: u8,
    /// Authoritative answer.
    pub aa: bool,
    /// Truncation.
    pub tc: bool,
    /// Recursion desired.
    pub rd: bool,
    /// Recursion available.
    pub ra: bool,
    /// Reserved field, three bits wide.
    pub z: u8,
    /// Response code, four bits wide.
    pub rcode: u8,
    /// Number of answer records.
    pub ancount: u16,
    /// Number of authority records.
    pub nscount: u16,
    /// Number of additional records.
    pub arcount: u16,
}

impl DNSResponse {
    /// The flag fields of the header.
    pub open spec fn flags(self) -> Flags {
        Flags {
            qr: self.qr,
            opcode: self.opcode,
            aa: self.aa,
            tc: self.tc,
            rd: self.rd,
            ra: self.ra,
            z: self.z,
            rcode: self.rcode,
        }
    }

    /// What `self` becomes when a header that begins with the four given
    /// bytes is read into it: the first two give the identifier, low octet
    /// first, the other two the flags; the counts stay.
    pub open spec fn decoded(self, front: Seq<u8>) -> DNSResponse
        recommends
            front.len() == 4,
    {
        let flags = Flags::from_octets(front[2], front[3]);
        DNSResponse {
            id: (front[0] + 256 * front[1]) as u16,
            qr: flags.qr,
            opcode: flags.opcode,
            aa: flags.aa,
            tc: flags.tc,
            rd: flags.rd,
            ra: flags.ra,
            z: flags.z,
            rcode: flags.rcode,
            ancount: self.ancount,
            nscount: self.nscount,
            arcount: self.arcount,
        }
    }

    /// The header that a reply is read into, under the given transaction
    /// identifier: recursion is desired, every other flag and count is zero.
    pub open spec fn fresh(id: u16) -> DNSResponse {
        DNSResponse {
            id,
            qr: false,
            opcode: 0,
            aa: false,
            tc: false,
            rd: true,
            ra: false,
            z: 0,
            rcode: 0,
            ancount: 0,
            nscount: 0,
            arcount: 0,
        }
    }

    /// A header to read a reply into, under the given transaction identifier.
    pub fn with_id(id: u16) -> (response: DNSResponse)
        ensures
            response == DNSResponse::fresh(id),
    {
        DNSResponse {
            id,
            qr: false,
            opcode: 0,
            aa: false,
            tc: false,
            rd: true,
            ra: false,
            z: 0,
            rcode: 0,
            ancount: 0,
            nscount: 0,
            arcount: 0,
        }
    }

    /// A header to read a reply into, under a transaction identifier drawn
    /// at random.
    pub fn new() -> (response: DNSResponse)
        ensures
            response == DNSResponse::fresh(response.id),
    {
        DNSResponse::with_id(random_id())
    }

    /// The flag fields of the header, as one value.
    pub fn header_flags(&self) -> (flags: Flags)
        ensures
            flags == self.flags(),
    {
        Flags {
            qr: self.qr,
            opcode: self.opcode,
            aa: self.aa,
            tc: self.tc,
            rd: self.rd,
            ra: self.ra,
            z: self.z,
            rcode: self.rcode,
        }
    }

    /// Reads the identifier and the flags of a reply from the front of
    /// `buf`. Where fewer than four bytes are left, nothing is read and
    /// nothing changes; otherwise exactly four bytes are taken. The counts
    /// and whatever follows them stay in the stream.
    pub fn from_buffer(&mut self, buf: &mut Bytes) -> (result: Result<(), DecodeError>)
        ensures
            unread(*old(buf)).len() < DECODED_LEN ==> {
                &&& result == Err::<(), DecodeError>(
                    DecodeError::Underrun { available: unread(*old(buf)).len() as usize },
                )
                &&& *final(self) == *old(self)
                &&& unread(*final(buf)) == unread(*old(buf))
            },
            unread(*old(buf)).len() >= DECODED_LEN ==> {
                &&& result == Ok::<(), DecodeError>(())
                &&& *final(self) == old(self).decoded(unread(*old(buf)).take(4))
                &&& unread(*final(buf)) == unread(*old(buf)).skip(4)
                &&& final(self).flags().wf()
            },
    {
        let available: usize = remaining(buf);
        if available < DECODED_LEN {
            return Err(DecodeError::Underrun { available });
        }
        let ghost stream = unread(*buf);
        let id: u16 = get_u16_le(buf);
        let octet1: u8 = get_u8(buf);
        let octet2: u8 = get_u8(buf);
        let flags: Flags = unpack_flags(octet1, octet2);
        proof {
            assert(le16(id)[0] == stream.take(2)[0]);
            assert(le16(id)[1] == stream.take(2)[1]);
            assert(unread(*buf) =~= stream.skip(4));
        }
        self.id = id;
        self.qr = flags.qr;
        self.opcode = flags.opcode;
        self.aa = flags.aa;
        self.tc = flags.tc;
        self.rd = flags.rd;
        self.ra = flags.ra;
        self.z = flags.z;
        self.rcode = flags.rcode;
        Ok(())
    }
}

} // verus!
